//! Base64 decoding, done by the `base64` crate.
use base64::alphabet::{STANDARD, URL_SAFE};
use base64::engine::general_purpose::{GeneralPurpose, GeneralPurposeConfig};
use base64::engine::DecodePaddingMode;
use base64::{DecodeError, Engine};
use vstd::prelude::*;

verus! {

/// The 64-symbol alphabet a decoder reads.
pub enum Base64Alphabet {
    /// `A-Z a-z 0-9 + /` (RFC 4648, section 4).
    Standard,
    /// `A-Z a-z 0-9 - _` (RFC 4648, section 5).
    UrlSafe,
}

/// What a decoder asks of the `=` padding at the end of its input.
pub enum Base64Padding {
    /// Canonical padding, less padding, or none are all accepted.
    Indifferent,
    /// Exactly the canonical padding is required.
    Canonical,
}

/// Why a decoder refused its input.
pub enum Base64Failure {
    /// A byte outside the alphabet, at the given offset.
    InvalidByte(usize, u8),
    /// An input length that no encoding has.
    InvalidLength(usize),
    /// A last symbol whose discarded bits are not zero, at the given offset.
    InvalidLastSymbol(usize, u8),
    /// Padding other than the decoder asks for.
    InvalidPadding,
}

/// A refusal together with the decoder's own description of it.
pub struct Base64Error {
    pub failure: Base64Failure,
    pub message: String,
}

/// What the `base64` crate's decoder, configured with the alphabet, the
/// padding mode and whether nonzero trailing bits are allowed, gives for the
/// UTF-8 text of `input`: the bytes, or the failure with its description.
pub uninterp spec fn base64_decoded(
    alphabet: Base64Alphabet,
    padding: Base64Padding,
    allow_trailing_bits: bool,
    input: Seq<char>,
) -> Result<Seq<u8>, (Base64Failure, Seq<char>)>;

/// Calls `base64::Engine::decode` on a `GeneralPurpose` engine built from the
/// alphabet and a configuration with the given padding mode and trailing-bit
/// rule. The contract claims only that the outcome is `base64_decoded` of the
/// arguments, with the error's variant and its `Display` text.
#[verifier::external_body]
pub(crate) fn base64_decode(
    alphabet: Base64Alphabet,
    padding: Base64Padding,
    allow_trailing_bits: bool,
    input: &str,
) -> (decoded: Result<Vec<u8>, Base64Error>)
    ensures
        match decoded {
            Ok(bytes) => base64_decoded(alphabet, padding, allow_trailing_bits, input@) == Ok::<
                Seq<u8>,
                (Base64Failure, Seq<char>),
            >(bytes@),
            Err(error) => base64_decoded(alphabet, padding, allow_trailing_bits, input@) == Err::<
                Seq<u8>,
                (Base64Failure, Seq<char>),
            >((error.failure, error.message@)),
        },
{
    let symbols = match alphabet { Base64Alphabet::Standard => &STANDARD, Base64Alphabet::UrlSafe => &URL_SAFE };
    let mode = match padding { Base64Padding::Indifferent => DecodePaddingMode::Indifferent, Base64Padding::Canonical => DecodePaddingMode::RequireCanonical };
    let config = GeneralPurposeConfig::new().with_decode_allow_trailing_bits(allow_trailing_bits).with_decode_padding_mode(mode);
    GeneralPurpose::new(symbols, config).decode(input).map_err(|error| Base64Error { message: error.to_string(), failure: match error {
        DecodeError::InvalidByte(at, byte) => Base64Failure::InvalidByte(at, byte),
        DecodeError::InvalidLength(length) => Base64Failure::InvalidLength(length),
        DecodeError::InvalidLastSymbol(at, byte) => Base64Failure::InvalidLastSymbol(at, byte),
        DecodeError::InvalidPadding => Base64Failure::InvalidPadding,
    } })
}

} // verus!
