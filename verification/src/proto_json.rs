//! The proto3 JSON mapping, as far as the Sigstore bundle uses it.
//!
//! A message is a JSON object whose keys are the fields' JSON (camelCase)
//! names or their proto field names; an unknown key, or a field given
//! twice under either name, is refused. Any value other than an object is
//! refused where a message belongs. `null` stands for a field's
//! default, as does a missing field. `int64` is a decimal string or a number,
//! `bytes` is base64 in either alphabet, padded or not.
use crate::base64_codec::{
    base64_decode, base64_decoded, Base64Alphabet, Base64Failure, Base64Padding,
};
use crate::json::{chars_of, member_value, str_equal, JsonNumber, JsonValue};
use vstd::prelude::*;

verus! {

broadcast use vstd::string::group_string_axioms;

// ---------------------------------------------------------------------------
// Field names
// ---------------------------------------------------------------------------

/// The two names a message field may be given under.
pub struct FieldName {
    /// The lowerCamelCase JSON name.
    pub json_name: &'static str,
    /// The proto field name as the schema declares it.
    pub proto_name: &'static str,
}

/// The names of a message's fields, in field order.
pub open spec fn names_of(fields: Seq<FieldName>) -> Seq<(Seq<char>, Seq<char>)> {
    Seq::new(fields.len(), |i: int| (fields[i].json_name@, fields[i].proto_name@))
}

/// The first of the first `n` fields that `key` names.
pub open spec fn field_index_upto(names: Seq<(Seq<char>, Seq<char>)>, key: Seq<char>, n: int) -> Option<int>
    decreases n,
{
    if n <= 0 {
        None
    } else {
        match field_index_upto(names, key, n - 1) {
            Some(i) => Some(i),
            None => if names[n - 1].0 == key || names[n - 1].1 == key {
                Some(n - 1)
            } else {
                None
            },
        }
    }
}

/// The field that `key` names, if it names one.
pub open spec fn field_index(names: Seq<(Seq<char>, Seq<char>)>, key: Seq<char>) -> Option<int> {
    field_index_upto(names, key, names.len() as int)
}

proof fn lemma_field_index_upto_range(names: Seq<(Seq<char>, Seq<char>)>, key: Seq<char>, n: int)
    ensures
        field_index_upto(names, key, n) matches Some(i) ==> 0 <= i < n,
    decreases n,
{
    if n > 0 {
        lemma_field_index_upto_range(names, key, n - 1);
    }
}

proof fn lemma_field_index_upto_stable(
    names: Seq<(Seq<char>, Seq<char>)>,
    key: Seq<char>,
    n: int,
    m: int,
)
    requires
        n <= m,
        field_index_upto(names, key, n) is Some,
    ensures
        field_index_upto(names, key, m) == field_index_upto(names, key, n),
    decreases m - n,
{
    if n < m {
        lemma_field_index_upto_stable(names, key, n, m - 1);
    }
}

/// The field `key` names is `f` when field `f` has `key` as one of its names
/// and no earlier field does.
pub proof fn lemma_field_index_is(names: Seq<(Seq<char>, Seq<char>)>, key: Seq<char>, f: int)
    requires
        0 <= f < names.len(),
        names[f].0 == key || names[f].1 == key,
        forall|g: int| 0 <= g < f ==> #[trigger] names[g].0 != key && names[g].1 != key,
    ensures
        field_index(names, key) == Some(f),
{
    lemma_field_index_upto_none(names, key, f);
    assert(field_index_upto(names, key, f + 1) == Some(f));
    lemma_field_index_upto_stable(names, key, f + 1, names.len() as int);
}

proof fn lemma_field_index_upto_none(names: Seq<(Seq<char>, Seq<char>)>, key: Seq<char>, n: int)
    requires
        n <= names.len(),
        forall|g: int| 0 <= g < n ==> #[trigger] names[g].0 != key && names[g].1 != key,
    ensures
        field_index_upto(names, key, n) is None,
    decreases n,
{
    if n > 0 {
        lemma_field_index_upto_none(names, key, n - 1);
    }
}

/// A key that names a field is one of that field's names.
pub proof fn lemma_field_index_names(names: Seq<(Seq<char>, Seq<char>)>, key: Seq<char>)
    ensures
        field_index(names, key) matches Some(f) ==> 0 <= f < names.len() && (names[f].0 == key
            || names[f].1 == key),
{
    lemma_field_index_upto_sound(names, key, names.len() as int);
}

proof fn lemma_field_index_upto_sound(names: Seq<(Seq<char>, Seq<char>)>, key: Seq<char>, n: int)
    ensures
        field_index_upto(names, key, n) matches Some(f) ==> 0 <= f < n && (names[f].0 == key
            || names[f].1 == key),
    decreases n,
{
    if n > 0 {
        lemma_field_index_upto_sound(names, key, n - 1);
    }
}

/// Looks up the field that `key` names.
pub fn find_field(fields: &Vec<FieldName>, key: &str) -> (found: Option<usize>)
    ensures
        found matches Some(i) ==> field_index(names_of(fields@), key@) == Some(i as int),
        found is None ==> field_index(names_of(fields@), key@) is None,
{
    let ghost names = names_of(fields@);
    let mut i: usize = 0;
    while i < fields.len()
        invariant
            names == names_of(fields@),
            i <= fields.len(),
            field_index_upto(names, key@, i as int) is None,
        decreases fields.len() - i,
    {
        if str_equal(fields[i].json_name, key) || str_equal(fields[i].proto_name, key) {
            proof {
                assert(field_index_upto(names, key@, i + 1) == Some(i as int));
                lemma_field_index_upto_stable(names, key@, i + 1, names.len() as int);
            }
            return Some(i);
        }
        i = i + 1;
    }
    None
}

// ---------------------------------------------------------------------------
// Messages
// ---------------------------------------------------------------------------

/// Reads the first `k` members of an object into field slots: slot `f` holds
/// the position of the member that gives field `f`. `None` when a key names no
/// field, or names a field that an earlier member already gave.
pub open spec fn object_slots_upto(
    names: Seq<(Seq<char>, Seq<char>)>,
    members: Seq<(String, JsonValue)>,
    k: int,
) -> Option<Seq<Option<int>>>
    decreases k,
{
    if k <= 0 {
        Some(Seq::new(names.len(), |f: int| None::<int>))
    } else {
        match object_slots_upto(names, members, k - 1) {
            None => None,
            Some(slots) => match field_index(names, members[k - 1].0@) {
                None => None,
                Some(f) => if slots[f] is Some {
                    None
                } else {
                    Some(slots.update(f, Some(k - 1)))
                },
            },
        }
    }
}

/// The field slots of a message value, from the members of an object.
/// `None` when the value cannot be read as the message: it is not an object,
/// or one of its keys names no field or a field already given.
pub open spec fn message_slots(names: Seq<(Seq<char>, Seq<char>)>, v: JsonValue) -> Option<
    Seq<Option<int>>,
> {
    match v {
        JsonValue::Object(members) => object_slots_upto(names, members@, members@.len() as int),
        _ => None,
    }
}

/// The value a slot gives: the member it points at, or `null` for a field the
/// message leaves out.
pub open spec fn slot_value(v: JsonValue, slot: Option<int>) -> JsonValue {
    match slot {
        Some(i) => member_value(v, i),
        None => JsonValue::Null,
    }
}

/// The values of a message's fields, in field order, `null` for each field it
/// leaves out; `None` when the value cannot be read as the message. Every
/// message reader of this library reads its document through this function
/// alone.
pub open spec fn message_fields(names: Seq<(Seq<char>, Seq<char>)>, v: JsonValue) -> Option<
    Seq<JsonValue>,
> {
    match message_slots(names, v) {
        None => None,
        Some(slots) => Some(Seq::new(names.len(), |f: int| slot_value(v, slots[f]))),
    }
}

proof fn lemma_object_slots_none_persists(
    names: Seq<(Seq<char>, Seq<char>)>,
    members: Seq<(String, JsonValue)>,
    k: int,
    m: int,
)
    requires
        k <= m,
        object_slots_upto(names, members, k) is None,
    ensures
        object_slots_upto(names, members, m) is None,
    decreases m - k,
{
    if k < m {
        lemma_object_slots_none_persists(names, members, k, m - 1);
    }
}

/// What the slots of an object's first `k` members hold: each filled slot
/// points at an earlier member whose key names that slot's field, and each
/// member's field has its slot filled.
pub proof fn lemma_object_slots_sound(
    names: Seq<(Seq<char>, Seq<char>)>,
    members: Seq<(String, JsonValue)>,
    k: int,
)
    requires
        0 <= k <= members.len(),
    ensures
        object_slots_upto(names, members, k) matches Some(slots) ==> {
            &&& slots.len() == names.len()
            &&& forall|f: int|
                #![trigger slots[f]]
                0 <= f < slots.len() && slots[f] is Some ==> {
                    let i = slots[f]->0;
                    &&& 0 <= i < k
                    &&& field_index(names, members[i].0@) == Some(f)
                }
            &&& forall|i: int|
                #![trigger members[i]]
                0 <= i < k ==> (field_index(names, members[i].0@) matches Some(f) && slots[f]
                    is Some)
        },
    decreases k,
{
    if k > 0 {
        lemma_object_slots_sound(names, members, k - 1);
        lemma_field_index_upto_range(names, members[k - 1].0@, names.len() as int);
        if let Some(prev) = object_slots_upto(names, members, k - 1) {
            if let Some(f) = field_index(names, members[k - 1].0@) {
                if prev[f] is None {
                    let slots = prev.update(f, Some(k - 1));
                    assert(object_slots_upto(names, members, k) == Some(slots));
                    assert forall|g: int|
                        #![trigger slots[g]]
                        0 <= g < slots.len() && slots[g] is Some implies {
                            let i = slots[g]->0;
                            &&& 0 <= i < k
                            &&& field_index(names, members[i].0@) == Some(g)
                        } by {
                        if g != f {
                            assert(prev[g] is Some);
                        }
                    }
                    assert forall|i: int|
                        #![trigger members[i]]
                        0 <= i < k implies (field_index(names, members[i].0@) matches Some(g)
                            && slots[g] is Some) by {
                        lemma_field_index_upto_range(names, members[i].0@, names.len() as int);
                        if i < k - 1 {
                            assert(members[i] == members[i]);
                            let g = field_index(names, members[i].0@)->0;
                            assert(prev[g] is Some);
                        }
                    }
                }
            }
        }
    }
}

/// Two object member lists that agree on their first `k` members read alike
/// up to there.
pub proof fn lemma_object_slots_prefix(
    names: Seq<(Seq<char>, Seq<char>)>,
    a: Seq<(String, JsonValue)>,
    b: Seq<(String, JsonValue)>,
    k: int,
)
    requires
        0 <= k <= a.len(),
        k <= b.len(),
        forall|j: int| 0 <= j < k ==> field_index(names, #[trigger] a[j].0@) == field_index(
            names,
            b[j].0@,
        ),
    ensures
        object_slots_upto(names, a, k) == object_slots_upto(names, b, k),
    decreases k,
{
    if k > 0 {
        lemma_object_slots_prefix(names, a, b, k - 1);
        assert(field_index(names, a[k - 1].0@) == field_index(names, b[k - 1].0@));
    }
}

/// Slot positions as mathematical integers.
pub open spec fn slots_view(slots: Seq<Option<usize>>) -> Seq<Option<int>> {
    Seq::new(
        slots.len(),
        |f: int|
            match slots[f] {
                Some(i) => Some(i as int),
                None => None,
            },
    )
}

/// The names a message's fields may be given under, in field order, each
/// field's JSON name before its proto name when the two differ.
pub open spec fn field_name_list(names: Seq<(Seq<char>, Seq<char>)>) -> Seq<Seq<char>>
    decreases names.len(),
{
    if names.len() == 0 {
        Seq::empty()
    } else {
        let last = names.last();
        field_name_list(names.drop_last()) + if last.0 == last.1 {
            seq![last.0]
        } else {
            seq![last.0, last.1]
        }
    }
}

/// Names in backticks, separated by commas.
pub open spec fn backticked_list(list: Seq<Seq<char>>) -> Seq<char>
    decreases list.len(),
{
    if list.len() == 0 {
        Seq::empty()
    } else if list.len() == 1 {
        "`"@ + list[0] + "`"@
    } else {
        backticked_list(list.drop_last()) + ", `"@ + list.last() + "`"@
    }
}

/// The text of a refusal of `key`, which names no field of a message with
/// the given field names: the key, then the names the message takes.
pub open spec fn unknown_field_text(key: Seq<char>, names: Seq<(Seq<char>, Seq<char>)>) -> Seq<char> {
    let list = field_name_list(names);
    if list.len() == 0 {
        "unknown field `"@ + key + "`, there are no fields"@
    } else if list.len() == 1 {
        "unknown field `"@ + key + "`, expected `"@ + list[0] + "`"@
    } else if list.len() == 2 {
        "unknown field `"@ + key + "`, expected `"@ + list[0] + "` or `"@ + list[1] + "`"@
    } else {
        "unknown field `"@ + key + "`, expected one of "@ + backticked_list(list)
    }
}

/// The text of a refusal of a field given twice: the field's JSON name.
pub open spec fn duplicate_field_text(names: Seq<(Seq<char>, Seq<char>)>, f: int) -> Seq<char> {
    "duplicate field `"@ + names[f].0 + "`"@
}

/// The refusal of the first of an object's first `k` members whose key names
/// no field, or names a field an earlier member gave; `None` when there is
/// none.
pub open spec fn object_refusal_upto(
    names: Seq<(Seq<char>, Seq<char>)>,
    members: Seq<(String, JsonValue)>,
    k: int,
) -> Option<Seq<char>>
    decreases k,
{
    if k <= 0 {
        None
    } else {
        match object_refusal_upto(names, members, k - 1) {
            Some(text) => Some(text),
            None => match object_slots_upto(names, members, k - 1) {
                None => None,
                Some(slots) => match field_index(names, members[k - 1].0@) {
                    None => Some(unknown_field_text(members[k - 1].0@, names)),
                    Some(f) => if slots[f] is Some {
                        Some(duplicate_field_text(names, f))
                    } else {
                        None
                    },
                },
            },
        }
    }
}

proof fn lemma_object_refusal_persists(
    names: Seq<(Seq<char>, Seq<char>)>,
    members: Seq<(String, JsonValue)>,
    k: int,
    m: int,
)
    requires
        0 <= k <= m,
        object_refusal_upto(names, members, k) is Some,
    ensures
        object_refusal_upto(names, members, m) == object_refusal_upto(names, members, k),
    decreases m - k,
{
    if k < m {
        lemma_object_refusal_persists(names, members, k, m - 1);
    }
}

/// The views of a list of names.
pub open spec fn name_views(list: Seq<&'static str>) -> Seq<Seq<char>> {
    Seq::new(list.len(), |i: int| list[i]@)
}

fn field_names_in_order(fields: &Vec<FieldName>) -> (list: Vec<&'static str>)
    ensures
        name_views(list@) == field_name_list(names_of(fields@)),
{
    let ghost names = names_of(fields@);
    let mut list: Vec<&'static str> = Vec::new();
    let mut i: usize = 0;
    while i < fields.len()
        invariant
            names == names_of(fields@),
            i <= fields@.len(),
            name_views(list@) == field_name_list(names.take(i as int)),
        decreases fields@.len() - i,
    {
        let field = &fields[i];
        let ghost before = list@;
        assert(names.take(i + 1).drop_last() =~= names.take(i as int));
        assert(names.take(i + 1).last() == names[i as int]);
        if str_equal(field.json_name, field.proto_name) {
            list.push(field.json_name);
            assert(name_views(list@) =~= name_views(before) + seq![names[i as int].0]);
        } else {
            list.push(field.json_name);
            list.push(field.proto_name);
            assert(name_views(list@) =~= name_views(before) + seq![names[i as int].0, names[i as int].1]);
        }
        i = i + 1;
    }
    assert(names.take(fields@.len() as int) =~= names);
    list
}

fn unknown_field_message(fields: &Vec<FieldName>, key: &str) -> (text: String)
    ensures
        text@ == unknown_field_text(key@, names_of(fields@)),
{
    let list = field_names_in_order(fields);
    let ghost views = name_views(list@);
    let start = String::from_str("unknown field `").concat(key);
    if list.len() == 0 {
        start.concat("`, there are no fields")
    } else if list.len() == 1 {
        start.concat("`, expected `").concat(list[0]).concat("`")
    } else if list.len() == 2 {
        start.concat("`, expected `").concat(list[0]).concat("` or `").concat(list[1]).concat("`")
    } else {
        let mut names = String::from_str("`").concat(list[0]).concat("`");
        let mut i: usize = 1;
        assert(views.take(1).drop_last() =~= Seq::<Seq<char>>::empty());
        assert(names@ == backticked_list(views.take(1)));
        while i < list.len()
            invariant
                views == name_views(list@),
                1 <= i <= list@.len(),
                names@ == backticked_list(views.take(i as int)),
            decreases list@.len() - i,
        {
            assert(views.take(i + 1).drop_last() =~= views.take(i as int));
            names = names.concat(", `").concat(list[i]).concat("`");
            i = i + 1;
        }
        assert(views.take(list@.len() as int) =~= views);
        start.concat("`, expected one of ").concat(names.as_str())
    }
}

/// Reads a message value into its field values, in field order; `null`
/// stands for each field the message leaves out.
pub fn read_message_fields<'a>(
    v: &'a JsonValue,
    fields: &Vec<FieldName>,
    null: &'a JsonValue,
) -> (read: Result<Vec<&'a JsonValue>, String>)
    requires
        *null == JsonValue::Null,
    ensures
        match message_fields(names_of(fields@), *v) {
            None => read is Err,
            Some(values) => read matches Ok(refs) && refs@.len() == values.len() && forall|f: int|
                0 <= f < values.len() ==> *#[trigger] refs@[f] == values[f],
        },
        *v matches JsonValue::Object(members) ==> (object_refusal_upto(
            names_of(fields@),
            members@,
            members@.len() as int,
        ) matches Some(text) ==> (read matches Err(message) && message@ == text)),
{
    let ghost names = names_of(fields@);
    let n = fields.len();
    match v {
        JsonValue::Object(members) => {
            let mut slots: Vec<Option<usize>> = Vec::new();
            let mut f: usize = 0;
            while f < n
                invariant
                    n == fields@.len(),
                    f <= n,
                    slots@.len() == f,
                    forall|g: int| 0 <= g < f ==> slots@[g] is None,
                decreases n - f,
            {
                slots.push(None);
                f = f + 1;
            }
            proof {
                assert(slots_view(slots@)
                    =~= object_slots_upto(names, members@, 0)->0);
            }
            let mut k: usize = 0;
            while k < members.len()
                invariant
                    names == names_of(fields@),
                    *v == JsonValue::Object(*members),
                    n == fields@.len(),
                    k <= members@.len(),
                    slots@.len() == n,
                    object_slots_upto(names, members@, k as int) == Some(
                        slots_view(slots@),
                    ),
                    object_refusal_upto(names, members@, k as int) is None,
                decreases members@.len() - k,
            {
                let key = members[k].0.as_str();
                match find_field(fields, key) {
                    None => {
                        proof {
                            assert(object_slots_upto(names, members@, k + 1) is None);
                            lemma_object_slots_none_persists(
                                names,
                                members@,
                                k + 1,
                                members@.len() as int,
                            );
                        }
                        let text = unknown_field_message(fields, key);
                        proof {
                            lemma_object_refusal_persists(names, members@, k + 1, members@.len() as int);
                        }
                        return Err(text);
                    },
                    Some(g) => {
                        proof {
                            lemma_field_index_upto_range(names, key@, names.len() as int);
                        }
                        if slots[g].is_some() {
                            proof {
                                assert(slots_view(slots@)[g as int] is Some);
                                assert(object_slots_upto(names, members@, k + 1) is None);
                                lemma_object_slots_none_persists(
                                    names,
                                    members@,
                                    k + 1,
                                    members@.len() as int,
                                );
                            }
                            let text = String::from_str("duplicate field `").concat(
                                fields[g].json_name,
                            ).concat("`");
                            proof {
                                lemma_object_refusal_persists(
                                    names,
                                    members@,
                                    k + 1,
                                    members@.len() as int,
                                );
                            }
                            return Err(text);
                        }
                        slots.set(g, Some(k));
                        proof {
                            assert(slots_view(slots@)
                                =~= object_slots_upto(names, members@, k + 1)->0);
                        }
                    },
                }
                k = k + 1;
            }
            let ghost final_slots = slots_view(slots@);
            proof {
                lemma_object_slots_sound(names, members@, members@.len() as int);
            }
            let mut refs: Vec<&'a JsonValue> = Vec::new();
            let mut f: usize = 0;
            while f < n
                invariant
                    names == names_of(fields@),
                    *v == JsonValue::Object(*members),
                    n == fields@.len(),
                    slots@.len() == n,
                    f <= n,
                    refs@.len() == f,
                    *null == JsonValue::Null,
                    final_slots == slots_view(slots@),
                    message_slots(names, *v) == Some(final_slots),
                    forall|g: int|
                        #![trigger final_slots[g]]
                        0 <= g < n && final_slots[g] is Some ==> 0 <= final_slots[g]->0
                            < members@.len(),
                    forall|g: int|
                        0 <= g < f ==> *#[trigger] refs@[g] == slot_value(*v, final_slots[g]),
                decreases n - f,
            {
                assert(final_slots[f as int] == slots_view(slots@)[f as int]);
                match slots[f] {
                    Some(i) => {
                        assert(final_slots[f as int] == Some(i as int));
                        refs.push(&members[i].1);
                    },
                    None => {
                        refs.push(null);
                    },
                }
                f = f + 1;
            }
            Ok(refs)
        },
        _ => Err(String::from_str("invalid type: expected a message")),
    }
}

// ---------------------------------------------------------------------------
// Scalars
// ---------------------------------------------------------------------------

/// Whether `c` is an ASCII decimal digit.
pub open spec fn is_digit(c: char) -> bool {
    '0' <= c && c <= '9'
}

/// Whether every character of `s` is a decimal digit.
pub open spec fn all_digits(s: Seq<char>) -> bool {
    forall|i: int| 0 <= i < s.len() ==> is_digit(#[trigger] s[i])
}

/// The value of a decimal digit.
pub open spec fn digit_value(c: char) -> int {
    c as int - '0' as int
}

/// The value of a string of decimal digits.
pub open spec fn digits_value(digits: Seq<char>) -> int
    decreases digits.len(),
{
    if digits.len() == 0 {
        0
    } else {
        digits_value(digits.drop_last()) * 10 + digit_value(digits.last())
    }
}

/// The `i64` that `text` writes in decimal, as Rust's `str::parse::<i64>`
/// reads it: an optional `+` or `-`, then one or more ASCII digits, and a
/// value in range.
pub open spec fn decimal_i64(text: Seq<char>) -> Option<i64> {
    let signed = text.len() > 0 && (text[0] == '+' || text[0] == '-');
    let negative = text.len() > 0 && text[0] == '-';
    let digits = if signed {
        text.drop_first()
    } else {
        text
    };
    if digits.len() == 0 || !all_digits(digits) {
        None
    } else {
        let value = if negative {
            -digits_value(digits)
        } else {
            digits_value(digits)
        };
        if i64::MIN <= value <= i64::MAX {
            Some(value as i64)
        } else {
            None
        }
    }
}

proof fn lemma_digits_value_nonneg(digits: Seq<char>)
    requires
        forall|i: int| 0 <= i < digits.len() ==> is_digit(#[trigger] digits[i]),
    ensures
        digits_value(digits) >= 0,
    decreases digits.len(),
{
    if digits.len() > 0 {
        lemma_digits_value_nonneg(digits.drop_last());
    }
}

/// Parses a decimal `i64` the way `str::parse::<i64>` does.
pub fn parse_decimal_i64(text: &str) -> (parsed: Option<i64>)
    ensures
        parsed == decimal_i64(text@),
{
    let chars = chars_of(text);
    let len = chars.len();
    let signed = len > 0 && (chars[0] == '+' || chars[0] == '-');
    let negative = len > 0 && chars[0] == '-';
    let start: usize = if signed { 1 } else { 0 };
    let ghost digits = if signed { text@.drop_first() } else { text@ };
    if start >= len {
        return None;
    }
    // The magnitude read so far, held at `cap` once it is past every value
    // that fits.
    let cap: u128 = 9223372036854775809;
    let mut magnitude: u128 = 0;
    let mut i: usize = start;
    while i < len
        invariant
            chars@ == text@,
            signed == (text@.len() > 0 && (text@[0] == '+' || text@[0] == '-')),
            negative == (text@.len() > 0 && text@[0] == '-'),
            digits == (if signed { text@.drop_first() } else { text@ }),
            cap == 9223372036854775809,
            len == chars@.len(),
            start <= i <= len,
            start == (if signed { 1int } else { 0int }),
            digits == chars@.subrange(start as int, len as int),
            forall|j: int| 0 <= j < i - start ==> is_digit(#[trigger] digits[j]),
            magnitude <= cap,
            magnitude == (if digits_value(digits.take(i - start)) < cap {
                digits_value(digits.take(i - start))
            } else {
                cap as int
            }),
        decreases len - i,
    {
        let c = chars[i];
        if !('0' <= c && c <= '9') {
            assert(digits[i - start] == c);
            assert(!is_digit(digits[i - start]));
            assert(!all_digits(digits));
            return None;
        }
        let d = (c as u32 - '0' as u32) as u128;
        let ghost prefix = digits.take(i - start);
        let ghost next = digits.take(i + 1 - start);
        proof {
            assert(next.drop_last() =~= prefix);
            assert(next.last() == c);
            lemma_digits_value_nonneg(prefix);
        }
        let grown = magnitude * 10 + d;
        magnitude = if grown < cap { grown } else { cap };
        i = i + 1;
    }
    proof {
        assert(digits.take(len - start) =~= digits);
    }
    if negative {
        if magnitude > 9223372036854775808 {
            None
        } else if magnitude == 9223372036854775808 {
            Some(i64::MIN)
        } else {
            Some(-(magnitude as i64))
        }
    } else {
        if magnitude > 9223372036854775807 {
            None
        } else {
            Some(magnitude as i64)
        }
    }
}

/// The `int64` a field value gives: `null` is 0, a string holds a decimal,
/// and a number must be an integer in range.
pub open spec fn int64_of(v: JsonValue) -> Option<i64> {
    match v {
        JsonValue::Null => Some(0),
        JsonValue::String(text) => decimal_i64(text@),
        JsonValue::Number(JsonNumber::Negative(n)) => Some(n),
        JsonValue::Number(JsonNumber::Unsigned(n)) => if n <= i64::MAX as u64 {
            Some(n as i64)
        } else {
            None
        },
        _ => None,
    }
}

/// Reads an `int64` field value.
pub fn decode_int64(v: &JsonValue) -> (decoded: Result<i64, String>)
    ensures
        match int64_of(*v) {
            Some(n) => decoded == Ok::<i64, String>(n),
            None => decoded is Err,
        },
        *v matches JsonValue::String(text) ==> (decimal_i64(text@) is None ==> (
        decoded matches Err(message) && message@ == "invalid int64 '"@ + text@ + "'"@)),
        *v matches JsonValue::Number(JsonNumber::Unsigned(n)) ==> (n > i64::MAX as u64 ==> (
        decoded matches Err(message) && message@ == "int64 out of range: "@ + decimal_digits(
            n as nat,
        ))),
{
    match v {
        JsonValue::Null => Ok(0),
        JsonValue::String(text) => match parse_decimal_i64(text.as_str()) {
            Some(n) => Ok(n),
            None => Err(String::from_str("invalid int64 '").concat(text.as_str()).concat("'")),
        },
        JsonValue::Number(JsonNumber::Negative(n)) => Ok(*n),
        JsonValue::Number(JsonNumber::Unsigned(n)) => if *n <= 9223372036854775807 {
            Ok(*n as i64)
        } else {
            Err(String::from_str("int64 out of range: ").concat(decimal_string(*n).as_str()))
        },
        _ => Err(String::from_str("invalid type: expected an int64")),
    }
}

/// Whether a standard-alphabet refusal sends the text to the URL-safe
/// alphabet: it stopped at a `-` or a `_`.
pub open spec fn retries_url_safe(failure: Base64Failure) -> bool {
    match failure {
        Base64Failure::InvalidByte(_, byte) => byte == 45u8 || byte == 95u8,
        _ => false,
    }
}

/// Decides whether a standard-alphabet refusal is retried in the URL-safe
/// alphabet.
pub fn retry_url_safe(failure: &Base64Failure) -> (retry: bool)
    ensures
        retry == retries_url_safe(*failure),
{
    match failure {
        Base64Failure::InvalidByte(_, byte) => *byte == 45u8 || *byte == 95u8,
        _ => false,
    }
}

/// The bytes a proto `bytes` text decodes to: base64 in the standard
/// alphabet, padded or not; when that fails on a `-` or a `_`, base64 in the
/// URL-safe alphabet.
pub open spec fn base64_text_bytes(text: Seq<char>) -> Option<Seq<u8>> {
    match base64_decoded(Base64Alphabet::Standard, Base64Padding::Indifferent, true, text) {
        Ok(bytes) => Some(bytes),
        Err(refusal) => if retries_url_safe(refusal.0) {
            match base64_decoded(Base64Alphabet::UrlSafe, Base64Padding::Indifferent, true, text) {
                Ok(bytes) => Some(bytes),
                Err(_) => None,
            }
        } else {
            None
        },
    }
}

/// The description of why a proto `bytes` text does not decode: that of the
/// URL-safe attempt when there was one, else that of the standard one.
pub open spec fn base64_text_refusal(text: Seq<char>) -> Seq<char> {
    match base64_decoded(Base64Alphabet::Standard, Base64Padding::Indifferent, true, text) {
        Ok(_) => Seq::empty(),
        Err(refusal) => if retries_url_safe(refusal.0) {
            match base64_decoded(Base64Alphabet::UrlSafe, Base64Padding::Indifferent, true, text) {
                Ok(_) => Seq::empty(),
                Err(url_refusal) => url_refusal.1,
            }
        } else {
            refusal.1
        },
    }
}

/// Decodes the base64 text of a proto `bytes` value.
pub fn decode_base64_text(text: &str) -> (decoded: Result<Vec<u8>, String>)
    ensures
        match base64_text_bytes(text@) {
            Some(bytes) => decoded matches Ok(b) && b@ == bytes,
            None => decoded matches Err(message) && message@ == "invalid base64: "@
                + base64_text_refusal(text@),
        },
{
    match base64_decode(Base64Alphabet::Standard, Base64Padding::Indifferent, true, text) {
        Ok(bytes) => Ok(bytes),
        Err(error) => {
            if retry_url_safe(&error.failure) {
                match base64_decode(Base64Alphabet::UrlSafe, Base64Padding::Indifferent, true, text) {
                    Ok(bytes) => Ok(bytes),
                    Err(error) => Err(String::from_str("invalid base64: ").concat(error.message.as_str())),
                }
            } else {
                Err(String::from_str("invalid base64: ").concat(error.message.as_str()))
            }
        },
    }
}

/// The bytes a `bytes` field value gives: `null` is empty, a string is base64.
pub open spec fn bytes_of(v: JsonValue) -> Option<Seq<u8>> {
    match v {
        JsonValue::Null => Some(Seq::empty()),
        JsonValue::String(text) => base64_text_bytes(text@),
        _ => None,
    }
}

/// Reads a `bytes` field value.
pub fn decode_bytes(v: &JsonValue) -> (decoded: Result<Vec<u8>, String>)
    ensures
        match bytes_of(*v) {
            Some(bytes) => decoded matches Ok(b) && b@ == bytes,
            None => decoded is Err,
        },
        *v matches JsonValue::String(text) ==> (base64_text_bytes(text@) is None ==> (
        decoded matches Err(message) && message@ == "invalid base64: "@ + base64_text_refusal(
            text@,
        ))),
{
    match v {
        JsonValue::Null => Ok(Vec::new()),
        JsonValue::String(text) => decode_base64_text(text.as_str()),
        _ => Err(String::from_str("invalid type: expected base64 bytes")),
    }
}

/// Whether a `repeated bytes` field value can be read: `null`, or an array
/// whose every item is a `bytes` value.
pub open spec fn bytes_list_ok(v: JsonValue) -> bool {
    match v {
        JsonValue::Null => true,
        JsonValue::Array(items) => forall|i: int|
            0 <= i < items@.len() ==> #[trigger] bytes_of(items@[i]) is Some,
        _ => false,
    }
}

/// Whether `list` is what a `repeated bytes` field value reads as.
pub open spec fn bytes_list_is(v: JsonValue, list: Seq<Vec<u8>>) -> bool {
    match v {
        JsonValue::Null => list.len() == 0,
        JsonValue::Array(items) => list.len() == items@.len() && forall|i: int|
            0 <= i < items@.len() ==> #[trigger] bytes_of(items@[i]) == Some(list[i]@),
        _ => false,
    }
}

/// Reads a `repeated bytes` field value.
pub fn decode_bytes_list(v: &JsonValue) -> (decoded: Result<Vec<Vec<u8>>, String>)
    ensures
        decoded is Ok <==> bytes_list_ok(*v),
        decoded matches Ok(list) ==> bytes_list_is(*v, list@),
{
    match v {
        JsonValue::Null => Ok(Vec::new()),
        JsonValue::Array(items) => {
            let mut list: Vec<Vec<u8>> = Vec::new();
            let mut i: usize = 0;
            while i < items.len()
                invariant
                    *v == JsonValue::Array(*items),
                    i <= items@.len(),
                    list@.len() == i,
                    forall|j: int|
                        0 <= j < i ==> #[trigger] bytes_of(items@[j]) == Some(list@[j]@),
                decreases items@.len() - i,
            {
                match decode_bytes(&items[i]) {
                    Ok(bytes) => list.push(bytes),
                    Err(error) => {
                        assert(bytes_of(items@[i as int]) is None);
                        return Err(error);
                    },
                }
                i = i + 1;
            }
            Ok(list)
        },
        _ => Err(String::from_str("invalid type: expected a list of base64 bytes")),
    }
}

/// The text a `string` field value gives: `null` is empty.
pub open spec fn string_of(v: JsonValue) -> Option<Seq<char>> {
    match v {
        JsonValue::Null => Some(Seq::empty()),
        JsonValue::String(text) => Some(text@),
        _ => None,
    }
}

/// Reads a `string` field value.
pub fn decode_string(v: &JsonValue) -> (decoded: Result<String, String>)
    ensures
        match string_of(*v) {
            Some(text) => decoded matches Ok(s) && s@ == text,
            None => decoded is Err,
        },
{
    match v {
        JsonValue::Null => Ok(String::new()),
        JsonValue::String(text) => Ok(text.clone()),
        _ => Err(String::from_str("invalid type: expected a string")),
    }
}

/// Whether a field that is only recognised, never read, is set: any value
/// but `null` sets it.
pub open spec fn is_set(v: JsonValue) -> bool {
    !(v is Null)
}

/// Reads whether a recognised-only field is set.
pub fn decode_presence(v: &JsonValue) -> (set: bool)
    ensures
        set == is_set(*v),
{
    !matches!(v, JsonValue::Null)
}

// ---------------------------------------------------------------------------
// Nested messages
// ---------------------------------------------------------------------------

/// Whether an optional message field value can be read: `null`, or a value
/// that `ok` accepts.
pub open spec fn optional_ok(v: JsonValue, ok: spec_fn(JsonValue) -> bool) -> bool {
    v is Null || ok(v)
}

/// Whether `out` is what an optional message field value reads as: nothing
/// for `null`, else the message that `is` relates the value to.
pub open spec fn optional_is<T>(v: JsonValue, out: Option<T>, is: spec_fn(JsonValue, T) -> bool) -> bool {
    match out {
        None => v is Null,
        Some(message) => !(v is Null) && is(v, message),
    }
}

// ---------------------------------------------------------------------------
// Laws
// ---------------------------------------------------------------------------

/// A message object with a key that names none of its fields cannot be read.
pub proof fn law_unknown_field_is_refused(
    names: Seq<(Seq<char>, Seq<char>)>,
    v: JsonValue,
    i: int,
)
    requires
        v is Object,
        0 <= i < v->Object_0@.len(),
        field_index(names, v->Object_0@[i].0@) is None,
    ensures
        message_fields(names, v) is None,
{
    let members = v->Object_0@;
    if object_slots_upto(names, members, i) is None {
        lemma_object_slots_none_persists(names, members, i, i + 1);
    }
    lemma_object_slots_none_persists(names, members, i + 1, members.len() as int);
}

/// A message object that gives one field twice, under either of its names,
/// cannot be read.
pub proof fn law_repeated_field_is_refused(
    names: Seq<(Seq<char>, Seq<char>)>,
    v: JsonValue,
    i: int,
    j: int,
)
    requires
        v is Object,
        0 <= i < j < v->Object_0@.len(),
        field_index(names, v->Object_0@[i].0@) is Some,
        field_index(names, v->Object_0@[i].0@) == field_index(names, v->Object_0@[j].0@),
    ensures
        message_fields(names, v) is None,
{
    let members = v->Object_0@;
    lemma_object_slots_sound(names, members, j);
    if object_slots_upto(names, members, j) is Some {
        assert(members[i] == members[i]);
    } else {
        lemma_object_slots_none_persists(names, members, j, j + 1);
    }
    lemma_object_slots_none_persists(names, members, j + 1, members.len() as int);
}

/// Only an object is a message: any other value cannot be read as one.
pub proof fn law_only_objects_are_messages(names: Seq<(Seq<char>, Seq<char>)>, v: JsonValue)
    requires
        !(v is Object),
    ensures
        message_fields(names, v) is None,
{
}

/// A field reads alike under either of its names: renaming one member's key
/// to another name of the same field changes nothing that is read.
pub proof fn law_either_field_name_reads_alike(
    names: Seq<(Seq<char>, Seq<char>)>,
    v1: JsonValue,
    v2: JsonValue,
    i: int,
)
    requires
        v1 is Object,
        v2 is Object,
        v1->Object_0@.len() == v2->Object_0@.len(),
        0 <= i < v1->Object_0@.len(),
        forall|j: int|
            0 <= j < v1->Object_0@.len() && j != i ==> v1->Object_0@[j] == v2->Object_0@[j],
        v1->Object_0@[i].1 == v2->Object_0@[i].1,
        field_index(names, v1->Object_0@[i].0@) == field_index(names, v2->Object_0@[i].0@),
    ensures
        message_fields(names, v1) == message_fields(names, v2),
{
    let a = v1->Object_0@;
    let b = v2->Object_0@;
    assert forall|j: int| 0 <= j < a.len() implies field_index(names, #[trigger] a[j].0@)
        == field_index(names, b[j].0@) by {
        if j != i {
            assert(a[j] == b[j]);
        }
    }
    lemma_object_slots_prefix(names, a, b, a.len() as int);
    if let Some(slots) = message_slots(names, v1) {
        lemma_object_slots_sound(names, a, a.len() as int);
        assert forall|f: int| 0 <= f < names.len() implies slot_value(v1, slots[f]) == slot_value(
            v2,
            slots[f],
        ) by {
            if slots[f] is Some {
                let m = slots[f]->0;
                if m != i {
                    assert(a[m] == b[m]);
                }
            }
        }
        assert(message_fields(names, v1)->0 =~= message_fields(names, v2)->0);
    }
}

/// In a message object that can be read, the field a member's key names
/// holds that member's value.
pub proof fn lemma_member_gives_field(names: Seq<(Seq<char>, Seq<char>)>, v: JsonValue, i: int)
    requires
        v is Object,
        0 <= i < v->Object_0@.len(),
        message_fields(names, v) is Some,
        field_index(names, v->Object_0@[i].0@) is Some,
    ensures
        message_fields(names, v)->0[field_index(names, v->Object_0@[i].0@)->0] == v->Object_0@[i].1,
        0 <= field_index(names, v->Object_0@[i].0@)->0 < names.len(),
{
    let members = v->Object_0@;
    let f = field_index(names, members[i].0@)->0;
    lemma_object_slots_sound(names, members, members.len() as int);
    lemma_field_index_upto_range(names, members[i].0@, names.len() as int);
    let slots = message_slots(names, v)->0;
    assert(members[i] == members[i]);
    let j = slots[f]->0;
    if j < i {
        law_repeated_field_is_refused(names, v, j, i);
    } else if i < j {
        law_repeated_field_is_refused(names, v, i, j);
    }
}

/// In a message object that can be read, a field that no member's key
/// names holds `null`.
pub proof fn lemma_unnamed_field_is_null(names: Seq<(Seq<char>, Seq<char>)>, v: JsonValue, f: int)
    requires
        v is Object,
        0 <= f < names.len(),
        message_fields(names, v) is Some,
        forall|i: int|
            0 <= i < v->Object_0@.len() ==> field_index(names, #[trigger] v->Object_0@[i].0@)
                != Some(f),
    ensures
        message_fields(names, v)->0[f] == JsonValue::Null,
{
    let members = v->Object_0@;
    lemma_object_slots_sound(names, members, members.len() as int);
    let slots = message_slots(names, v)->0;
    if slots[f] is Some {
        let j = slots[f]->0;
        assert(field_index(names, members[j].0@) == Some(f));
    }
}

/// The position of the first of an object's members, from the `k`-th on,
/// whose key is `a` or `b`.
pub open spec fn first_named_from(members: Seq<(String, JsonValue)>, a: Seq<char>, b: Seq<char>, k: int) -> Option<int>
    decreases members.len() - k,
{
    if k < 0 || k >= members.len() {
        None
    } else if members[k].0@ == a || members[k].0@ == b {
        Some(k)
    } else {
        first_named_from(members, a, b, k + 1)
    }
}

/// The value of an object's first member whose key is `a` or `b`; `null`
/// when it has no such member, or is not an object.
pub open spec fn member_named(v: JsonValue, a: Seq<char>, b: Seq<char>) -> JsonValue {
    match v {
        JsonValue::Object(members) => match first_named_from(members@, a, b, 0) {
            Some(i) => members@[i].1,
            None => JsonValue::Null,
        },
        _ => JsonValue::Null,
    }
}

proof fn lemma_first_named_from(members: Seq<(String, JsonValue)>, a: Seq<char>, b: Seq<char>, k: int)
    requires
        0 <= k,
    ensures
        match first_named_from(members, a, b, k) {
            Some(i) => k <= i < members.len() && (members[i].0@ == a || members[i].0@ == b),
            None => forall|i: int|
                k <= i < members.len() ==> #[trigger] members[i].0@ != a && members[i].0@ != b,
        },
    decreases members.len() - k,
{
    if k < members.len() && !(members[k].0@ == a || members[k].0@ == b) {
        lemma_first_named_from(members, a, b, k + 1);
    }
}

/// In a message object that can be read, the field whose only names are `a`
/// and `b` holds the value of the member with either key, or `null` where
/// there is none.
pub proof fn lemma_member_named_is_field(
    names: Seq<(Seq<char>, Seq<char>)>,
    v: JsonValue,
    a: Seq<char>,
    b: Seq<char>,
    f: int,
)
    requires
        message_fields(names, v) is Some,
        0 <= f < names.len(),
        forall|key: Seq<char>| #[trigger] field_index(names, key) == Some(f) <==> (key == a || key == b),
    ensures
        message_fields(names, v)->0[f] == member_named(v, a, b),
{
    let members = v->Object_0@;
    lemma_first_named_from(members, a, b, 0);
    match first_named_from(members, a, b, 0) {
        Some(i) => {
            assert(field_index(names, members[i].0@) == Some(f));
            lemma_member_gives_field(names, v, i);
        },
        None => {
            assert forall|i: int| 0 <= i < members.len() implies field_index(
                names,
                #[trigger] members[i].0@,
            ) != Some(f) by {
                assert(members[i].0@ != a && members[i].0@ != b);
            }
            lemma_unnamed_field_is_null(names, v, f);
        },
    }
}

/// A `null` member is the same as no member: adding a member with a `null`
/// value for a field the object does not give changes nothing that is read.
pub proof fn law_null_field_reads_as_absent(
    names: Seq<(Seq<char>, Seq<char>)>,
    v1: JsonValue,
    v2: JsonValue,
)
    requires
        v1 is Object,
        v2 is Object,
        v2->Object_0@.len() == v1->Object_0@.len() + 1,
        forall|j: int|
            0 <= j < v1->Object_0@.len() ==> v2->Object_0@[j] == #[trigger] v1->Object_0@[j],
        v2->Object_0@.last().1 == JsonValue::Null,
        field_index(names, v2->Object_0@.last().0@) is Some,
        forall|j: int|
            0 <= j < v1->Object_0@.len() ==> field_index(names, #[trigger] v1->Object_0@[j].0@)
                != field_index(names, v2->Object_0@.last().0@),
    ensures
        message_fields(names, v1) == message_fields(names, v2),
{
    let a = v1->Object_0@;
    let b = v2->Object_0@;
    let n = a.len() as int;
    assert forall|j: int| 0 <= j < n implies field_index(names, #[trigger] a[j].0@)
        == field_index(names, b[j].0@) by {
        assert(b[j] == a[j]);
    }
    lemma_object_slots_prefix(names, a, b, n);
    lemma_object_slots_sound(names, a, n);
    lemma_field_index_upto_range(names, b[n].0@, names.len() as int);
    if let Some(slots) = object_slots_upto(names, a, n) {
        let f = field_index(names, b[n].0@)->0;
        if slots[f] is Some {
            let m = slots[f]->0;
            assert(field_index(names, a[m].0@) == Some(f));
        }
        let slots2 = object_slots_upto(names, b, n + 1)->0;
        assert(slots2 == slots.update(f, Some(n)));
        assert forall|g: int| 0 <= g < names.len() implies slot_value(v1, slots[g]) == slot_value(
            v2,
            slots2[g],
        ) by {
            if g != f && slots[g] is Some {
                let m = slots[g]->0;
                assert(b[m] == a[m]);
            }
        }
        assert(message_fields(names, v1)->0 =~= message_fields(names, v2)->0);
    } else {
        lemma_object_slots_none_persists(names, b, n, n + 1);
    }
}

/// `null` is every scalar field's default: 0, empty bytes, the empty string,
/// the empty list, and unset.
pub proof fn law_null_is_the_scalar_default()
    ensures
        int64_of(JsonValue::Null) == Some(0i64),
        bytes_of(JsonValue::Null) == Some(Seq::<u8>::empty()),
        string_of(JsonValue::Null) == Some(Seq::<char>::empty()),
        bytes_list_is(JsonValue::Null, Seq::<Vec<u8>>::empty()),
        !is_set(JsonValue::Null),
{
}

/// The decimal digits of a natural number, most significant first.
pub open spec fn decimal_digits(m: nat) -> Seq<char>
    decreases m,
{
    let digit = seq!['0', '1', '2', '3', '4', '5', '6', '7', '8', '9'][(m % 10) as int];
    if m < 10 {
        seq![digit]
    } else {
        decimal_digits(m / 10).push(digit)
    }
}

/// The decimal text of an integer: a `-` before the digits of a negative one.
pub open spec fn decimal_text(n: int) -> Seq<char> {
    if n < 0 {
        seq!['-'] + decimal_digits((-n) as nat)
    } else {
        decimal_digits(n as nat)
    }
}

/// The JSON number that writes an `i64`, in the form JSON text gives it.
pub open spec fn int64_number(n: i64) -> JsonValue {
    if n < 0 {
        JsonValue::Number(JsonNumber::Negative(n))
    } else {
        JsonValue::Number(JsonNumber::Unsigned(n as u64))
    }
}

proof fn lemma_decimal_digits(m: nat)
    ensures
        decimal_digits(m).len() > 0,
        forall|i: int|
            0 <= i < decimal_digits(m).len() ==> is_digit(#[trigger] decimal_digits(m)[i]),
        digits_value(decimal_digits(m)) == m,
    decreases m,
{
    let table = seq!['0', '1', '2', '3', '4', '5', '6', '7', '8', '9'];
    assert(digit_value(table[0]) == 0 && digit_value(table[1]) == 1 && digit_value(table[2]) == 2
        && digit_value(table[3]) == 3 && digit_value(table[4]) == 4 && digit_value(table[5]) == 5
        && digit_value(table[6]) == 6 && digit_value(table[7]) == 7 && digit_value(table[8]) == 8
        && digit_value(table[9]) == 9);
    assert(forall|d: int| 0 <= d < 10 ==> is_digit(#[trigger] table[d]));
    let d = decimal_digits(m);
    if m >= 10 {
        lemma_decimal_digits(m / 10);
        assert(d.drop_last() =~= decimal_digits(m / 10));
        assert(m == (m / 10) * 10 + m % 10);
    } else {
        assert(d.drop_last() =~= Seq::<char>::empty());
        assert(m % 10 == m);
    }
    assert(digit_value(d.last()) == m % 10);
    assert(digits_value(d) == digits_value(d.drop_last()) * 10 + digit_value(d.last()));
}

/// The one-character text of a decimal digit.
fn digit_text(d: u64) -> (text: &'static str)
    requires
        d < 10,
    ensures
        text@ == seq![seq!['0', '1', '2', '3', '4', '5', '6', '7', '8', '9'][d as int]],
{
    proof {
        reveal_strlit("0");
        reveal_strlit("1");
        reveal_strlit("2");
        reveal_strlit("3");
        reveal_strlit("4");
        reveal_strlit("5");
        reveal_strlit("6");
        reveal_strlit("7");
        reveal_strlit("8");
        reveal_strlit("9");
    }
    let text = if d == 0 {
        "0"
    } else if d == 1 {
        "1"
    } else if d == 2 {
        "2"
    } else if d == 3 {
        "3"
    } else if d == 4 {
        "4"
    } else if d == 5 {
        "5"
    } else if d == 6 {
        "6"
    } else if d == 7 {
        "7"
    } else if d == 8 {
        "8"
    } else {
        "9"
    };
    assert(text@ =~= seq![seq!['0', '1', '2', '3', '4', '5', '6', '7', '8', '9'][d as int]]);
    text
}

/// Writes a natural number in decimal.
pub fn decimal_string(n: u64) -> (text: String)
    ensures
        text@ == decimal_digits(n as nat),
    decreases n,
{
    if n < 10 {
        let text = String::from_str(digit_text(n));
        assert(n % 10 == n);
        text
    } else {
        let text = decimal_string(n / 10).concat(digit_text(n % 10));
        assert(text@ =~= decimal_digits((n / 10) as nat).push(
            seq!['0', '1', '2', '3', '4', '5', '6', '7', '8', '9'][(n % 10) as int],
        ));
        text
    }
}

/// An `int64` reads alike as a decimal string and as a JSON number.
pub proof fn law_int64_string_and_number_agree(n: i64, text: String)
    requires
        text@ == decimal_text(n as int),
    ensures
        int64_of(JsonValue::String(text)) == Some(n),
        int64_of(int64_number(n)) == Some(n),
{
    if n < 0 {
        lemma_decimal_digits((-n) as nat);
        assert(text@.drop_first() =~= decimal_digits((-n) as nat));
    } else {
        lemma_decimal_digits(n as nat);
        let digits = decimal_digits(n as nat);
        assert(digits[0] != '+' && digits[0] != '-');
    }
}

} // verus!
