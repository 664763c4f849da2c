//! A JSON document as the site processors read it: the shape of
//! `serde_json::Value`, with each number held as the bits of its `f64` reading.
use vstd::prelude::*;

verus! {

/// One `"key": value` member of a JSON object.
pub struct JsonMember {
    pub key: String,
    pub value: JsonValue,
}

/// A JSON value.
pub enum JsonValue {
    Null,
    Bool(bool),
    /// A number, held as the IEEE-754 bit pattern of its `f64` reading
    /// (`serde_json::Number::as_f64`).
    Number(u64),
    Str(String),
    Array(Vec<JsonValue>),
    /// An object's members, in order; a key that occurs twice is found at
    /// its first occurrence.
    Object(Vec<JsonMember>),
}

/// The value of the first member of `members` whose key is `key`.
pub open spec fn find_member(members: Seq<JsonMember>, key: Seq<char>) -> Option<JsonValue>
    decreases members.len(),
{
    if members.len() == 0 {
        None
    } else if members[0].key@ == key {
        Some(members[0].value)
    } else {
        find_member(members.drop_first(), key)
    }
}

/// `v[key]` in `serde_json`: the member's value, or `Null` where `v` is no
/// object or has no such member.
pub open spec fn json_at(v: JsonValue, key: Seq<char>) -> JsonValue {
    match v {
        JsonValue::Object(members) => match find_member(members@, key) {
            Some(x) => x,
            None => JsonValue::Null,
        },
        _ => JsonValue::Null,
    }
}

/// `v[i]` in `serde_json`: the array's item, or `Null` where `v` is no array
/// or too short.
pub open spec fn json_item(v: JsonValue, i: int) -> JsonValue {
    match v {
        JsonValue::Array(items) => if 0 <= i < items.len() {
            items@[i]
        } else {
            JsonValue::Null
        },
        _ => JsonValue::Null,
    }
}

/// `v.as_str()`.
pub open spec fn json_str(v: JsonValue) -> Option<Seq<char>> {
    match v {
        JsonValue::Str(s) => Some(s@),
        _ => None,
    }
}

/// `v.as_array()`.
pub open spec fn json_array(v: JsonValue) -> Option<Seq<JsonValue>> {
    match v {
        JsonValue::Array(items) => Some(items@),
        _ => None,
    }
}

/// `v.as_f64()`, as bits.
pub open spec fn json_number(v: JsonValue) -> Option<u64> {
    match v {
        JsonValue::Number(bits) => Some(bits),
        _ => None,
    }
}

/// Whether an `f64` with bit pattern `bits` equals `0.0` (it is `+0.0` or
/// `-0.0`).
pub open spec fn is_zero_f64(bits: u64) -> bool {
    bits == 0 || bits == 0x8000_0000_0000_0000
}

/// Whether an `f64` with bit pattern `bits` equals `0.0`.
pub fn f64_bits_are_zero(bits: u64) -> (b: bool)
    ensures
        b == is_zero_f64(bits),
{
    bits == 0 || bits == 0x8000_0000_0000_0000
}

/// The value that an optional reference stands for: `None` is `Null`, which
/// is what `serde_json` indexing gives for a missing member.
pub open spec fn deref_json(v: Option<&JsonValue>) -> JsonValue {
    match v {
        Some(x) => *x,
        None => JsonValue::Null,
    }
}

/// `v[key]`, where `None` stands for `Null`.
pub fn at_key<'a>(v: Option<&'a JsonValue>, key: &str) -> (r: Option<&'a JsonValue>)
    ensures
        deref_json(r) == json_at(deref_json(v), key@),
{
    match v {
        Some(JsonValue::Object(members)) => {
            let wanted = key.to_owned();
            let len = members.len();
            let mut i: usize = 0;
            assert(members@.subrange(0, len as int) =~= members@);
            while i < len
                invariant
                    i <= len == members.len(),
                    wanted@ == key@,
                    deref_json(v) == JsonValue::Object(*members),
                    find_member(members@, key@) == find_member(
                        members@.subrange(i as int, len as int),
                        key@,
                    ),
                decreases len - i,
            {
                if members[i].key == wanted {
                    assert(members@.subrange(i as int, len as int)[0] == members@[i as int]);
                    return Some(&members[i].value);
                }
                assert(members@.subrange(i as int, len as int).drop_first() =~= members@.subrange(
                    i + 1,
                    len as int,
                ));
                i = i + 1;
            }
            None
        },
        _ => None,
    }
}

/// `v[i]`, where `None` stands for `Null`.
pub fn at_item<'a>(v: Option<&'a JsonValue>, i: usize) -> (r: Option<&'a JsonValue>)
    ensures
        deref_json(r) == json_item(deref_json(v), i as int),
{
    match v {
        Some(JsonValue::Array(items)) => {
            if i < items.len() {
                Some(&items[i])
            } else {
                None
            }
        },
        _ => None,
    }
}

/// `v.as_str()`, where `None` stands for `Null`.
pub fn as_str<'a>(v: Option<&'a JsonValue>) -> (r: Option<&'a String>)
    ensures
        match r {
            Some(s) => json_str(deref_json(v)) == Some(s@),
            None => json_str(deref_json(v)) is None,
        },
{
    match v {
        Some(JsonValue::Str(s)) => Some(s),
        _ => None,
    }
}

/// `v.as_array()`, where `None` stands for `Null`.
pub fn as_array<'a>(v: Option<&'a JsonValue>) -> (r: Option<&'a Vec<JsonValue>>)
    ensures
        match r {
            Some(items) => json_array(deref_json(v)) == Some(items@),
            None => json_array(deref_json(v)) is None,
        },
{
    match v {
        Some(JsonValue::Array(items)) => Some(items),
        _ => None,
    }
}

/// `v.as_f64()` as bits, where `None` stands for `Null`.
pub fn as_number(v: Option<&JsonValue>) -> (r: Option<u64>)
    ensures
        r == json_number(deref_json(v)),
{
    match v {
        Some(JsonValue::Number(bits)) => Some(*bits),
        _ => None,
    }
}

/// `v[key]` is the value of the first member named `key`: where member `k`
/// has that key and no earlier one does, `v[key]` is member `k`'s value;
/// where no member has it, or `v` is no object, it is `Null`.
pub proof fn law_key_lookup_takes_first_match(members: Seq<JsonMember>, key: Seq<char>, k: int)
    requires
        0 <= k < members.len(),
        members[k].key@ == key,
        forall|j: int| 0 <= j < k ==> (#[trigger] members[j]).key@ != key,
    ensures
        find_member(members, key) == Some(members[k].value),
    decreases k,
{
    if k > 0 {
        let rest = members.drop_first();
        assert forall|j: int| 0 <= j < k - 1 implies (#[trigger] rest[j]).key@ != key by {
            assert(rest[j] == members[j + 1]);
        }
        assert(rest[k - 1] == members[k]);
        assert(members[0].key@ != key);
        law_key_lookup_takes_first_match(rest, key, k - 1);
    }
}

/// Without a member named `key`, `v[key]` is `Null`.
pub proof fn law_missing_key_is_null(members: Seq<JsonMember>, key: Seq<char>)
    requires
        forall|j: int| 0 <= j < members.len() ==> (#[trigger] members[j]).key@ != key,
    ensures
        find_member(members, key) is None,
    decreases members.len(),
{
    if members.len() > 0 {
        let rest = members.drop_first();
        assert forall|j: int| 0 <= j < rest.len() implies (#[trigger] rest[j]).key@ != key by {
            assert(rest[j] == members[j + 1]);
        }
        assert(members[0].key@ != key);
        law_missing_key_is_null(rest, key);
    }
}

} // verus!
