//! A tree of JSON values and verified navigation over it.
//!
//! The scraped page embeds one large JSON object; its parsed form is held in
//! [`JsonValue`], a tree of plain values. Parsing the text is entrusted to
//! serde_json; everything that walks the tree afterwards is verified.

use vstd::prelude::*;

verus! {

/// A parsed JSON value as a tree of plain values.
///
/// Object members keep the order in which serde_json yields them and have
/// unique keys. A number is kept as its `i64` or `u64` value; a number that
/// fits neither (including any float) is kept only as the marker `OtherNum`,
/// since no rule of this library reads such a value.
#[derive(Debug, PartialEq, Eq)]
pub enum JsonValue {
    Null,
    Bool(bool),
    Int(i64),
    UInt(u64),
    OtherNum,
    Str(String),
    Arr(Vec<JsonValue>),
    Obj(Vec<(String, JsonValue)>),
}

#[verifier::external_type_specification]
#[verifier::external_body]
pub struct ExSerdeValue(serde_json::Value);

/// The JSON tree that serde_json reads from the text, or nothing when the
/// text is not valid JSON. The result depends on the text alone.
pub uninterp spec fn json_of(s: Seq<char>) -> Option<JsonValue>;

/// Relies on serde_json::Value: each variant is carried over one-for-one.
/// A number keeps its `i64`/`u64` value; any other number becomes the
/// `OtherNum` marker.
#[verifier::external_body]
fn tree_of_value(v: &serde_json::Value) -> JsonValue {
    match v {
        serde_json::Value::Null => JsonValue::Null,
        serde_json::Value::Bool(b) => JsonValue::Bool(*b),
        serde_json::Value::Number(n) => match (n.as_i64(), n.as_u64()) {
            (Some(i), _) => JsonValue::Int(i),
            (None, Some(u)) => JsonValue::UInt(u),
            (None, None) => JsonValue::OtherNum,
        },
        serde_json::Value::String(s) => JsonValue::Str(s.clone()),
        serde_json::Value::Array(items) => JsonValue::Arr(items.iter().map(tree_of_value).collect()),
        serde_json::Value::Object(map) => JsonValue::Obj(
            map.iter().map(|(k, val)| (k.clone(), tree_of_value(val))).collect(),
        ),
    }
}

/// Relies on serde_json::from_str for the parse itself; the parsed tree is
/// converted member by member into [`JsonValue`]. The outcome is named
/// [`json_of`]: it is a function of the text alone.
#[verifier::external_body]
pub(crate) fn parse_json(s: &str) -> (r: Option<JsonValue>)
    ensures
        r == json_of(s@),
{
    match serde_json::from_str::<serde_json::Value>(s) {
        Ok(v) => Some(tree_of_value(&v)),
        Err(_) => None,
    }
}

/// The value under `key` among object members, first match.
pub open spec fn spec_member_get(members: Seq<(String, JsonValue)>, key: Seq<char>) -> Option<
    JsonValue,
>
    decreases members.len(),
{
    if members.len() == 0 {
        None
    } else if members[0].0@ == key {
        Some(members[0].1)
    } else {
        spec_member_get(members.drop_first(), key)
    }
}

/// The value under `key` when `v` is an object holding that key.
pub open spec fn spec_obj_get(v: JsonValue, key: Seq<char>) -> Option<JsonValue> {
    match v {
        JsonValue::Obj(members) => spec_member_get(members@, key),
        _ => None,
    }
}

/// The element at `i` when `v` is an array long enough.
pub open spec fn spec_arr_get(v: JsonValue, i: int) -> Option<JsonValue> {
    match v {
        JsonValue::Arr(items) => if 0 <= i < items@.len() {
            Some(items@[i])
        } else {
            None
        },
        _ => None,
    }
}

/// The text when `v` is a string value.
pub open spec fn spec_as_str(v: JsonValue) -> Option<String> {
    match v {
        JsonValue::Str(s) => Some(s),
        _ => None,
    }
}

/// The elements when `v` is an array.
pub open spec fn spec_as_arr(v: JsonValue) -> Option<Seq<JsonValue>> {
    match v {
        JsonValue::Arr(items) => Some(items@),
        _ => None,
    }
}

/// An optional reference as an optional value, for stating contracts.
pub open spec fn opt_val(o: Option<&JsonValue>) -> Option<JsonValue> {
    match o {
        Some(v) => Some(*v),
        None => None,
    }
}

/// `spec_obj_get` lifted over an optional value.
pub open spec fn sget(o: Option<JsonValue>, key: Seq<char>) -> Option<JsonValue> {
    match o {
        Some(v) => spec_obj_get(v, key),
        None => None,
    }
}

/// `spec_arr_get` lifted over an optional value.
pub open spec fn sidx(o: Option<JsonValue>, i: int) -> Option<JsonValue> {
    match o {
        Some(v) => spec_arr_get(v, i),
        None => None,
    }
}

/// `spec_as_str` lifted over an optional value.
pub open spec fn sstr(o: Option<JsonValue>) -> Option<String> {
    match o {
        Some(v) => spec_as_str(v),
        None => None,
    }
}

/// `spec_as_arr` lifted over an optional value.
pub open spec fn sarr(o: Option<JsonValue>) -> Option<Seq<JsonValue>> {
    match o {
        Some(v) => spec_as_arr(v),
        None => None,
    }
}

impl JsonValue {
    /// Look a key up among the members of an object value.
    #[verifier::loop_isolation(false)]
    pub fn obj_get<'a>(&'a self, key: &str) -> (r: Option<&'a JsonValue>)
        ensures
            opt_val(r) == spec_obj_get(*self, key@),
    {
        match self {
            JsonValue::Obj(members) => {
                let key_string = String::from_str(key);
                let n = members.len();
                let mut i: usize = 0;
                proof {
                    assert(members@.skip(0) =~= members@);
                }
                while i < n
                    invariant
                        n == members@.len(),
                        key_string@ == key@,
                        0 <= i <= n,
                        spec_member_get(members@, key@) == spec_member_get(
                            members@.skip(i as int),
                            key@,
                        ),
                    decreases n - i,
                {
                    proof {
                        assert(members@.skip(i as int).drop_first() =~= members@.skip(i + 1));
                        assert(members@.skip(i as int)[0] == members@[i as int]);
                    }
                    if members[i].0 == key_string {
                        proof {
                            assert(spec_member_get(members@.skip(i as int), key@) == Some(
                                members@[i as int].1,
                            ));
                        }
                        return Some(&members[i].1);
                    }
                    i += 1;
                }
                proof {
                    assert(members@.skip(n as int) =~= Seq::<(String, JsonValue)>::empty());
                }
                None
            },
            _ => None,
        }
    }

    /// Index into an array value.
    pub fn arr_get<'a>(&'a self, i: usize) -> (r: Option<&'a JsonValue>)
        ensures
            opt_val(r) == spec_arr_get(*self, i as int),
    {
        match self {
            JsonValue::Arr(items) => if i < items.len() {
                Some(&items[i])
            } else {
                None
            },
            _ => None,
        }
    }

    /// The text of a string value.
    pub fn as_str<'a>(&'a self) -> (r: Option<&'a String>)
        ensures
            match r {
                Some(s) => spec_as_str(*self) == Some(*s),
                None => spec_as_str(*self) is None,
            },
    {
        match self {
            JsonValue::Str(s) => Some(s),
            _ => None,
        }
    }

    /// The elements of an array value.
    pub fn as_arr<'a>(&'a self) -> (r: Option<&'a Vec<JsonValue>>)
        ensures
            match r {
                Some(items) => spec_as_arr(*self) == Some(items@),
                None => spec_as_arr(*self) is None,
            },
    {
        match self {
            JsonValue::Arr(items) => Some(items),
            _ => None,
        }
    }
}

/// Look a key up through an optional reference, chaining lookups.
pub fn oget<'a>(o: Option<&'a JsonValue>, key: &str) -> (r: Option<&'a JsonValue>)
    ensures
        opt_val(r) == sget(opt_val(o), key@),
{
    match o {
        Some(v) => v.obj_get(key),
        None => None,
    }
}

/// Index through an optional reference, chaining lookups.
pub fn oidx<'a>(o: Option<&'a JsonValue>, i: usize) -> (r: Option<&'a JsonValue>)
    ensures
        opt_val(r) == sidx(opt_val(o), i as int),
{
    match o {
        Some(v) => v.arr_get(i),
        None => None,
    }
}

/// The text behind an optional reference.
pub fn ostr<'a>(o: Option<&'a JsonValue>) -> (r: Option<&'a String>)
    ensures
        match r {
            Some(s) => sstr(opt_val(o)) == Some(*s),
            None => sstr(opt_val(o)) is None,
        },
{
    match o {
        Some(v) => v.as_str(),
        None => None,
    }
}

/// The elements behind an optional reference.
pub fn oarr<'a>(o: Option<&'a JsonValue>) -> (r: Option<&'a Vec<JsonValue>>)
    ensures
        match r {
            Some(items) => sarr(opt_val(o)) == Some(items@),
            None => sarr(opt_val(o)) is None,
        },
{
    match o {
        Some(v) => v.as_arr(),
        None => None,
    }
}

} // verus!
