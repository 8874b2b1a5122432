//! JSON values as plain data, read from text by serde_json, and the lookup
//! of an object's members.
use vstd::prelude::*;

verus! {

/// A JSON value.  A number is kept as the text serde_json prints for it, an
/// object as its members in the order serde_json keeps them.
#[derive(Debug, PartialEq)]
pub enum Json {
    Null,
    Bool(bool),
    Num(String),
    Str(String),
    Arr(Vec<Json>),
    Obj(Vec<(String, Json)>),
}

/// What `serde_json::from_str::<serde_json::Value>` reports for `text`: no
/// error when it parses, else the error's message.
pub uninterp spec fn json_parse_error(text: Seq<char>) -> Option<Seq<char>>;

/// The value that `serde_json::from_str::<serde_json::Value>` reads from
/// `text`, as a `Json`.
pub uninterp spec fn json_value(text: Seq<char>) -> Json;

/// `serde_json::Value` as a `Json`, one variant for one; used by
/// `parse_json_value` alone.
#[verifier::external_body]
fn json_of(v: serde_json::Value) -> Json {
    match v {
        serde_json::Value::Null => Json::Null,
        serde_json::Value::Bool(b) => Json::Bool(b),
        serde_json::Value::Number(n) => Json::Num(n.to_string()),
        serde_json::Value::String(s) => Json::Str(s),
        serde_json::Value::Array(a) => Json::Arr(a.into_iter().map(json_of).collect()),
        serde_json::Value::Object(m) => Json::Obj(m.into_iter().map(|(k, x)| (k, json_of(x))).collect()),
    }
}

/// `serde_json::from_str::<serde_json::Value>`, the value as a `Json` and the
/// error as its message.  The contract ties both to the text through the
/// names `json_value` and `json_parse_error`; what the parser accepts and how
/// it orders an object's members (by key, as its `BTreeMap` does) is left to
/// serde_json.
#[verifier::external_body]
pub(crate) fn parse_json_value(text: &str) -> (r: Result<Json, String>)
    ensures
        match r {
            Ok(v) => json_parse_error(text@) is None && v == json_value(text@),
            Err(e) => json_parse_error(text@) == Some(e@),
        },
{
    match serde_json::from_str::<serde_json::Value>(text) {
        Ok(v) => Ok(json_of(v)),
        Err(e) => Err(e.to_string()),
    }
}

/// The members of an object; none for any other value.
pub open spec fn members(j: Json) -> Seq<(String, Json)> {
    match j {
        Json::Obj(m) => m@,
        _ => seq![],
    }
}

/// Where the first member named `key` stands in `m`; `m.len()` when none is.
pub open spec fn member_index(m: Seq<(String, Json)>, key: Seq<char>) -> int
    decreases m.len(),
{
    if m.len() == 0 {
        0
    } else if m[0].0@ == key {
        0
    } else {
        1 + member_index(m.drop_first(), key)
    }
}

/// The value of the first member named `key`.
pub open spec fn first_member(m: Seq<(String, Json)>, key: Seq<char>) -> Option<Json>
    decreases m.len(),
{
    if m.len() == 0 {
        None
    } else if m[0].0@ == key {
        Some(m[0].1)
    } else {
        first_member(m.drop_first(), key)
    }
}

/// The member `key` of an object, as `serde_json::Value::get` finds it; `None`
/// for any other value.
pub open spec fn member(j: Json, key: Seq<char>) -> Option<Json> {
    match j {
        Json::Obj(m) => first_member(m@, key),
        _ => None,
    }
}

/// The text of a string value.
pub open spec fn str_of(j: Json) -> Option<Seq<char>> {
    match j {
        Json::Str(s) => Some(s@),
        _ => None,
    }
}

/// The member `key` of an object when it is a string, as
/// `v.get(key).and_then(|x| x.as_str())` reads it.
pub open spec fn str_member(j: Json, key: Seq<char>) -> Option<Seq<char>> {
    match member(j, key) {
        Some(v) => str_of(v),
        None => None,
    }
}

/// The index of the first member named `key` is where that member stands,
/// and no member before it has that name.
pub proof fn lemma_member_index(m: Seq<(String, Json)>, key: Seq<char>)
    ensures
        0 <= member_index(m, key) <= m.len(),
        member_index(m, key) < m.len() ==> m[member_index(m, key)].0@ == key
            && first_member(m, key) == Some(m[member_index(m, key)].1),
        member_index(m, key) == m.len() ==> first_member(m, key) is None,
        forall|k: int| 0 <= k < member_index(m, key) ==> #[trigger] m[k].0@ != key,
    decreases m.len(),
{
    if m.len() > 0 && m[0].0@ != key {
        lemma_member_index(m.drop_first(), key);
        assert forall|k: int| 0 <= k < member_index(m, key) implies #[trigger] m[k].0@ != key by {
            if k > 0 {
                assert(m[k] == m.drop_first()[k - 1]);
            }
        }
    }
}

/// A member that no earlier member shares its name with is the one found.
pub proof fn lemma_first_member_at(m: Seq<(String, Json)>, key: Seq<char>, i: int)
    requires
        0 <= i < m.len(),
        m[i].0@ == key,
        forall|k: int| 0 <= k < i ==> #[trigger] m[k].0@ != key,
    ensures
        first_member(m, key) == Some(m[i].1),
        member_index(m, key) == i,
    decreases i,
{
    if i > 0 {
        assert(m[0].0@ != key);
        assert forall|k: int| 0 <= k < i - 1 implies #[trigger] m.drop_first()[k].0@ != key by {
            assert(m.drop_first()[k] == m[k + 1]);
        }
        lemma_first_member_at(m.drop_first(), key, i - 1);
    }
}

/// The value of the member `key` of an object, found as `member` finds it.
pub fn get_member<'a>(m: &'a Vec<(String, Json)>, key: &str) -> (r: Option<&'a Json>)
    ensures
        match r {
            Some(v) => first_member(m@, key@) == Some(*v),
            None => first_member(m@, key@) is None,
        },
{
    let k = member_position(m, key);
    proof {
        lemma_member_index(m@, key@);
    }
    if k < m.len() {
        Some(&m[k].1)
    } else {
        None
    }
}

/// Where the first member named `key` stands; `m.len()` when none is.
pub fn member_position(m: &Vec<(String, Json)>, key: &str) -> (r: usize)
    ensures
        r == member_index(m@, key@),
{
    let kc = crate::text::chars_of(key);
    let mut k: usize = 0;
    while k < m.len()
        invariant
            k <= m.len(),
            kc@ == key@,
            forall|j: int| 0 <= j < k ==> #[trigger] m@[j].0@ != key@,
        decreases m.len() - k,
    {
        if crate::text::eq_chars(&crate::text::chars_of_string(&m[k].0), &kc) {
            proof {
                lemma_first_member_at(m@, key@, k as int);
            }
            return k;
        }
        k += 1;
    }
    proof {
        lemma_member_index(m@, key@);
        if member_index(m@, key@) < m@.len() {
            let i = member_index(m@, key@);
            assert(m@[i].0@ != key@);
        }
    }
    k
}

/// The text of the string member `key` of an object, as `str_member` reads it.
pub fn get_str_member(j: &Json, key: &str) -> (r: Option<String>)
    ensures
        match r {
            Some(s) => str_member(*j, key@) == Some(s@),
            None => str_member(*j, key@) is None,
        },
{
    match j {
        Json::Obj(m) => match get_member(m, key) {
            Some(Json::Str(s)) => Some(s.clone()),
            _ => None,
        },
        _ => None,
    }
}

} // verus!
