//! Hot reloading of Rust code in development builds.
//!
//! The development server streams JSON messages over a WebSocket; a
//! `HotReload` message may carry a jump table that patches the running
//! process. A process applies only a table addressed to its own process id
//! (one server may drive several processes, and applying another process's
//! machine code would corrupt this one); a message for another process, a
//! message without a process id, one without a jump table (only templates
//! changed) and every other kind of message are ignored.
//!
//! The message text is parsed with `serde_json` into [`Json`], and the
//! decision which table to apply is made here. Opening the socket and
//! applying the patch are done by the platform code (with the feature
//! enabled). Without the feature the reload boundary is a plain call and
//! connecting does nothing.

use vstd::prelude::*;

use serde_json::Value;

verus! {

/// A JSON number, as far as the decision needs it.
#[derive(Debug)]
pub enum JsonNumber {
    /// A non-negative integer.
    PosInt(u64),
    /// A negative integer.
    NegInt(i64),
    /// Any other number.
    Float,
}

/// A JSON value.
#[derive(Debug)]
pub enum Json {
    Null,
    Bool(bool),
    Number(JsonNumber),
    Str(String),
    Array(Vec<Json>),
    /// The members in order, each key once.
    Object(Vec<(String, Json)>),
}

/// The member `key` of an object (the first with that key); `None` for a
/// missing key or a value that is not an object.
pub open spec fn field(v: Json, key: Seq<char>) -> Option<Json> {
    match v {
        Json::Object(members) => first_member(members@, key, 0),
        _ => None,
    }
}

pub open spec fn first_member(members: Seq<(String, Json)>, key: Seq<char>, from: int) -> Option<Json>
    decreases members.len() - from,
{
    if from < 0 || from >= members.len() {
        None
    } else if members[from].0@ == key {
        Some(members[from].1)
    } else {
        first_member(members, key, from + 1)
    }
}

/// The value as a `u64`: only non-negative integers have one.
pub open spec fn as_u64(v: Json) -> Option<u64> {
    match v {
        Json::Number(JsonNumber::PosInt(n)) => Some(n),
        _ => None,
    }
}

/// The jump table a message carries for process `pid`, if any.
pub open spec fn patch_spec(msg: Json, pid: u32) -> Option<Json> {
    match field(msg, "HotReload"@) {
        None => None,
        Some(hot) => {
            let for_pid = match field(hot, "for_pid"@) {
                Some(p) => as_u64(p),
                None => None,
            };
            if for_pid != Some(pid as u64) {
                None
            } else {
                match field(hot, "jump_table"@) {
                    Some(t) => if t is Null {
                        None
                    } else {
                        Some(t)
                    },
                    None => None,
                }
            }
        },
    }
}

fn get<'a>(v: &'a Json, key: &String) -> (r: Option<&'a Json>)
    ensures
        match r {
            Some(x) => field(*v, key@) == Some(*x),
            None => field(*v, key@) is None,
        },
{
    match v {
        Json::Object(members) => {
            let mut i: usize = 0;
            while i < members.len()
                invariant
                    i <= members@.len(),
                    field(*v, key@) == first_member(members@, key@, 0),
                    first_member(members@, key@, 0) == first_member(members@, key@, i as int),
                decreases members@.len() - i,
            {
                if members[i].0 == *key {
                    return Some(&members[i].1);
                }
                i += 1;
            }
            None
        },
        _ => None,
    }
}

#[verifier::external_type_specification]
#[verifier::external_body]
pub struct ExJsonValue(serde_json::Value);

/// The JSON value that `serde_json::from_str` reads from `text` (`None`
/// when the text is not JSON), as a [`Json`]. The parse depends on the
/// text alone.
pub uninterp spec fn json_of_text(text: Seq<char>) -> Option<Json>;

/// Parses `text` with `serde_json::from_str` into a `serde_json::Value`
/// and converts it into [`Json`]; the result is exactly [`json_of_text`]
/// of the text.
#[verifier::external_body]
pub fn parse_json(text: &str) -> (r: Option<Json>)
    ensures
        r == json_of_text(text@),
{
    serde_json::from_str::<serde_json::Value>(text).ok().map(|v| json_from_value(&v))
}

/// Converts a `serde_json::Value` into [`Json`], variant by variant
/// (numbers by `Number::as_u64` / `as_i64`); the conversion half of
/// [`parse_json`].
#[verifier::external_body]
fn json_from_value(v: &Value) -> Json {
    match v {
        Value::Null => Json::Null,
        Value::Bool(b) => Json::Bool(*b),
        Value::Number(n) => match (n.as_u64(), n.as_i64()) {
            (Some(u), _) => Json::Number(JsonNumber::PosInt(u)),
            (None, Some(i)) => Json::Number(JsonNumber::NegInt(i)),
            _ => Json::Number(JsonNumber::Float),
        },
        Value::String(t) => Json::Str(t.clone()),
        Value::Array(a) => Json::Array(a.iter().map(json_from_value).collect()),
        Value::Object(m) => Json::Object(m.iter().map(|(k, x)| (k.clone(), json_from_value(x))).collect()),
    }
}

/// The member `key` of `v`, taken out of it.
fn take_field(v: Json, key: &String) -> (r: Option<Json>)
    ensures
        r == field(v, key@),
{
    match v {
        Json::Object(members) => {
            let ghost all = members@;
            assert(field(v, key@) == first_member(all, key@, 0));
            let mut members = members;
            let mut i: usize = 0;
            while i < members.len()
                invariant
                    members@ == all,
                    field(v, key@) == first_member(all, key@, 0),
                    i <= all.len(),
                    first_member(all, key@, 0) == first_member(all, key@, i as int),
                decreases all.len() - i,
            {
                if members[i].0 == *key {
                    let (_, x) = members.remove(i);
                    return Some(x);
                }
                i += 1;
            }
            None
        },
        _ => None,
    }
}

/// The jump table that process `our_pid` must apply from the message
/// `text`, if any: none when the text is not JSON, otherwise as
/// [`patch_for`] decides.
pub fn patch_for_text(text: &str, our_pid: u32) -> (t: Option<Json>)
    ensures
        t == match json_of_text(text@) {
            Some(m) => patch_spec(m, our_pid),
            None => None,
        },
{
    let msg = match parse_json(text) {
        Some(m) => m,
        None => {
            return None;
        },
    };
    let hot = match take_field(msg, &"HotReload".to_owned()) {
        Some(h) => h,
        None => {
            return None;
        },
    };
    let ours = match get(&hot, &"for_pid".to_owned()) {
        Some(Json::Number(JsonNumber::PosInt(n))) => *n == our_pid as u64,
        _ => false,
    };
    if !ours {
        return None;
    }
    match take_field(hot, &"jump_table".to_owned()) {
        Some(Json::Null) => None,
        Some(t) => Some(t),
        None => None,
    }
}

/// The jump table in `msg` that process `our_pid` must apply, if any.
pub fn patch_for(msg: &Json, our_pid: u32) -> (table: Option<&Json>)
    ensures
        match table {
            Some(t) => patch_spec(*msg, our_pid) == Some(*t),
            None => patch_spec(*msg, our_pid) is None,
        },
{
    let hot_key = "HotReload".to_owned();
    let pid_key = "for_pid".to_owned();
    let table_key = "jump_table".to_owned();
    let hot = match get(msg, &hot_key) {
        Some(h) => h,
        None => {
            return None;
        },
    };
    let for_pid: Option<u64> = match get(hot, &pid_key) {
        Some(Json::Number(JsonNumber::PosInt(n))) => Some(*n),
        _ => None,
    };
    let ours = match for_pid {
        Some(p) => p == our_pid as u64,
        None => false,
    };
    if !ours {
        return None;
    }
    match get(hot, &table_key) {
        Some(t) => match t {
            Json::Null => None,
            _ => Some(t),
        },
        None => None,
    }
}

/// The reload boundary. Without hot reloading it just calls `f`.
pub fn call<O, F: FnMut() -> O>(f: F) -> (o: O)
    requires
        call_requires(f, ()),
    ensures
        call_ensures(f, (), o),
{
    let mut f = f;
    f()
}

/// Connects to the development server. Without hot reloading there is no
/// server to connect to and nothing happens.
pub fn init<F: Fn() + Send + Sync + 'static>(on_patch: F) {
    let _ = on_patch;
}

} // verus!
