use crate::history::{newest_first, History};
use vstd::prelude::*;
use vstd::string::StringExecFns;

verus! {

/// The unsigned integer that serde_json finds under `key` in the JSON object
/// that `line` holds, if the line is JSON and that field is such an integer.
pub uninterp spec fn json_u64_field_of(line: Seq<char>, key: Seq<char>) -> Option<u64>;

/// The text that serde_json writes for a list of strings: a JSON array.
pub uninterp spec fn json_array(items: Seq<Seq<char>>) -> Seq<char>;

/// Relies on `serde_json::from_str`, `Value::get` and `Value::as_u64`, which
/// parse the line as JSON and read the unsigned integer under `key`.
#[verifier::external_body]
fn json_u64_field(line: &str, key: &str) -> (r: Option<u64>)
    ensures
        r == json_u64_field_of(line@, key@),
{
    match serde_json::from_str::<serde_json::Value>(line) {
        Ok(v) => v.get(key).and_then(serde_json::Value::as_u64),
        Err(_) => None,
    }
}

/// Relies on `serde_json::to_string`, which writes a list of strings as a
/// JSON array; it fails only for a failing `Serialize` impl or a map with
/// non-string keys, neither of which a list of strings has.
#[verifier::external_body]
fn write_json(items: &Vec<String>) -> (r: Option<String>)
    ensures
        r is Some,
        r matches Some(s) ==> s@ == json_array(items@.map_values(|x: String| x@)),
{
    serde_json::to_string(items).ok()
}

/// The field of a request that carries the number of entries asked for.
pub open spec fn count_key() -> Seq<char> {
    seq!['c', 'o', 'u', 'n', 't']
}

/// The count a request line asks for.
pub open spec fn requested_count(line: Seq<char>) -> Option<u64> {
    json_u64_field_of(line, count_key())
}

/// Reads one request line: `Some(count)` for a well-formed request, `None`
/// for a line that is to be skipped.
pub fn parse_request(line: &str) -> (r: Option<u64>)
    ensures
        r == requested_count(line@),
{
    proof {
        reveal_strlit("count");
        assert("count"@ =~= count_key());
    }
    json_u64_field(line, "count")
}

/// The entries that answer a request for `count` of them: the most recent
/// first, all of them when fewer are held.
pub fn respond(history: &History, count: u64) -> (r: Vec<String>)
    ensures
        r@.map_values(|x: String| x@) == newest_first(history@, count as nat),
{
    let n: usize = if count < history.len() as u64 {
        count as usize
    } else {
        history.len()
    };
    let r = history.snapshot(n);
    assert(newest_first(history@, n as nat) =~= newest_first(history@, count as nat));
    r
}

/// The response line for a list of entries: a JSON array of strings and a
/// newline.
pub fn encode_response(items: &Vec<String>) -> (r: String)
    ensures
        r@ == json_array(items@.map_values(|x: String| x@)) + seq!['\n'],
{
    match write_json(items) {
        Some(mut s) => {
            s.append("\n");
            proof {
                reveal_strlit("\n");
            }
            s
        },
        None => String::new(),
    }
}

/// Serves one request line against the history: `None` for a line that is
/// not a well-formed request (the connection goes on with the next line),
/// else the JSON array of the requested entries, most recent first, and a
/// newline.
pub fn serve_line(history: &History, line: &str) -> (r: Option<String>)
    ensures
        requested_count(line@) is None ==> r is None,
        requested_count(line@) matches Some(c) ==> r matches Some(s) && s@ == json_array(
            newest_first(history@, c as nat),
        ) + seq!['\n'],
{
    match parse_request(line) {
        None => None,
        Some(count) => {
            let items = respond(history, count);
            Some(encode_response(&items))
        },
    }
}

} // verus!
