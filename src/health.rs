//! Reading the assistant's answer to a health probe.
//!
//! The probe sends a fixed HTTP request over a loopback socket; the caller
//! does the socket work and hands the raw response text to
//! [`health_from_response`].
use vstd::prelude::*;
use crate::models::HealthStatus;
use crate::text::{chars_of, push_str, string_of_range};

verus! {

#[verifier::external_type_specification]
#[verifier::external_body]
pub struct ExJsonValue(serde_json::Value);

#[verifier::external_type_specification]
#[verifier::external_body]
pub struct ExJsonError(serde_json::Error);

/// Whether `serde_json` reads `text` as one JSON value: the text alone
/// decides it.
pub uninterp spec fn json_accepts(text: Seq<char>) -> bool;

/// Relies on `serde_json::from_str` at type `Value`: whether it succeeds
/// depends on the text alone.
#[verifier::external_body]
fn parse_json(text: &str) -> (r: Result<serde_json::Value, serde_json::Error>)
    ensures
        r is Ok <==> json_accepts(text@),
{
    serde_json::from_str(text)
}

/// Relies on `serde_json::Value::get`: the member named `key` of an object.
#[verifier::external_body]
fn json_member<'a>(v: &'a serde_json::Value, key: &str) -> Option<&'a serde_json::Value> {
    v.get(key)
}

/// Relies on `serde_json::Value::as_str`: the text of a JSON string.
#[verifier::external_body]
fn json_text(v: &serde_json::Value) -> Option<String> {
    v.as_str().map(String::from)
}

/// Relies on the `Display` impl of `serde_json::Error`: a description of
/// why parsing failed.
#[verifier::external_body]
fn json_error_text(e: &serde_json::Error) -> String {
    e.to_string()
}

/// Whether the blank line `"\r\n\r\n"` that ends an HTTP header starts at `i`.
pub open spec fn is_separator_at(r: Seq<char>, i: int) -> bool {
    &&& 0 <= i
    &&& i + 4 <= r.len()
    &&& r[i] == '\r'
    &&& r[i + 1] == '\n'
    &&& r[i + 2] == '\r'
    &&& r[i + 3] == '\n'
}

/// The first index at or after `i` where a separator starts; `r.len()` when
/// there is none.
pub open spec fn separator_from(r: Seq<char>, i: int) -> int
    decreases r.len() - i,
{
    if i < 0 || i + 4 > r.len() {
        r.len() as int
    } else if is_separator_at(r, i) {
        i
    } else {
        separator_from(r, i + 1)
    }
}

/// The second of the pieces that the separators cut `r` into: the text
/// after the first separator, up to the next one. `None` when `r` has no
/// separator.
pub open spec fn http_body_of(r: Seq<char>) -> Option<Seq<char>> {
    let p = separator_from(r, 0);
    if p >= r.len() {
        None
    } else {
        Some(r.subrange(p + 4, separator_from(r, p + 4)))
    }
}

proof fn lemma_separator_found(r: Seq<char>, i: int)
    requires
        0 <= i,
    ensures
        separator_from(r, i) == r.len() || (i <= separator_from(r, i) && is_separator_at(r, separator_from(r, i))),
    decreases r.len() - i,
{
    if i + 4 <= r.len() && !is_separator_at(r, i) {
        lemma_separator_found(r, i + 1);
    }
}

fn find_separator(v: &Vec<char>, from: usize) -> (p: usize)
    requires
        from <= v@.len(),
    ensures
        p == separator_from(v@, from as int),
        p == v@.len() || p + 4 <= v@.len(),
        from <= p <= v@.len(),
{
    proof {
        lemma_separator_found(v@, from as int);
    }
    let len = v.len();
    if len < 4 {
        return len;
    }
    let mut i: usize = from;
    while i <= len - 4
        invariant
            from <= i,
            i <= len == v@.len(),
            len >= 4,
            separator_from(v@, from as int) == separator_from(v@, i as int),
        decreases len - i,
    {
        if v[i] == '\r' && v[i + 1] == '\n' && v[i + 2] == '\r' && v[i + 3] == '\n' {
            return i;
        }
        i = i + 1;
    }
    len
}

/// The body of an HTTP response, as [`http_body_of`] describes it.
pub fn http_body(response: &str) -> (r: Option<String>)
    ensures
        r is Some <==> http_body_of(response@) is Some,
        r matches Some(b) ==> b@ == http_body_of(response@)->Some_0,
{
    let v = chars_of(response);
    let p = find_separator(&v, 0);
    if p >= v.len() {
        None
    } else {
        let q = find_separator(&v, p + 4);
        Some(string_of_range(&v, p + 4, q))
    }
}

/// The text a field takes when the response gives it, else `default`.
pub open spec fn field_or(field: Option<String>, default: Seq<char>) -> Seq<char> {
    match field {
        Some(s) => s@,
        None => default,
    }
}

/// The status built from the string members of the health document:
/// a missing status reads `"unknown"`, a missing message or timestamp
/// reads as empty.
pub fn health_from_fields(status: Option<String>, message: Option<String>, timestamp: Option<String>) -> (h:
    HealthStatus)
    ensures
        h.status@ == field_or(status, "unknown"@),
        h.message@ == field_or(message, Seq::empty()),
        h.timestamp@ == field_or(timestamp, Seq::empty()),
{
    let status = match status {
        Some(s) => s,
        None => "unknown".to_owned(),
    };
    let message = match message {
        Some(s) => s,
        None => String::new(),
    };
    let timestamp = match timestamp {
        Some(s) => s,
        None => String::new(),
    };
    HealthStatus { status, message, timestamp }
}

fn string_member(v: &serde_json::Value, key: &str) -> Option<String> {
    match json_member(v, key) {
        Some(m) => json_text(m),
        None => None,
    }
}

/// Reads the status out of a raw HTTP response: the body must be a JSON
/// document, whose string members `status`, `message` and `timestamp`
/// give the fields.
pub fn health_from_response(response: &str) -> (r: Result<HealthStatus, String>)
    ensures
        http_body_of(response@) is None ==> (r matches Err(m) && m@ == "Invalid HTTP response format"@),
        http_body_of(response@) matches Some(b) ==> (r is Ok <==> json_accepts(b)),
        http_body_of(response@) is Some && r is Err ==> (r matches Err(m)
            && "Failed to parse JSON response: "@.is_prefix_of(m@)),
{
    let body = match http_body(response) {
        Some(b) => b,
        None => return Err("Invalid HTTP response format".to_owned()),
    };
    match parse_json(body.as_str()) {
        Ok(value) => {
            let status = string_member(&value, "status");
            let message = string_member(&value, "message");
            let timestamp = string_member(&value, "timestamp");
            Ok(health_from_fields(status, message, timestamp))
        },
        Err(e) => {
            let mut m = "Failed to parse JSON response: ".to_owned();
            let cause = json_error_text(&e);
            push_str(&mut m, cause.as_str());
            Err(m)
        },
    }
}

impl HealthStatus {
    /// The status reported when the assistant does not answer the probe.
    pub fn offline(timestamp: String) -> (h: HealthStatus)
        ensures
            h.status@ == "offline"@,
            h.message@ == "OS Assistant not started"@,
            h.timestamp@ == timestamp@,
    {
        HealthStatus {
            status: "offline".to_owned(),
            message: "OS Assistant not started".to_owned(),
            timestamp,
        }
    }
}

} // verus!
