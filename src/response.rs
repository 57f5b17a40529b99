use vstd::prelude::*;
use rustc_serialize::json::ToJson;
use crate::severity::{Severity, level_name};
use crate::request::IngestResult;

verus! {

/// How a request ended: nothing recognised, some lines refused, or all accepted.
#[derive(Clone, Copy, Debug, PartialEq, Eq, Structural)]
pub enum Outcome {
    BadRequest,
    PartialSuccess,
    FullSuccess,
}

/// The outcome that a result calls for.
pub open spec fn outcome_of(r: IngestResult) -> Outcome {
    if r.success@.len() == 0 && r.errors@.len() == 0 {
        Outcome::BadRequest
    } else if r.errors@.len() != 0 {
        Outcome::PartialSuccess
    } else {
        Outcome::FullSuccess
    }
}

/// Classifies a result.
pub fn classify(result: &IngestResult) -> (r: Outcome)
    ensures
        r == outcome_of(*result),
{
    if result.success.len() == 0 && result.errors.len() == 0 {
        Outcome::BadRequest
    } else if result.errors.len() != 0 {
        Outcome::PartialSuccess
    } else {
        Outcome::FullSuccess
    }
}

/// The decimal digit `d`.
pub open spec fn digit(d: nat) -> char {
    if d == 0 { '0' } else if d == 1 { '1' } else if d == 2 { '2' } else if d == 3 { '3' }
    else if d == 4 { '4' } else if d == 5 { '5' } else if d == 6 { '6' } else if d == 7 { '7' }
    else if d == 8 { '8' } else { '9' }
}

/// `n` written in decimal, without leading zeros.
pub open spec fn decimal(n: nat) -> Seq<char>
    decreases n,
{
    if n < 10 {
        seq![digit(n)]
    } else {
        decimal(n / 10).push(digit(n % 10))
    }
}

fn digit_text(d: usize) -> (r: &'static str)
    requires
        d < 10,
    ensures
        r@ == seq![digit(d as nat)],
{
    proof {
        reveal_strlit("0");
        reveal_strlit("1");
        reveal_strlit("2");
        reveal_strlit("3");
        reveal_strlit("4");
        reveal_strlit("5");
        reveal_strlit("6");
        reveal_strlit("7");
        reveal_strlit("8");
        reveal_strlit("9");
    }
    let r = if d == 0 { "0" } else if d == 1 { "1" } else if d == 2 { "2" } else if d == 3 { "3" }
        else if d == 4 { "4" } else if d == 5 { "5" } else if d == 6 { "6" } else if d == 7 { "7" }
        else if d == 8 { "8" } else { "9" };
    assert(r@ =~= seq![digit(d as nat)]);
    r
}

/// `n` written in decimal.
pub fn decimal_text(n: usize) -> (r: String)
    ensures
        r@ == decimal(n as nat),
    decreases n,
{
    if n < 10 {
        String::from_str(digit_text(n))
    } else {
        let mut r = decimal_text(n / 10);
        r.append(digit_text(n % 10));
        assert(r@ =~= decimal(n as nat));
        r
    }
}

/// The compact JSON text of an object whose members are the given string keys
/// and string values.
pub uninterp spec fn json_object_text(members: Seq<(Seq<char>, Seq<char>)>) -> Seq<char>;

/// The text of each pair.
pub open spec fn text_pairs(entries: Seq<(String, String)>) -> Seq<(Seq<char>, Seq<char>)> {
    entries.map_values(|p: (String, String)| (p.0@, p.1@))
}

/// Relies on rustc_serialize's `ToJson` for a `BTreeMap` of strings and the
/// `Display` of `Json`: the compact JSON text of the object.
#[verifier::external_body]
fn json_object(entries: &Vec<(String, String)>) -> (r: String)
    ensures
        r@ == json_object_text(text_pairs(entries@)),
{
    let mut members = std::collections::BTreeMap::new();
    for (key, value) in entries.iter() {
        members.insert(key.clone(), value.clone());
    }
    members.to_json().to_string()
}

/// The members of the success object: level name to decimal byte count.
pub open spec fn success_members(r: IngestResult) -> Seq<(Seq<char>, Seq<char>)> {
    r.success@.map_values(|p: (Severity, usize)| (level_name(p.0), decimal(p.1 as nat)))
}

/// The members of the error object: level name to reason.
pub open spec fn error_members(r: IngestResult) -> Seq<(Seq<char>, Seq<char>)> {
    r.errors@.map_values(|p: (Severity, String)| (level_name(p.0), p.1@))
}

/// The JSON body of a response: `{"success":{..},"errors":{..}}`.
pub open spec fn body_text(r: IngestResult) -> Seq<char> {
    "{\"success\":"@ + json_object_text(success_members(r)) + ",\"errors\":"@
        + json_object_text(error_members(r)) + "}"@
}

/// The text sent back when no level was submitted.
pub open spec fn missing_text() -> Seq<char> {
    "Missing one of ['debug', 'info', 'warning', 'error'] in POST data."@
}

/// What a request is answered with: its outcome and the body.
pub struct Reply {
    pub outcome: Outcome,
    pub body: String,
}

fn success_entries(result: &IngestResult) -> (r: Vec<(String, String)>)
    ensures
        text_pairs(r@) == success_members(*result),
{
    let mut r: Vec<(String, String)> = Vec::new();
    let mut i: usize = 0;
    while i < result.success.len()
        invariant
            0 <= i <= result.success@.len(),
            r@.len() == i,
            text_pairs(r@) == success_members(*result).take(i as int),
        decreases result.success@.len() - i,
    {
        let (level, bytes) = result.success[i];
        let ghost prev = r@;
        r.push((level.name(), decimal_text(bytes)));
        proof {
            assert forall|j: int| 0 <= j < i + 1 implies text_pairs(r@)[j] == success_members(*result)[j] by {
                if j < i {
                    assert(r@[j] == prev[j]);
                    assert(text_pairs(prev)[j] == success_members(*result).take(i as int)[j]);
                }
            }
            assert(text_pairs(r@) =~= success_members(*result).take(i + 1));
        }
        i = i + 1;
    }
    assert(success_members(*result).take(i as int) =~= success_members(*result));
    r
}

fn error_entries(result: &IngestResult) -> (r: Vec<(String, String)>)
    ensures
        text_pairs(r@) == error_members(*result),
{
    let mut r: Vec<(String, String)> = Vec::new();
    let mut i: usize = 0;
    while i < result.errors.len()
        invariant
            0 <= i <= result.errors@.len(),
            r@.len() == i,
            text_pairs(r@) == error_members(*result).take(i as int),
        decreases result.errors@.len() - i,
    {
        let level = result.errors[i].0;
        let reason = result.errors[i].1.clone();
        let ghost prev = r@;
        r.push((level.name(), reason));
        proof {
            assert forall|j: int| 0 <= j < i + 1 implies text_pairs(r@)[j] == error_members(*result)[j] by {
                if j < i {
                    assert(r@[j] == prev[j]);
                    assert(text_pairs(prev)[j] == error_members(*result).take(i as int)[j]);
                }
            }
            assert(text_pairs(r@) =~= error_members(*result).take(i + 1));
        }
        i = i + 1;
    }
    assert(error_members(*result).take(i as int) =~= error_members(*result));
    r
}

/// Builds the answer to a request: the fixed complaint when nothing was
/// recognised, else the JSON of both mappings.
pub fn create_response(result: &IngestResult) -> (r: Reply)
    ensures
        r.outcome == outcome_of(*result),
        r.outcome == Outcome::BadRequest ==> r.body@ == missing_text(),
        r.outcome != Outcome::BadRequest ==> r.body@ == body_text(*result),
{
    let outcome = classify(result);
    if outcome == Outcome::BadRequest {
        let body = String::from_str("Missing one of ['debug', 'info', 'warning', 'error'] in POST data.");
        return Reply { outcome, body };
    }
    let success = json_object(&success_entries(result));
    let errors = json_object(&error_entries(result));
    let mut body = String::from_str("{\"success\":");
    body.append(success.as_str());
    body.append(",\"errors\":");
    body.append(errors.as_str());
    body.append("}");
    Reply { outcome, body }
}

} // verus!
