use vstd::prelude::*;
use std::sync::mpsc::Sender;
use crate::severity::{Severity, level_name, level_order, all_levels, rank};
use crate::line::{format_line, line_text};
use vstd::utf8::encode_utf8;

verus! {

#[verifier::external_type_specification]
#[verifier::external_body]
#[verifier::reject_recursive_types(T)]
pub struct ExSender<T>(Sender<T>);

/// The key under which the front end keeps the one producer handle of the
/// channel to the writer, shared by all request handlers.
#[derive(Clone, Copy, Debug)]
pub struct DataSender;

/// The value of the first field named `name`, if any.
pub open spec fn lookup(fields: Seq<(String, String)>, name: Seq<char>) -> Option<Seq<char>>
    decreases fields.len(),
{
    if fields.len() == 0 {
        None
    } else if fields[0].0@ == name {
        Some(fields[0].1@)
    } else {
        lookup(fields.drop_first(), name)
    }
}

/// Whether some entry is keyed by `s`.
pub open spec fn has_key<V>(entries: Seq<(Severity, V)>, s: Severity) -> bool {
    exists|i: int| 0 <= i < entries.len() && entries[i].0 == s
}

/// Whether no two entries share a key.
pub open spec fn keys_unique<V>(entries: Seq<(Severity, V)>) -> bool {
    forall|i: int, j: int| 0 <= i < j < entries.len() ==> entries[i].0 != entries[j].0
}

/// The outcome of one request: per level, the bytes accepted for writing, or
/// the reason the line could not be handed to the writer.
pub struct IngestResult {
    pub success: Vec<(Severity, usize)>,
    pub errors: Vec<(Severity, String)>,
}

impl IngestResult {
    /// Each level stands in at most one of the two lists, at most once.
    pub open spec fn well_formed(&self) -> bool {
        &&& keys_unique(self.success@)
        &&& keys_unique(self.errors@)
        &&& forall|s: Severity| !(has_key(self.success@, s) && has_key(self.errors@, s))
    }

    /// Whether level `s` was reported on, either way.
    pub open spec fn reports(&self, s: Severity) -> bool {
        has_key(self.success@, s) || has_key(self.errors@, s)
    }

    /// A result with nothing reported.
    pub fn new() -> (r: IngestResult)
        ensures
            r.success@.len() == 0,
            r.errors@.len() == 0,
            r.well_formed(),
    {
        IngestResult { success: Vec::new(), errors: Vec::new() }
    }

    /// Records what came of handing the line of level `severity`, `bytes` long,
    /// to the writer.
    pub fn record_send(&mut self, severity: Severity, bytes: usize, sent: Result<(), String>)
        ensures
            match sent {
                Ok(()) => {
                    &&& final(self).success@ == old(self).success@.push((severity, bytes))
                    &&& final(self).errors@ == old(self).errors@
                },
                Err(reason) => {
                    &&& final(self).success@ == old(self).success@
                    &&& final(self).errors@ == old(self).errors@.push((severity, reason))
                },
            },
    {
        match sent {
            Ok(()) => self.success.push((severity, bytes)),
            Err(reason) => self.errors.push((severity, reason)),
        }
    }
}

/// The value of the first field named `name`.
pub fn field_value(fields: &Vec<(String, String)>, name: &String) -> (r: Option<String>)
    ensures
        match r {
            Some(v) => lookup(fields@, name@) == Some(v@),
            None => lookup(fields@, name@) is None,
        },
{
    let mut i: usize = 0;
    assert(fields@.subrange(0, fields@.len() as int) =~= fields@);
    while i < fields.len()
        invariant
            0 <= i <= fields@.len(),
            lookup(fields@, name@) == lookup(fields@.subrange(i as int, fields@.len() as int), name@),
        decreases fields.len() - i,
    {
        let ghost rest = fields@.subrange(i as int, fields@.len() as int);
        assert(rest.drop_first() =~= fields@.subrange(i + 1, fields@.len() as int));
        if fields[i].0 == *name {
            return Some(fields[i].1.clone());
        }
        i = i + 1;
    }
    None
}

/// Relies on chrono's `Local::now` and the `Display` of its result: the local
/// time now, as text. Nothing is known of the value.
#[verifier::external_body]
fn now_text() -> (r: String) {
    chrono::Local::now().to_string()
}

/// Relies on std's `Sender::send`: hands `line` to the receiving end, or fails,
/// with the error's text, when the receiver is gone.
#[verifier::external_body]
fn send_line(tx: &Sender<String>, line: String) -> (r: Result<(), String>) {
    match tx.send(line) {
        Ok(()) => Ok(()),
        Err(e) => Err(e.to_string()),
    }
}

/// The number of bytes of the UTF-8 encoding of `s`.
pub open spec fn byte_len(s: Seq<char>) -> nat {
    encode_utf8(s).len()
}

/// Whether `n` is the byte length of the line of `(s, message)` under some timestamp.
pub open spec fn is_line_length(n: usize, s: Severity, message: Seq<char>) -> bool {
    exists|t: Seq<char>| n == byte_len(#[trigger] line_text(t, s, message)) as usize
}

proof fn lemma_has_key_push<V>(entries: Seq<(Severity, V)>, e: (Severity, V), s: Severity)
    ensures
        has_key(entries.push(e), s) <==> (has_key(entries, s) || e.0 == s),
{
    let p = entries.push(e);
    if has_key(p, s) {
        let k = choose|k: int| 0 <= k < p.len() && p[k].0 == s;
        if k < entries.len() {
            assert(p[k] == entries[k]);
        }
    }
    if has_key(entries, s) {
        let k = choose|k: int| 0 <= k < entries.len() && entries[k].0 == s;
        assert(p[k] == entries[k]);
    }
    if e.0 == s {
        assert(p[entries.len() as int] == e);
    }
}

/// Formats one line per level submitted as a field, in level order, hands each
/// to the writer and records the outcome. Unknown fields are ignored. A level
/// reported as a success carries the byte length of its line.
pub fn ingest(fields: &Vec<(String, String)>, tx: &Sender<String>) -> (r: IngestResult)
    ensures
        r.well_formed(),
        forall|s: Severity| r.reports(s) <==> lookup(fields@, level_name(s)) is Some,
        forall|i: int| 0 <= i < r.success@.len() ==> is_line_length(r.success@[i].1, r.success@[i].0, lookup(fields@, level_name(r.success@[i].0))->0),
{
    let levels = all_levels();
    let mut result = IngestResult::new();
    let mut i: usize = 0;
    while i < levels.len()
        invariant
            levels@ == level_order(),
            0 <= i <= levels@.len(),
            result.well_formed(),
            forall|s: Severity| result.reports(s) ==> rank(s) < i,
            forall|s: Severity| rank(s) < i ==> (result.reports(s) <==> lookup(fields@, level_name(s)) is Some),
            forall|k: int| 0 <= k < result.success@.len() ==> is_line_length(result.success@[k].1, result.success@[k].0, lookup(fields@, level_name(result.success@[k].0))->0),
        decreases levels.len() - i,
    {
        let level = levels[i];
        assert(rank(level) == i);
        let name = level.name();
        match field_value(fields, &name) {
            Some(value) => {
                let stamp = now_text();
                let line = format_line(level, value.as_str(), stamp.as_str());
                let bytes = line.as_str().len();
                let sent = send_line(tx, line);
                let ghost before = result;
                result.record_send(level, bytes, sent);
                proof {
                    assert forall|s: Severity| result.reports(s) <==> (before.reports(s) || s == level) by {
                        lemma_has_key_push(before.success@, (level, bytes), s);
                        if let Err(reason) = sent {
                            lemma_has_key_push(before.errors@, (level, reason), s);
                        }
                    }
                    assert(!before.reports(level));
                    assert forall|k: int| 0 <= k < result.success@.len() implies is_line_length(result.success@[k].1, result.success@[k].0, lookup(fields@, level_name(result.success@[k].0))->0) by {
                        if k == before.success@.len() {
                            assert(result.success@[k].1 == byte_len(line_text(stamp@, level, value@)) as usize);
                        } else {
                            assert(result.success@[k] == before.success@[k]);
                        }
                    }
                }
            },
            None => {},
        }
        i = i + 1;
    }
    proof {
        assert forall|s: Severity| rank(s) < 4 by {}
    }
    result
}

} // verus!
