//! The record builder: one structured record for every input line.

use vstd::prelude::*;
use crate::classify::{classify, spec_classify, MatchResult};
use crate::grammar::{spec_primary, spec_repeat};
use crate::scan::find_from;
use crate::materialize::{
    materialize, spec_materialize, spec_split_body, spec_repetitions, nonempty_fields,
    PartialRecord, PartialV, FieldError, FieldErrorV, error_text, opt_view, fields_opt_view,
    fe_opt_view, FieldsOut, fields_from, keys_of, seg_keys, lemma_fields_from_keys,
};

verus! {

/// The structured record emitted for one line.  `known_format` tells
/// whether a grammar matched and materialization succeeded; on failure the
/// message carries the untouched original line and `parse_error` a short
/// diagnostic, while every field materialized before the failure is kept.
#[derive(Debug, PartialEq, Eq)]
pub struct StructuredRecord {
    pub known_format: bool,
    pub ts: Option<String>,
    pub log_level: Option<String>,
    pub msg_id: Option<String>,
    pub file_info: Option<String>,
    pub domain: Option<String>,
    pub message: Option<String>,
    pub fields: Option<Vec<(String, String)>>,
    pub repetitions: Option<u32>,
    pub ts_beg: Option<String>,
    pub ts_end: Option<String>,
    pub parse_error: Option<String>,
}

/// Spec-level counterpart of [`StructuredRecord`].
pub struct RecordV {
    pub known_format: bool,
    pub ts: Option<Seq<char>>,
    pub log_level: Option<Seq<char>>,
    pub msg_id: Option<Seq<char>>,
    pub file_info: Option<Seq<char>>,
    pub domain: Option<Seq<char>>,
    pub message: Option<Seq<char>>,
    pub fields: Option<Seq<(Seq<char>, Seq<char>)>>,
    pub repetitions: Option<u32>,
    pub ts_beg: Option<Seq<char>>,
    pub ts_end: Option<Seq<char>>,
    pub parse_error: Option<Seq<char>>,
}

impl View for StructuredRecord {
    type V = RecordV;

    open spec fn view(&self) -> RecordV {
        RecordV {
            known_format: self.known_format,
            ts: opt_view(self.ts),
            log_level: opt_view(self.log_level),
            msg_id: opt_view(self.msg_id),
            file_info: opt_view(self.file_info),
            domain: opt_view(self.domain),
            message: opt_view(self.message),
            fields: fields_opt_view(self.fields),
            repetitions: self.repetitions,
            ts_beg: opt_view(self.ts_beg),
            ts_end: opt_view(self.ts_end),
            parse_error: opt_view(self.parse_error),
        }
    }
}

/// The final record of one line: on success the materialized fields under
/// `known_format: true`; on an error the same fields, the original line as
/// the message, and the error's diagnostic.
pub open spec fn spec_build(line: Seq<char>, p: PartialV, e: Option<FieldErrorV>) -> RecordV {
    match e {
        None => RecordV {
            known_format: true,
            ts: p.ts,
            log_level: p.log_level,
            msg_id: p.msg_id,
            file_info: p.file_info,
            domain: p.domain,
            message: p.message,
            fields: p.fields,
            repetitions: p.repetitions,
            ts_beg: p.ts_beg,
            ts_end: p.ts_end,
            parse_error: None,
        },
        Some(err) => RecordV {
            known_format: false,
            ts: p.ts,
            log_level: p.log_level,
            msg_id: p.msg_id,
            file_info: p.file_info,
            domain: p.domain,
            message: Some(line),
            fields: p.fields,
            repetitions: p.repetitions,
            ts_beg: p.ts_beg,
            ts_end: p.ts_end,
            parse_error: Some(error_text(err)),
        },
    }
}

/// Assembles the record for `line` from its materialization outcome.
pub fn build(line: &str, partial: PartialRecord, err: Option<FieldError>) -> (r: StructuredRecord)
    ensures
        r@ == spec_build(line@, partial@, fe_opt_view(err)),
{
    match err {
        None => StructuredRecord {
            known_format: true,
            ts: partial.ts,
            log_level: partial.log_level,
            msg_id: partial.msg_id,
            file_info: partial.file_info,
            domain: partial.domain,
            message: partial.message,
            fields: partial.fields,
            repetitions: partial.repetitions,
            ts_beg: partial.ts_beg,
            ts_end: partial.ts_end,
            parse_error: None,
        },
        Some(e) => {
            let diagnostic = e.text();
            StructuredRecord {
                known_format: false,
                ts: partial.ts,
                log_level: partial.log_level,
                msg_id: partial.msg_id,
                file_info: partial.file_info,
                domain: partial.domain,
                message: Some(String::from_str(line)),
                fields: partial.fields,
                repetitions: partial.repetitions,
                ts_beg: partial.ts_beg,
                ts_end: partial.ts_end,
                parse_error: Some(diagnostic),
            }
        },
    }
}

/// The record of one line: classification, materialization, and record
/// building composed.
pub open spec fn spec_parse(line: Seq<char>) -> RecordV {
    let (p, e) = spec_materialize(spec_classify(line));
    spec_build(line, p, e)
}

/// Parses one log line into its structured record.  Every line yields
/// exactly one record, and the record is a function of the line alone.
pub fn parse(line: &str) -> (r: StructuredRecord)
    ensures
        r@ == spec_parse(line@),
{
    let m = classify(line);
    let (partial, err) = materialize(&m);
    build(line, partial, err)
}

/// Parsing is deterministic: records built from the same line are
/// identical, so classifying a line twice yields identical results.
pub proof fn lemma_parse_deterministic(line: Seq<char>, r1: RecordV, r2: RecordV)
    requires
        r1 == spec_parse(line),
        r2 == spec_parse(line),
    ensures
        r1 == r2,
{
}

/// A line matching neither grammar yields exactly the fallback record:
/// not known-format, the original line reproduced character for character
/// as the message, a format-mismatch diagnostic, and no other field.
pub proof fn lemma_no_match_fallback(line: Seq<char>)
    requires
        spec_primary(line) is None,
        spec_repeat(line) is None,
    ensures
        ({
            let r = spec_parse(line);
            &&& !r.known_format
            &&& r.message == Some(line)
            &&& r.ts is None
            &&& r.log_level is None
            &&& r.msg_id is None
            &&& r.file_info is None
            &&& r.domain is None
            &&& r.fields is None
            &&& r.repetitions is None
            &&& r.ts_beg is None
            &&& r.ts_end is None
            &&& r.parse_error == Some("format mismatch"@)
        }),
{
}

/// A line matching the primary grammar whose body materializes cleanly
/// yields a known-format record holding exactly the grammar's captures —
/// every present capture verbatim, every absent optional capture omitted,
/// and the message body replaced by the derived message and fields.
pub proof fn lemma_primary_success_shape(line: Seq<char>)
    requires
        spec_primary(line) is Some,
        spec_split_body(spec_primary(line)->0.msg_body).1 is Done,
    ensures
        ({
            let c = spec_primary(line)->0;
            let (msg, fo) = spec_split_body(c.msg_body);
            let r = spec_parse(line);
            &&& r.known_format
            &&& r.ts == Some(c.ts)
            &&& r.log_level == Some(c.log_level)
            &&& r.msg_id == c.msg_id
            &&& r.file_info == Some(c.file_info)
            &&& r.domain == Some(c.domain)
            &&& r.message == Some(msg)
            &&& (match fo {
                FieldsOut::Done(ps) => r.fields == nonempty_fields(ps),
                FieldsOut::Missing(_) => false,
            })
            &&& r.repetitions is None
            &&& r.ts_beg is None
            &&& r.ts_end is None
            &&& r.parse_error is None
        }),
{
}

/// A repeat-summary line whose body and count materialize cleanly yields a
/// known-format record with the coerced repetition count and both
/// boundary timestamps.
pub proof fn lemma_repeat_success_shape(line: Seq<char>)
    requires
        spec_primary(line) is None,
        spec_repeat(line) is Some,
        spec_split_body(spec_repeat(line)->0.msg_body).1 is Done,
        spec_repetitions(spec_repeat(line)->0.repetitions) is Ok,
    ensures
        ({
            let c = spec_repeat(line)->0;
            let (msg, fo) = spec_split_body(c.msg_body);
            let r = spec_parse(line);
            &&& r.known_format
            &&& r.ts == c.ts
            &&& r.log_level == Some(c.log_level)
            &&& r.msg_id == c.msg_id
            &&& r.file_info == Some(c.file_info)
            &&& r.domain == Some(c.domain)
            &&& r.message == Some(msg)
            &&& (match fo {
                FieldsOut::Done(ps) => r.fields == nonempty_fields(ps),
                FieldsOut::Missing(_) => false,
            })
            &&& r.repetitions == Some(spec_repetitions(c.repetitions)->Ok_0)
            &&& r.ts_beg == Some(c.ts_beg)
            &&& r.ts_end == Some(c.ts_end)
            &&& r.parse_error is None
        }),
{
}

/// Round trip through the message body of a cleanly materialized primary
/// line: the body is a suffix of the original line, the derived message
/// is exactly the body's part before its first tab (or the whole body),
/// and the keys of the derived fields are exactly the keys of the body's
/// `key=value` segments after that tab.
pub proof fn lemma_round_trip(line: Seq<char>)
    requires
        spec_primary(line) is Some,
        spec_split_body(spec_primary(line)->0.msg_body).1 is Done,
    ensures
        ({
            let c = spec_primary(line)->0;
            let b = c.msg_body;
            let r = spec_parse(line);
            &&& b == line.subrange(line.len() - b.len(), line.len() as int)
            &&& r.message == Some(
                match find_from(b, 0, '\t') {
                    None => b,
                    Some(t) => b.subrange(0, t),
                },
            )
            &&& (match find_from(b, 0, '\t') {
                None => r.fields is None,
                Some(t) => (match r.fields {
                    Some(ps) => keys_of(ps) =~= seg_keys(b, t + 1),
                    None => seg_keys(b, t + 1) =~= Set::<Seq<char>>::empty(),
                }),
            })
        }),
{
    let c = spec_primary(line)->0;
    let b = c.msg_body;
    let r = spec_parse(line);
    assert(b == line.subrange(line.len() - b.len(), line.len() as int));
    match find_from(b, 0, '\t') {
        None => {},
        Some(t) => {
            lemma_fields_from_keys(b, t + 1, Seq::empty());
            let ps = fields_from(b, t + 1, Seq::<(Seq<char>, Seq<char>)>::empty())->Done_0;
            assert(keys_of(Seq::<(Seq<char>, Seq<char>)>::empty()) =~= Set::<Seq<char>>::empty());
            assert(keys_of(ps) =~= seg_keys(b, t + 1));
            match r.fields {
                Some(ps2) => {
                    assert(ps2 == ps);
                },
                None => {
                    assert(ps.len() == 0);
                    assert(seg_keys(b, t + 1) =~= Set::<Seq<char>>::empty()) by {
                        assert forall|kk: Seq<char>| !(#[trigger] seg_keys(b, t + 1).contains(
                            kk,
                        )) by {
                            if seg_keys(b, t + 1).contains(kk) {
                                assert(keys_of(ps).contains(kk));
                            }
                        }
                    }
                },
            }
        },
    }
}

} // verus!
