//! The field materializer: turns raw captures into typed record fields.
//!
//! The message body is split on tab characters: the first segment is the
//! message, each later segment must be a `key=value` pair, and the pairs
//! are collected into an ordered field map in which a repeated key keeps
//! its first position and takes the last value.  The repetition count is
//! coerced to an unsigned integer.  Validation is strict: a segment with
//! no `=` and a count that is not a plain decimal number in range are
//! reported as errors.

use vstd::prelude::*;
use crate::scan::{find_from, find_char, to_chars, extract};
use crate::classify::{MatchResult, MatchV};

verus! {

/// A decimal digit.
pub open spec fn is_digit_char(c: char) -> bool {
    48 <= c as u32 <= 57
}

/// Every character of `s` is a decimal digit.
pub open spec fn all_digits(s: Seq<char>) -> bool {
    forall|i: int| 0 <= i < s.len() ==> is_digit_char(s[i])
}

/// The numeric value of one digit.
pub open spec fn digit_val(c: char) -> int {
    c as u32 - 48
}

/// The numeric value of a digit string.
pub open spec fn digits_val(s: Seq<char>) -> int
    decreases s.len(),
{
    if s.len() == 0 {
        0
    } else {
        digits_val(s.drop_last()) * 10 + digit_val(s.last())
    }
}

/// The value of a digit string is never negative.
pub proof fn lemma_digits_val_nonneg(s: Seq<char>)
    requires
        all_digits(s),
    ensures
        digits_val(s) >= 0,
    decreases s.len(),
{
    if s.len() > 0 {
        assert(all_digits(s.drop_last()));
        lemma_digits_val_nonneg(s.drop_last());
    }
}

/// The value of a digit string is at least the value of any of its
/// prefixes.
pub proof fn lemma_digits_val_extend(s: Seq<char>, i: int)
    requires
        all_digits(s),
        0 <= i <= s.len(),
    ensures
        digits_val(s.take(i)) <= digits_val(s),
    decreases s.len() - i,
{
    if i == s.len() {
        assert(s.take(i) =~= s);
    } else {
        let t1 = s.take(i + 1);
        assert(t1.drop_last() =~= s.take(i));
        assert(t1.last() == s[i]);
        assert(all_digits(s.take(i)));
        lemma_digits_val_nonneg(s.take(i));
        assert(digits_val(t1) == digits_val(s.take(i)) * 10 + digit_val(s[i]));
        lemma_digits_val_extend(s, i + 1);
    }
}

/// Why a repetition count was rejected.
#[derive(Clone, Copy, Debug, PartialEq, Eq, Structural)]
pub enum RepErr {
    NotNumeric,
    OutOfRange,
}

/// Coercion of a raw repetition capture: the value of a non-empty decimal
/// digit string when it fits a 32-bit unsigned integer, an error otherwise.
pub open spec fn spec_repetitions(s: Seq<char>) -> Result<u32, RepErr> {
    if s.len() == 0 || !all_digits(s) {
        Err(RepErr::NotNumeric)
    } else if digits_val(s) > u32::MAX {
        Err(RepErr::OutOfRange)
    } else {
        Ok(digits_val(s) as u32)
    }
}

/// Coerces a raw repetition capture to an unsigned integer, strictly:
/// only a non-empty run of decimal digits whose value fits is accepted.
pub fn parse_repetitions(raw: &str) -> (r: Result<u32, RepErr>)
    ensures
        r == spec_repetitions(raw@),
{
    let v = to_chars(raw);
    let n = v.len();
    if n == 0 {
        return Err(RepErr::NotNumeric);
    }
    let mut i: usize = 0;
    while i < n
        invariant
            i <= n,
            n == v@.len(),
            v@ == raw@,
            forall|m: int| 0 <= m < i ==> is_digit_char(v@[m]),
        decreases n - i,
    {
        let d = v[i] as u32;
        if d < 48 || d > 57 {
            assert(!is_digit_char(raw@[i as int]));
            return Err(RepErr::NotNumeric);
        }
        assert(is_digit_char(v@[i as int]));
        i = i + 1;
    }
    assert(all_digits(raw@));
    let mut acc: u64 = 0;
    let mut k: usize = 0;
    while k < n
        invariant
            k <= n,
            n == v@.len(),
            v@ == raw@,
            all_digits(raw@),
            acc == digits_val(raw@.take(k as int)),
            acc <= u32::MAX,
        decreases n - k,
    {
        let d = (v[k] as u32) - 48;
        let acc2: u64 = acc * 10 + (d as u64);
        proof {
            assert(raw@.take(k + 1).drop_last() =~= raw@.take(k as int));
            assert(raw@.take(k + 1).last() == raw@[k as int]);
        }
        if acc2 > (u32::MAX as u64) {
            proof {
                lemma_digits_val_extend(raw@, k + 1);
            }
            return Err(RepErr::OutOfRange);
        }
        acc = acc2;
        k = k + 1;
    }
    proof {
        assert(raw@.take(n as int) =~= raw@);
    }
    Ok(acc as u32)
}

/// The field pairs of a record, as sequences of characters.
pub open spec fn pairs_view(ps: Seq<(String, String)>) -> Seq<(Seq<char>, Seq<char>)> {
    Seq::new(ps.len(), |i: int| (ps[i].0@, ps[i].1@))
}

/// The position of the first pair whose key is `k`, searching from `i`.
pub open spec fn key_index(ps: Seq<(Seq<char>, Seq<char>)>, k: Seq<char>, i: int) -> Option<int>
    decreases ps.len() - i,
{
    if i < 0 || i >= ps.len() {
        None
    } else if ps[i].0 == k {
        Some(i)
    } else {
        key_index(ps, k, i + 1)
    }
}

/// Insertion into the ordered field map: a present key keeps its position
/// and takes the new value, a new key goes to the end.
pub open spec fn insert_pair(
    ps: Seq<(Seq<char>, Seq<char>)>,
    k: Seq<char>,
    v: Seq<char>,
) -> Seq<(Seq<char>, Seq<char>)> {
    match key_index(ps, k, 0) {
        Some(j) => ps.update(j, (k, v)),
        None => ps.push((k, v)),
    }
}

/// Runtime counterpart of [`insert_pair`].
pub fn insert_field(ps: &mut Vec<(String, String)>, k: String, v: String)
    ensures
        pairs_view(final(ps)@) == insert_pair(pairs_view(old(ps)@), k@, v@),
{
    let ghost gk = k@;
    let ghost gv = v@;
    let n = ps.len();
    let mut j: usize = 0;
    while j < n
        invariant
            j <= n,
            n == ps@.len(),
            ps@ == old(ps)@,
            key_index(pairs_view(ps@), gk, 0) == key_index(pairs_view(ps@), gk, j as int),
            gk == k@,
            gv == v@,
        decreases n - j,
    {
        if ps[j].0 == k {
            proof {
                assert(pairs_view(ps@)[j as int].0 == gk);
                assert(key_index(pairs_view(ps@), gk, j as int) == Some(j as int));
            }
            ps[j] = (k, v);
            proof {
                assert(pairs_view(ps@) =~= insert_pair(pairs_view(old(ps)@), gk, gv));
            }
            return;
        }
        proof {
            assert(pairs_view(ps@)[j as int].0 != gk);
        }
        j = j + 1;
    }
    ps.push((k, v));
    proof {
        assert(key_index(pairs_view(old(ps)@), gk, n as int) is None);
        assert(pairs_view(ps@) =~= insert_pair(pairs_view(old(ps)@), gk, gv));
    }
}

/// Outcome of collecting the `key=value` segments of a message body.
pub enum FieldsOut {
    Done(Seq<(Seq<char>, Seq<char>)>),
    Missing(Seq<char>),
}

/// Collects the tab-delimited segments of `body` from position `i` into
/// the ordered field map `acc`.  Each segment is split once on `=`; a
/// segment without `=` stops the collection and reports its text as the
/// key that misses a value.
pub open spec fn fields_from(
    body: Seq<char>,
    i: int,
    acc: Seq<(Seq<char>, Seq<char>)>,
) -> FieldsOut
    decreases body.len() - i,
{
    if !(0 <= i <= body.len()) {
        FieldsOut::Done(acc)
    } else {
        let e = match find_from(body, i, '\t') {
            Some(t) => t,
            None => body.len() as int,
        };
        if !(i <= e <= body.len()) {
            FieldsOut::Done(acc)
        } else {
            let eq = find_from(body, i, '=');
            if eq is Some && eq->0 < e {
                let acc2 = insert_pair(
                    acc,
                    body.subrange(i, eq->0),
                    body.subrange(eq->0 + 1, e),
                );
                if e == body.len() {
                    FieldsOut::Done(acc2)
                } else {
                    fields_from(body, e + 1, acc2)
                }
            } else {
                FieldsOut::Missing(body.subrange(i, e))
            }
        }
    }
}

/// Decomposition of a message body: the message is everything before the
/// first tab (or the whole body), and the later segments form the field
/// map.
pub open spec fn spec_split_body(body: Seq<char>) -> (Seq<char>, FieldsOut) {
    match find_from(body, 0, '\t') {
        None => (body, FieldsOut::Done(Seq::empty())),
        Some(t) => (body.subrange(0, t), fields_from(body, t + 1, Seq::empty())),
    }
}

/// Splits a message body into the message and its field map.  On a
/// segment with no `=` the split stops and reports that segment as the
/// missing-value key; the message is returned either way.
pub fn split_body(body: &str) -> (r: (String, Result<Vec<(String, String)>, String>))
    ensures
        ({
            let (m, fo) = spec_split_body(body@);
            &&& r.0@ == m
            &&& match (r.1, fo) {
                (Ok(ps), FieldsOut::Done(pv)) => pairs_view(ps@) == pv,
                (Err(k), FieldsOut::Missing(kv)) => k@ == kv,
                _ => false,
            }
        }),
{
    let v = to_chars(body);
    let n = v.len();
    match find_char(&v, 0, '\t') {
        None => {
            let msg = extract(body, 0, n);
            let ps: Vec<(String, String)> = Vec::new();
            proof {
                assert(body@.subrange(0, n as int) =~= body@);
                assert(pairs_view(ps@) =~= Seq::<(Seq<char>, Seq<char>)>::empty());
            }
            (msg, Ok(ps))
        },
        Some(t0) => {
            let msg = extract(body, 0, t0);
            let mut ps: Vec<(String, String)> = Vec::new();
            let ghost i0 = t0 + 1;
            let mut i = t0 + 1;
            proof {
                assert(pairs_view(ps@) =~= Seq::<(Seq<char>, Seq<char>)>::empty());
            }
            loop
                invariant
                    i0 <= i <= n,
                    n == v@.len(),
                    v@ == body@,
                    t0 < n,
                    i0 == t0 + 1,
                    find_from(body@, 0, '\t') == Some(t0 as int),
                    msg@ == body@.subrange(0, t0 as int),
                    fields_from(body@, i0, Seq::empty()) == fields_from(
                        body@,
                        i as int,
                        pairs_view(ps@),
                    ),
                decreases n - i,
            {
                let e = match find_char(&v, i, '\t') {
                    Some(t) => t,
                    None => n,
                };
                let j_opt = find_char(&v, i, '=');
                let mut has: bool = false;
                let mut j: usize = 0;
                match j_opt {
                    Some(jj) => {
                        if jj < e {
                            has = true;
                            j = jj;
                        }
                    },
                    None => {},
                }
                if has {
                    let ghost pv0 = pairs_view(ps@);
                    let key = extract(body, i, j);
                    let val = extract(body, j + 1, e);
                    insert_field(&mut ps, key, val);
                    proof {
                        assert(pairs_view(ps@) == insert_pair(
                            pv0,
                            body@.subrange(i as int, j as int),
                            body@.subrange(j + 1, e as int),
                        ));
                    }
                    if e == n {
                        proof {
                            assert(fields_from(body@, i as int, pv0) == FieldsOut::Done(
                                pairs_view(ps@),
                            ));
                            assert(fields_from(body@, i0, Seq::empty()) == FieldsOut::Done(
                                pairs_view(ps@),
                            ));
                            assert(spec_split_body(body@).1 == fields_from(
                                body@,
                                t0 + 1,
                                Seq::empty(),
                            ));
                            assert(spec_split_body(body@).0 == body@.subrange(0, t0 as int));
                        }
                        return (msg, Ok(ps));
                    }
                    proof {
                        assert(fields_from(body@, i as int, pv0) == fields_from(
                            body@,
                            e + 1,
                            pairs_view(ps@),
                        ));
                    }
                    i = e + 1;
                } else {
                    proof {
                        assert(fields_from(body@, i as int, pairs_view(ps@))
                            == FieldsOut::Missing(body@.subrange(i as int, e as int)));
                    }
                    let key = extract(body, i, e);
                    return (msg, Err(key));
                }
            }
        },
    }
}

/// The set of keys of an ordered field map.
pub open spec fn keys_of(ps: Seq<(Seq<char>, Seq<char>)>) -> Set<Seq<char>> {
    Set::new(|k: Seq<char>| exists|i: int| 0 <= i < ps.len() && ps[i].0 == k)
}

/// The keys of the well-formed `key=value` segments of `body` from
/// position `i` on, as long as the segments stay well formed.
pub open spec fn seg_keys(body: Seq<char>, i: int) -> Set<Seq<char>>
    decreases body.len() - i,
{
    if !(0 <= i <= body.len()) {
        Set::empty()
    } else {
        let e = match find_from(body, i, '\t') {
            Some(t) => t,
            None => body.len() as int,
        };
        if !(i <= e <= body.len()) {
            Set::empty()
        } else {
            let eq = find_from(body, i, '=');
            if eq is Some && eq->0 < e {
                let rest = if e == body.len() {
                    Set::<Seq<char>>::empty()
                } else {
                    seg_keys(body, e + 1)
                };
                rest.insert(body.subrange(i, eq->0))
            } else {
                Set::empty()
            }
        }
    }
}

/// A position returned by [`key_index`] holds the key, and `None` means
/// no pair from `i` on holds it.
pub proof fn lemma_key_index(ps: Seq<(Seq<char>, Seq<char>)>, k: Seq<char>, i: int)
    requires
        0 <= i <= ps.len(),
    ensures
        match key_index(ps, k, i) {
            Some(j) => i <= j < ps.len() && ps[j].0 == k,
            None => forall|m: int| i <= m < ps.len() ==> ps[m].0 != k,
        },
    decreases ps.len() - i,
{
    if i < ps.len() && ps[i].0 != k {
        lemma_key_index(ps, k, i + 1);
    }
}

/// Inserting a pair adds exactly its key to the key set.
pub proof fn lemma_insert_pair_keys(ps: Seq<(Seq<char>, Seq<char>)>, k: Seq<char>, v: Seq<char>)
    ensures
        keys_of(insert_pair(ps, k, v)) =~= keys_of(ps).insert(k),
{
    lemma_key_index(ps, k, 0);
    let ps2 = insert_pair(ps, k, v);
    assert forall|kk: Seq<char>| keys_of(ps2).contains(kk) implies keys_of(ps).insert(k).contains(
        kk,
    ) by {
        let i = choose|i: int| 0 <= i < ps2.len() && ps2[i].0 == kk;
        match key_index(ps, k, 0) {
            Some(j) => {
                if i != j {
                    assert(ps[i].0 == kk);
                }
            },
            None => {
                if i < ps.len() {
                    assert(ps[i].0 == kk);
                }
            },
        }
    }
    assert forall|kk: Seq<char>| keys_of(ps).insert(k).contains(kk) implies keys_of(ps2).contains(
        kk,
    ) by {
        if kk == k {
            match key_index(ps, k, 0) {
                Some(j) => {
                    assert(ps2[j].0 == kk);
                },
                None => {
                    assert(ps2[ps.len() as int].0 == kk);
                },
            }
        } else {
            let i = choose|i: int| 0 <= i < ps.len() && ps[i].0 == kk;
            match key_index(ps, k, 0) {
                Some(j) => {
                    assert(ps2[i].0 == kk);
                },
                None => {
                    assert(ps2[i].0 == kk);
                },
            }
        }
    }
}

/// When segment collection completes, the keys of the resulting field map
/// are the keys it started with plus the keys of every collected segment.
pub proof fn lemma_fields_from_keys(body: Seq<char>, i: int, acc: Seq<(Seq<char>, Seq<char>)>)
    requires
        fields_from(body, i, acc) is Done,
    ensures
        keys_of(fields_from(body, i, acc)->Done_0) =~= keys_of(acc) + seg_keys(body, i),
    decreases body.len() - i,
{
    if !(0 <= i <= body.len()) {
    } else {
        let e = match find_from(body, i, '\t') {
            Some(t) => t,
            None => body.len() as int,
        };
        if !(i <= e <= body.len()) {
        } else {
            let eq = find_from(body, i, '=');
            if eq is Some && eq->0 < e {
                let k = body.subrange(i, eq->0);
                let acc2 = insert_pair(acc, k, body.subrange(eq->0 + 1, e));
                lemma_insert_pair_keys(acc, k, body.subrange(eq->0 + 1, e));
                if e == body.len() {
                } else {
                    lemma_fields_from_keys(body, e + 1, acc2);
                }
            }
        }
    }
}

/// Why a line failed strict materialization.
#[derive(Debug, PartialEq, Eq)]
pub enum FieldError {
    NoGrammarMatch,
    MissingFieldValue { key: String },
    InvalidRepetitionCount { raw: String, cause: RepErr },
}

/// Spec-level counterpart of [`FieldError`].
pub enum FieldErrorV {
    NoGrammarMatch,
    MissingFieldValue { key: Seq<char> },
    InvalidRepetitionCount { raw: Seq<char>, cause: RepErr },
}

impl View for FieldError {
    type V = FieldErrorV;

    open spec fn view(&self) -> FieldErrorV {
        match self {
            FieldError::NoGrammarMatch => FieldErrorV::NoGrammarMatch,
            FieldError::MissingFieldValue { key } => FieldErrorV::MissingFieldValue {
                key: key@,
            },
            FieldError::InvalidRepetitionCount { raw, cause } => (
            FieldErrorV::InvalidRepetitionCount { raw: raw@, cause: *cause }),
        }
    }
}

/// The diagnostic for a missing-value segment.
pub open spec fn missing_value_text(k: Seq<char>) -> Seq<char> {
    "fields::"@ + k + ": missing value"@
}

/// The diagnostic for a rejected repetition count.
pub open spec fn rep_error_text(c: RepErr) -> Seq<char> {
    match c {
        RepErr::NotNumeric => "repetitions value: invalid digit found in string"@,
        RepErr::OutOfRange => "repetitions value: number too large to fit in target type"@,
    }
}

/// The diagnostic text of an error.
pub open spec fn error_text(e: FieldErrorV) -> Seq<char> {
    match e {
        FieldErrorV::NoGrammarMatch => "format mismatch"@,
        FieldErrorV::MissingFieldValue { key } => missing_value_text(key),
        FieldErrorV::InvalidRepetitionCount { raw: _, cause } => rep_error_text(cause),
    }
}

impl FieldError {
    /// A short, stable diagnostic naming the stage that failed and why.
    pub fn text(&self) -> (r: String)
        ensures
            r@ == error_text(self@),
    {
        match self {
            FieldError::NoGrammarMatch => String::from_str("format mismatch"),
            FieldError::MissingFieldValue { key } => {
                let mut s = String::from_str("fields::");
                s.append(key.as_str());
                s.append(": missing value");
                s
            },
            FieldError::InvalidRepetitionCount { raw: _, cause } => match cause {
                RepErr::NotNumeric => String::from_str(
                    "repetitions value: invalid digit found in string",
                ),
                RepErr::OutOfRange => String::from_str(
                    "repetitions value: number too large to fit in target type",
                ),
            },
        }
    }
}

/// The view of an optional string.
pub open spec fn opt_view(o: Option<String>) -> Option<Seq<char>> {
    match o {
        Some(s) => Some(s@),
        None => None,
    }
}

/// The view of an optional field map.
pub open spec fn fields_opt_view(o: Option<Vec<(String, String)>>) -> Option<
    Seq<(Seq<char>, Seq<char>)>,
> {
    match o {
        Some(v) => Some(pairs_view(v@)),
        None => None,
    }
}

/// The view of an optional error.
pub open spec fn fe_opt_view(o: Option<FieldError>) -> Option<FieldErrorV> {
    match o {
        Some(e) => Some(e@),
        None => None,
    }
}

/// The materialized fields of one line, before the final record is built.
/// Absent optional captures stay absent; after an error the fields that
/// were materialized before it remain as best-effort partial output.
pub struct PartialRecord {
    pub ts: Option<String>,
    pub log_level: Option<String>,
    pub msg_id: Option<String>,
    pub file_info: Option<String>,
    pub domain: Option<String>,
    pub message: Option<String>,
    pub fields: Option<Vec<(String, String)>>,
    pub repetitions: Option<u32>,
    pub ts_beg: Option<String>,
    pub ts_end: Option<String>,
}

/// Spec-level counterpart of [`PartialRecord`].
pub struct PartialV {
    pub ts: Option<Seq<char>>,
    pub log_level: Option<Seq<char>>,
    pub msg_id: Option<Seq<char>>,
    pub file_info: Option<Seq<char>>,
    pub domain: Option<Seq<char>>,
    pub message: Option<Seq<char>>,
    pub fields: Option<Seq<(Seq<char>, Seq<char>)>>,
    pub repetitions: Option<u32>,
    pub ts_beg: Option<Seq<char>>,
    pub ts_end: Option<Seq<char>>,
}

impl View for PartialRecord {
    type V = PartialV;

    open spec fn view(&self) -> PartialV {
        PartialV {
            ts: opt_view(self.ts),
            log_level: opt_view(self.log_level),
            msg_id: opt_view(self.msg_id),
            file_info: opt_view(self.file_info),
            domain: opt_view(self.domain),
            message: opt_view(self.message),
            fields: fields_opt_view(self.fields),
            repetitions: self.repetitions,
            ts_beg: opt_view(self.ts_beg),
            ts_end: opt_view(self.ts_end),
        }
    }
}

/// A field map only when it is non-empty; an empty one stays absent.
pub open spec fn nonempty_fields(ps: Seq<(Seq<char>, Seq<char>)>) -> Option<
    Seq<(Seq<char>, Seq<char>)>,
> {
    if ps.len() > 0 {
        Some(ps)
    } else {
        None
    }
}

/// The partial record with nothing materialized.
pub open spec fn empty_partial() -> PartialV {
    PartialV {
        ts: None,
        log_level: None,
        msg_id: None,
        file_info: None,
        domain: None,
        message: None,
        fields: None,
        repetitions: None,
        ts_beg: None,
        ts_end: None,
    }
}

/// Materialization of a classified line: simple captures are copied
/// verbatim, the message body is decomposed, and the repetition count is
/// coerced, in the grammar's capture order.  An error leaves everything
/// materialized before it in place and nothing after it.
pub open spec fn spec_materialize(m: MatchV) -> (PartialV, Option<FieldErrorV>) {
    match m {
        MatchV::Primary(c) => {
            let (msg, fo) = spec_split_body(c.msg_body);
            match fo {
                FieldsOut::Done(ps) => (
                    PartialV {
                        ts: Some(c.ts),
                        log_level: Some(c.log_level),
                        msg_id: c.msg_id,
                        file_info: Some(c.file_info),
                        domain: Some(c.domain),
                        message: Some(msg),
                        fields: nonempty_fields(ps),
                        repetitions: None,
                        ts_beg: None,
                        ts_end: None,
                    },
                    None,
                ),
                FieldsOut::Missing(k) => (
                    PartialV {
                        ts: Some(c.ts),
                        log_level: Some(c.log_level),
                        msg_id: c.msg_id,
                        file_info: Some(c.file_info),
                        domain: Some(c.domain),
                        message: Some(msg),
                        fields: None,
                        repetitions: None,
                        ts_beg: None,
                        ts_end: None,
                    },
                    Some(FieldErrorV::MissingFieldValue { key: k }),
                ),
            }
        },
        MatchV::RepeatSummary(c) => {
            let (msg, fo) = spec_split_body(c.msg_body);
            match fo {
                FieldsOut::Missing(k) => (
                    PartialV {
                        ts: c.ts,
                        log_level: Some(c.log_level),
                        msg_id: c.msg_id,
                        file_info: Some(c.file_info),
                        domain: Some(c.domain),
                        message: Some(msg),
                        fields: None,
                        repetitions: None,
                        ts_beg: None,
                        ts_end: None,
                    },
                    Some(FieldErrorV::MissingFieldValue { key: k }),
                ),
                FieldsOut::Done(ps) => match spec_repetitions(c.repetitions) {
                    Ok(count) => (
                        PartialV {
                            ts: c.ts,
                            log_level: Some(c.log_level),
                            msg_id: c.msg_id,
                            file_info: Some(c.file_info),
                            domain: Some(c.domain),
                            message: Some(msg),
                            fields: nonempty_fields(ps),
                            repetitions: Some(count),
                            ts_beg: Some(c.ts_beg),
                            ts_end: Some(c.ts_end),
                        },
                        None,
                    ),
                    Err(cause) => (
                        PartialV {
                            ts: c.ts,
                            log_level: Some(c.log_level),
                            msg_id: c.msg_id,
                            file_info: Some(c.file_info),
                            domain: Some(c.domain),
                            message: Some(msg),
                            fields: nonempty_fields(ps),
                            repetitions: None,
                            ts_beg: None,
                            ts_end: None,
                        },
                        Some(
                            FieldErrorV::InvalidRepetitionCount {
                                raw: c.repetitions,
                                cause: cause,
                            },
                        ),
                    ),
                },
            }
        },
        MatchV::NoMatch => (empty_partial(), Some(FieldErrorV::NoGrammarMatch)),
    }
}

/// Clones an optional capture.
fn clone_opt(o: &Option<String>) -> (r: Option<String>)
    ensures
        opt_view(r) == opt_view(*o),
{
    match o {
        Some(s) => Some(s.clone()),
        None => None,
    }
}

/// Materializes the captures of a classified line, strictly: a `key`
/// segment with no `=value` and a malformed repetition count are errors,
/// and everything materialized before the error is kept.
pub fn materialize(m: &MatchResult) -> (r: (PartialRecord, Option<FieldError>))
    ensures
        r.0@ == spec_materialize(m@).0,
        fe_opt_view(r.1) == spec_materialize(m@).1,
{
    match m {
        MatchResult::Primary(c) => {
            let (msg, fr) = split_body(c.msg_body.as_str());
            match fr {
                Ok(ps) => {
                    let fields = if ps.len() > 0 {
                        Some(ps)
                    } else {
                        None
                    };
                    (
                        PartialRecord {
                            ts: Some(c.ts.clone()),
                            log_level: Some(c.log_level.clone()),
                            msg_id: clone_opt(&c.msg_id),
                            file_info: Some(c.file_info.clone()),
                            domain: Some(c.domain.clone()),
                            message: Some(msg),
                            fields,
                            repetitions: None,
                            ts_beg: None,
                            ts_end: None,
                        },
                        None,
                    )
                },
                Err(key) => (
                    PartialRecord {
                        ts: Some(c.ts.clone()),
                        log_level: Some(c.log_level.clone()),
                        msg_id: clone_opt(&c.msg_id),
                        file_info: Some(c.file_info.clone()),
                        domain: Some(c.domain.clone()),
                        message: Some(msg),
                        fields: None,
                        repetitions: None,
                        ts_beg: None,
                        ts_end: None,
                    },
                    Some(FieldError::MissingFieldValue { key }),
                ),
            }
        },
        MatchResult::RepeatSummary(c) => {
            let (msg, fr) = split_body(c.msg_body.as_str());
            match fr {
                Err(key) => (
                    PartialRecord {
                        ts: clone_opt(&c.ts),
                        log_level: Some(c.log_level.clone()),
                        msg_id: clone_opt(&c.msg_id),
                        file_info: Some(c.file_info.clone()),
                        domain: Some(c.domain.clone()),
                        message: Some(msg),
                        fields: None,
                        repetitions: None,
                        ts_beg: None,
                        ts_end: None,
                    },
                    Some(FieldError::MissingFieldValue { key }),
                ),
                Ok(ps) => {
                    let fields = if ps.len() > 0 {
                        Some(ps)
                    } else {
                        None
                    };
                    match parse_repetitions(c.repetitions.as_str()) {
                        Ok(count) => (
                            PartialRecord {
                                ts: clone_opt(&c.ts),
                                log_level: Some(c.log_level.clone()),
                                msg_id: clone_opt(&c.msg_id),
                                file_info: Some(c.file_info.clone()),
                                domain: Some(c.domain.clone()),
                                message: Some(msg),
                                fields,
                                repetitions: Some(count),
                                ts_beg: Some(c.ts_beg.clone()),
                                ts_end: Some(c.ts_end.clone()),
                            },
                            None,
                        ),
                        Err(cause) => (
                            PartialRecord {
                                ts: clone_opt(&c.ts),
                                log_level: Some(c.log_level.clone()),
                                msg_id: clone_opt(&c.msg_id),
                                file_info: Some(c.file_info.clone()),
                                domain: Some(c.domain.clone()),
                                message: Some(msg),
                                fields,
                                repetitions: None,
                                ts_beg: None,
                                ts_end: None,
                            },
                            Some(
                                FieldError::InvalidRepetitionCount {
                                    raw: c.repetitions.clone(),
                                    cause,
                                },
                            ),
                        ),
                    }
                },
            }
        },
        MatchResult::NoMatch => (
            PartialRecord {
                ts: None,
                log_level: None,
                msg_id: None,
                file_info: None,
                domain: None,
                message: None,
                fields: None,
                repetitions: None,
                ts_beg: None,
                ts_end: None,
            },
            Some(FieldError::NoGrammarMatch),
        ),
    }
}

} // verus!
