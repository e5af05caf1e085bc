//! The line classifier: tries the primary grammar first, then the
//! repeat-summary grammar, and returns the captures of whichever matched.

use vstd::prelude::*;
use crate::scan::{find_char, find_ws, is_lit_at, is_ws, to_chars, extract};
use crate::grammar::{
    bracket_at, msgid_at, fields_at, tail_to_eol, primary_body, spec_primary, suffix_at,
    last_quote_from, lemma_last_quote_from, repeat_tail, repeat_body, spec_repeat, repeat_caps,
    is_level_char, PrimaryCapsV, RepeatCapsV, BodyCaps, RepeatBody,
};

verus! {

/// Runtime check for [`is_level_char`].
fn is_level(c: char) -> (b: bool)
    ensures
        b == is_level_char(c),
{
    c == 'C' || c == 'I' || c == 'E' || c == 'W' || c == 'T' || c == 'D'
}

/// Character range of a bracketed capture and the position after it.
fn bracket_x(v: &Vec<char>, i: usize) -> (r: Option<(usize, usize, usize)>)
    ensures
        r is Some <==> bracket_at(v@, i as int) is Some,
        r is Some ==> ({
            let (a, b, nx) = r->0;
            let (cap, sn) = bracket_at(v@, i as int)->0;
            i < a <= b <= v@.len() && nx <= v@.len() && cap == v@.subrange(
                a as int,
                b as int,
            ) && sn == nx as int
        }),
{
    let n = v.len();
    if i < n && v[i] == '[' {
        match find_char(v, i + 1, ']') {
            Some(j) => if j > i + 1 {
                Some((i + 1, j, j + 1))
            } else {
                None
            },
            None => None,
        }
    } else {
        None
    }
}

/// Character range of the message-id capture and the position after the
/// whole optional group.
fn msgid_x(v: &Vec<char>, i: usize) -> (r: Option<(usize, usize, usize)>)
    ensures
        r is Some <==> msgid_at(v@, i as int) is Some,
        r is Some ==> ({
            let (a, b, nx) = r->0;
            let (cap, sn) = msgid_at(v@, i as int)->0;
            a <= b <= v@.len() && nx <= v@.len() && cap == v@.subrange(a as int, b as int)
                && sn == nx as int
        }),
{
    proof {
        reveal_strlit("[MSGID:");
    }
    let n = v.len();
    if is_lit_at(v, i, "[MSGID:") && i + 7 < n && is_ws(v[i + 7]) {
        match find_char(v, i + 8, ']') {
            Some(j) => if j > i + 8 && j + 1 < n && is_ws(v[j + 1]) {
                Some((i + 8, j, j + 2))
            } else {
                None
            },
            None => None,
        }
    } else {
        None
    }
}

/// Character ranges of `file_info` and `domain`, and the position where the
/// message body starts.
struct FieldsScan {
    fa: usize,
    fb: usize,
    da: usize,
    db: usize,
    p: usize,
}

/// What a [`FieldsScan`] means, relative to [`fields_at`].
spec fn fields_scan_ok(v: Seq<char>, i: int, f: FieldsScan) -> bool {
    &&& fields_at(v, i) is Some
    &&& f.fa <= f.fb <= v.len()
    &&& f.da <= f.db <= v.len()
    &&& f.p <= v.len()
    &&& ({
        let (fi, d, p) = fields_at(v, i)->0;
        &&& fi == v.subrange(f.fa as int, f.fb as int)
        &&& d == v.subrange(f.da as int, f.db as int)
        &&& p == f.p as int
    })
}

/// Runtime counterpart of [`fields_at`].
fn fields_x(v: &Vec<char>, i: usize) -> (r: Option<FieldsScan>)
    ensures
        r is Some <==> fields_at(v@, i as int) is Some,
        r is Some ==> fields_scan_ok(v@, i as int, r->0),
{
    let n = v.len();
    match bracket_x(v, i) {
        Some((fa, fb, nn)) => if nn < n && is_ws(v[nn]) {
            match find_char(v, nn + 1, ':') {
                Some(k) => if k > nn + 1 && k + 1 < n && is_ws(v[k + 1]) {
                    Some(FieldsScan { fa, fb, da: nn + 1, db: k, p: k + 2 })
                } else {
                    None
                },
                None => None,
            }
        } else {
            None
        },
        None => None,
    }
}

/// Character ranges of the body captures, for a body that runs to the end
/// of the line.
struct BodyScan {
    level: usize,
    has_msg_id: bool,
    ma: usize,
    mb: usize,
    fields: FieldsScan,
}

/// What a [`BodyScan`] means, relative to [`primary_body`].
spec fn body_scan_ok(v: Seq<char>, i: int, b: BodyScan) -> bool {
    &&& primary_body(v, i) is Some
    &&& b.level == i
    &&& 0 <= i < v.len()
    &&& b.ma <= b.mb <= v.len()
    &&& b.fields.fa <= b.fields.fb <= v.len()
    &&& b.fields.da <= b.fields.db <= v.len()
    &&& ({
        let c = primary_body(v, i)->0;
        &&& c.log_level == seq![v[i]]
        &&& (b.has_msg_id <==> c.msg_id is Some)
        &&& (b.has_msg_id ==> c.msg_id->0 == v.subrange(b.ma as int, b.mb as int))
        &&& c.file_info == v.subrange(b.fields.fa as int, b.fields.fb as int)
        &&& c.domain == v.subrange(b.fields.da as int, b.fields.db as int)
        &&& c.msg_body == v.subrange(b.fields.p as int, v.len() as int)
        &&& b.fields.p < v.len()
    })
}

/// Runtime counterpart of [`primary_body`].
fn primary_body_x(v: &Vec<char>, i: usize) -> (r: Option<BodyScan>)
    requires
        i <= v@.len(),
    ensures
        r is Some <==> primary_body(v@, i as int) is Some,
        r is Some ==> body_scan_ok(v@, i as int, r->0),
{
    let n = v.len();
    if i < n && i + 1 < n && is_level(v[i]) && is_ws(v[i + 1]) {
        match msgid_x(v, i + 2) {
            Some((ma, mb, nn)) => match fields_x(v, nn) {
                Some(f) => if f.p < n {
                    assert(tail_to_eol(v@, nn as int) is Some);
                    Some(BodyScan { level: i, has_msg_id: true, ma, mb, fields: f })
                } else {
                    assert(tail_to_eol(v@, nn as int) is None);
                    primary_body_no_msgid(v, i)
                },
                None => primary_body_no_msgid(v, i),
            },
            None => primary_body_no_msgid(v, i),
        }
    } else {
        None
    }
}

/// The body without its optional message-id group, tried when the group is
/// absent or the rest of the line does not match after it.
fn primary_body_no_msgid(v: &Vec<char>, i: usize) -> (r: Option<BodyScan>)
    requires
        i + 2 <= v@.len(),
        is_level_char(v@[i as int]),
        crate::scan::is_ws_char(v@[i + 1]),
    ensures
        ({
            let sp = match tail_to_eol(v@, i + 2) {
                Some((fi, d, b)) => Some(
                    BodyCaps {
                        log_level: seq![v@[i as int]],
                        msg_id: None,
                        file_info: fi,
                        domain: d,
                        msg_body: b,
                    },
                ),
                None => None,
            };
            &&& (r is Some <==> sp is Some)
            &&& r is Some ==> ({
                let b = r->0;
                &&& b.level == i
                &&& !b.has_msg_id
                &&& b.ma == 0 && b.mb == 0
                &&& fields_scan_ok(v@, i + 2, b.fields)
                &&& b.fields.p < v@.len()
            })
        }),
{
    let n = v.len();
    match fields_x(v, i + 2) {
        Some(f) => if f.p < n {
            Some(BodyScan { level: i, has_msg_id: false, ma: 0, mb: 0, fields: f })
        } else {
            None
        },
        None => None,
    }
}

/// Captures of a line that matched the primary grammar.
pub struct PrimaryCaptures {
    pub ts: String,
    pub log_level: String,
    pub msg_id: Option<String>,
    pub file_info: String,
    pub domain: String,
    pub msg_body: String,
}

impl View for PrimaryCaptures {
    type V = PrimaryCapsV;

    open spec fn view(&self) -> PrimaryCapsV {
        PrimaryCapsV {
            ts: self.ts@,
            log_level: self.log_level@,
            msg_id: match self.msg_id {
                Some(m) => Some(m@),
                None => None,
            },
            file_info: self.file_info@,
            domain: self.domain@,
            msg_body: self.msg_body@,
        }
    }
}

/// Extracts the capture strings of a body that runs to the end of the line.
fn body_captures(line: &str, v: &Vec<char>, i: usize, b: BodyScan) -> (r: (
    String,
    Option<String>,
    String,
    String,
    String,
))
    requires
        v@ == line@,
        body_scan_ok(v@, i as int, b),
    ensures
        ({
            let c = primary_body(v@, i as int)->0;
            &&& r.0@ == c.log_level
            &&& (match (r.1, c.msg_id) {
                (Some(m), Some(cm)) => m@ == cm,
                (None, None) => true,
                _ => false,
            })
            &&& r.2@ == c.file_info
            &&& r.3@ == c.domain
            &&& r.4@ == c.msg_body
        }),
{
    let n = v.len();
    let level = extract(line, i, i + 1);
    proof {
        assert(v@.subrange(i as int, i + 1) =~= seq![v@[i as int]]);
    }
    let msg_id = if b.has_msg_id {
        Some(extract(line, b.ma, b.mb))
    } else {
        None
    };
    let file_info = extract(line, b.fields.fa, b.fields.fb);
    let domain = extract(line, b.fields.da, b.fields.db);
    let msg_body = extract(line, b.fields.p, n);
    (level, msg_id, file_info, domain, msg_body)
}

/// Runtime counterpart of [`spec_primary`].
fn match_primary(line: &str, v: &Vec<char>) -> (r: Option<PrimaryCaptures>)
    requires
        v@ == line@,
    ensures
        r is Some <==> spec_primary(line@) is Some,
        r is Some ==> r->0@ == spec_primary(line@)->0,
{
    let n = v.len();
    match bracket_x(v, 0) {
        Some((ta, tb, nn)) => if nn < n && is_ws(v[nn]) {
            match primary_body_x(v, nn + 1) {
                Some(b) => {
                    let ts = extract(line, ta, tb);
                    let (log_level, msg_id, file_info, domain, msg_body) = body_captures(
                        line,
                        v,
                        nn + 1,
                        b,
                    );
                    Some(PrimaryCaptures { ts, log_level, msg_id, file_info, domain, msg_body })
                },
                None => None,
            }
        } else {
            None
        },
        None => None,
    }
}

/// Character ranges of the closing template of a repeat-summary line.
struct SuffixScan {
    ra: usize,
    rb: usize,
    tba: usize,
    tbb: usize,
    tea: usize,
    teb: usize,
}

/// What a [`SuffixScan`] means, relative to [`suffix_at`].
spec fn suffix_scan_ok(v: Seq<char>, q: int, x: SuffixScan) -> bool {
    &&& suffix_at(v, q) is Some
    &&& x.ra <= x.rb <= v.len()
    &&& x.tba <= x.tbb <= v.len()
    &&& x.tea <= x.teb <= v.len()
    &&& ({
        let (reps, tbeg, tend) = suffix_at(v, q)->0;
        &&& reps == v.subrange(x.ra as int, x.rb as int)
        &&& tbeg == v.subrange(x.tba as int, x.tbb as int)
        &&& tend == v.subrange(x.tea as int, x.teb as int)
    })
}

/// Runtime counterpart of [`suffix_at`].
fn suffix_x(v: &Vec<char>, q: usize) -> (r: Option<SuffixScan>)
    ensures
        r is Some <==> suffix_at(v@, q as int) is Some,
        r is Some ==> suffix_scan_ok(v@, q as int, r->0),
{
    proof {
        reveal_strlit(" repeated ");
        reveal_strlit(" times between ");
        reveal_strlit(" and ");
    }
    let n = v.len();
    if q < n && v[q] == '"' && is_lit_at(v, q + 1, " repeated ") {
        match find_ws(v, q + 11) {
            Some(w) => if w > q + 11 && is_lit_at(v, w, " times between ") {
                match bracket_x(v, w + 15) {
                    Some((tba, tbb, n2)) => if is_lit_at(v, n2, " and ") {
                        match bracket_x(v, n2 + 5) {
                            Some((tea, teb, n3)) => if n3 == n {
                                Some(SuffixScan { ra: q + 11, rb: w, tba, tbb, tea, teb })
                            } else {
                                None
                            },
                            None => None,
                        }
                    } else {
                        None
                    },
                    None => None,
                }
            } else {
                None
            },
            None => None,
        }
    } else {
        None
    }
}

/// Runtime counterpart of [`last_quote_from`], scanning from the end of the
/// line down to just past `p`.
fn last_quote_x(v: &Vec<char>, p: usize) -> (r: Option<usize>)
    requires
        p <= v@.len(),
    ensures
        r is Some <==> last_quote_from(v@, p as int, v@.len() - 1) is Some,
        r is Some ==> last_quote_from(v@, p as int, v@.len() - 1) == Some(r->0 as int),
{
    let n = v.len();
    let mut jj = n;
    while jj > 0 && jj - 1 > p
        invariant
            p <= v@.len(),
            jj <= n,
            n == v@.len(),
            last_quote_from(v@, p as int, v@.len() - 1) == last_quote_from(
                v@,
                p as int,
                jj - 1,
            ),
        decreases jj,
    {
        let j = jj - 1;
        match suffix_x(v, j) {
            Some(_) => {
                return Some(j);
            },
            None => {
                jj = j;
            },
        }
    }
    None
}

/// Character ranges of everything captured by the quoted body and closing
/// template of a repeat-summary line.
struct RepeatScan {
    level: usize,
    has_msg_id: bool,
    ma: usize,
    mb: usize,
    fields: FieldsScan,
    q: usize,
    suffix: SuffixScan,
}

/// What a [`RepeatScan`] means, relative to [`repeat_body`].
spec fn repeat_scan_ok(v: Seq<char>, i: int, b: RepeatScan) -> bool {
    &&& repeat_body(v, i) is Some
    &&& b.level == i
    &&& 0 <= i < v.len()
    &&& b.ma <= b.mb <= v.len()
    &&& b.fields.fa <= b.fields.fb <= v.len()
    &&& b.fields.da <= b.fields.db <= v.len()
    &&& b.fields.p <= b.q <= v.len()
    &&& b.suffix.ra <= b.suffix.rb <= v.len()
    &&& b.suffix.tba <= b.suffix.tbb <= v.len()
    &&& b.suffix.tea <= b.suffix.teb <= v.len()
    &&& ({
        let c = repeat_body(v, i)->0;
        &&& c.log_level == seq![v[i]]
        &&& (b.has_msg_id <==> c.msg_id is Some)
        &&& (b.has_msg_id ==> c.msg_id->0 == v.subrange(b.ma as int, b.mb as int))
        &&& c.file_info == v.subrange(b.fields.fa as int, b.fields.fb as int)
        &&& c.domain == v.subrange(b.fields.da as int, b.fields.db as int)
        &&& c.msg_body == v.subrange(b.fields.p as int, b.q as int)
        &&& c.repetitions == v.subrange(b.suffix.ra as int, b.suffix.rb as int)
        &&& c.ts_beg == v.subrange(b.suffix.tba as int, b.suffix.tbb as int)
        &&& c.ts_end == v.subrange(b.suffix.tea as int, b.suffix.teb as int)
    })
}

/// Runtime counterpart of [`repeat_tail`]: the shared trailer, then the
/// last closing quote from which the template matches.
fn repeat_tail_x(v: &Vec<char>, i: usize) -> (r: Option<(FieldsScan, usize, SuffixScan)>)
    ensures
        r is Some <==> repeat_tail(v@, i as int) is Some,
        r is Some ==> ({
            let (f, q, x) = r->0;
            let (fi, d, b, reps, tbg, tnd) = repeat_tail(v@, i as int)->0;
            &&& fields_scan_ok(v@, i as int, f)
            &&& f.p <= q <= v@.len()
            &&& suffix_scan_ok(v@, q as int, x)
            &&& fi == v@.subrange(f.fa as int, f.fb as int)
            &&& d == v@.subrange(f.da as int, f.db as int)
            &&& b == v@.subrange(f.p as int, q as int)
            &&& reps == v@.subrange(x.ra as int, x.rb as int)
            &&& tbg == v@.subrange(x.tba as int, x.tbb as int)
            &&& tnd == v@.subrange(x.tea as int, x.teb as int)
        }),
{
    match fields_x(v, i) {
        Some(f) => {
            proof {
                lemma_last_quote_from(v@, f.p as int, v@.len() - 1);
            }
            match last_quote_x(v, f.p) {
                Some(q) => match suffix_x(v, q) {
                    Some(x) => Some((f, q, x)),
                    None => None,
                },
                None => None,
            }
        },
        None => None,
    }
}

/// Runtime counterpart of [`repeat_body`].
fn repeat_body_x(v: &Vec<char>, i: usize) -> (r: Option<RepeatScan>)
    requires
        i <= v@.len(),
    ensures
        r is Some <==> repeat_body(v@, i as int) is Some,
        r is Some ==> repeat_scan_ok(v@, i as int, r->0),
{
    let n = v.len();
    if i < n && i + 1 < n && is_level(v[i]) && is_ws(v[i + 1]) {
        match msgid_x(v, i + 2) {
            Some((ma, mb, nn)) => match repeat_tail_x(v, nn) {
                Some((f, q, x)) => Some(
                    RepeatScan { level: i, has_msg_id: true, ma, mb, fields: f, q, suffix: x },
                ),
                None => repeat_body_no_msgid(v, i),
            },
            None => repeat_body_no_msgid(v, i),
        }
    } else {
        None
    }
}

/// The quoted body without its optional message-id group.
#[allow(unused_variables)]
fn repeat_body_no_msgid(v: &Vec<char>, i: usize) -> (r: Option<RepeatScan>)
    requires
        i + 2 <= v@.len(),
        is_level_char(v@[i as int]),
        crate::scan::is_ws_char(v@[i + 1]),
    ensures
        ({
            let sp = match repeat_tail(v@, i + 2) {
                Some((fi, d, b, reps, tbg, tnd)) => Some(
                    RepeatBody {
                        log_level: seq![v@[i as int]],
                        msg_id: None,
                        file_info: fi,
                        domain: d,
                        msg_body: b,
                        repetitions: reps,
                        ts_beg: tbg,
                        ts_end: tnd,
                    },
                ),
                None => None,
            };
            &&& (r is Some <==> sp is Some)
            &&& r is Some ==> ({
                let b = r->0;
                &&& b.level == i
                &&& !b.has_msg_id
                &&& b.ma == 0 && b.mb == 0
                &&& fields_scan_ok(v@, i + 2, b.fields)
                &&& b.fields.p <= b.q <= v@.len()
                &&& suffix_scan_ok(v@, b.q as int, b.suffix)
                &&& ({
                    let (fi, d, mb, reps, tbg, tnd) = repeat_tail(v@, i + 2)->0;
                    &&& mb == v@.subrange(b.fields.p as int, b.q as int)
                    &&& reps == v@.subrange(b.suffix.ra as int, b.suffix.rb as int)
                    &&& tbg == v@.subrange(b.suffix.tba as int, b.suffix.tbb as int)
                    &&& tnd == v@.subrange(b.suffix.tea as int, b.suffix.teb as int)
                })
            })
        }),
{
    let n = v.len();
    match repeat_tail_x(v, i + 2) {
        Some((f, q, x)) => Some(
            RepeatScan { level: i, has_msg_id: false, ma: 0, mb: 0, fields: f, q, suffix: x },
        ),
        None => None,
    }
}

/// Captures of a line that matched the repeat-summary grammar.
pub struct RepeatCaptures {
    pub ts: Option<String>,
    pub log_level: String,
    pub msg_id: Option<String>,
    pub file_info: String,
    pub domain: String,
    pub msg_body: String,
    pub repetitions: String,
    pub ts_beg: String,
    pub ts_end: String,
}

impl View for RepeatCaptures {
    type V = RepeatCapsV;

    open spec fn view(&self) -> RepeatCapsV {
        RepeatCapsV {
            ts: match self.ts {
                Some(t) => Some(t@),
                None => None,
            },
            log_level: self.log_level@,
            msg_id: match self.msg_id {
                Some(m) => Some(m@),
                None => None,
            },
            file_info: self.file_info@,
            domain: self.domain@,
            msg_body: self.msg_body@,
            repetitions: self.repetitions@,
            ts_beg: self.ts_beg@,
            ts_end: self.ts_end@,
        }
    }
}

/// Extracts the capture strings of a quoted repeat-summary body.
#[allow(unused_variables)]
fn repeat_captures(line: &str, v: &Vec<char>, ts: Option<String>, i: usize, b: RepeatScan) -> (r:
    RepeatCaptures)
    requires
        v@ == line@,
        repeat_scan_ok(v@, i as int, b),
    ensures
        r@ == repeat_caps(
            match ts {
                Some(t) => Some(t@),
                None => None,
            },
            repeat_body(v@, i as int)->0,
        ),
{
    let n = v.len();
    let level = extract(line, i, i + 1);
    proof {
        assert(v@.subrange(i as int, i + 1) =~= seq![v@[i as int]]);
    }
    let msg_id = if b.has_msg_id {
        Some(extract(line, b.ma, b.mb))
    } else {
        None
    };
    RepeatCaptures {
        ts,
        log_level: level,
        msg_id,
        file_info: extract(line, b.fields.fa, b.fields.fb),
        domain: extract(line, b.fields.da, b.fields.db),
        msg_body: extract(line, b.fields.p, b.q),
        repetitions: extract(line, b.suffix.ra, b.suffix.rb),
        ts_beg: extract(line, b.suffix.tba, b.suffix.tbb),
        ts_end: extract(line, b.suffix.tea, b.suffix.teb),
    }
}

/// Runtime counterpart of [`spec_repeat`].
fn match_repeat(line: &str, v: &Vec<char>) -> (r: Option<RepeatCaptures>)
    requires
        v@ == line@,
    ensures
        r is Some <==> spec_repeat(line@) is Some,
        r is Some ==> r->0@ == spec_repeat(line@)->0,
{
    proof {
        reveal_strlit("The message \"");
    }
    let n = v.len();
    if !is_lit_at(v, 0, "The message \"") {
        return None;
    }
    match bracket_x(v, 13) {
        Some((ta, tb, nn)) => if nn < n && is_ws(v[nn]) {
            match repeat_body_x(v, nn + 1) {
                Some(b) => {
                    let ts = extract(line, ta, tb);
                    Some(repeat_captures(line, v, Some(ts), nn + 1, b))
                },
                None => match_repeat_without_ts(line, v),
            }
        } else {
            match_repeat_without_ts(line, v)
        },
        None => match_repeat_without_ts(line, v),
    }
}

/// The repeat-summary grammar with no timestamp inside the quotes.
fn match_repeat_without_ts(line: &str, v: &Vec<char>) -> (r: Option<RepeatCaptures>)
    requires
        v@ == line@,
        crate::scan::lit_at(line@, 0, "The message \""@),
    ensures
        ({
            let sp = match repeat_body(line@, 13) {
                Some(b) => Some(repeat_caps(None, b)),
                None => None,
            };
            &&& (r is Some <==> sp is Some)
            &&& r is Some ==> r->0@ == sp->0
        }),
{
    proof {
        reveal_strlit("The message \"");
    }
    match repeat_body_x(v, 13) {
        Some(b) => Some(repeat_captures(line, v, None, 13, b)),
        None => None,
    }
}

/// Which grammar matched a line, with its captures.
pub enum MatchResult {
    Primary(PrimaryCaptures),
    RepeatSummary(RepeatCaptures),
    NoMatch,
}

/// Spec-level counterpart of [`MatchResult`].
pub enum MatchV {
    Primary(PrimaryCapsV),
    RepeatSummary(RepeatCapsV),
    NoMatch,
}

impl View for MatchResult {
    type V = MatchV;

    open spec fn view(&self) -> MatchV {
        match self {
            MatchResult::Primary(c) => MatchV::Primary(c@),
            MatchResult::RepeatSummary(c) => MatchV::RepeatSummary(c@),
            MatchResult::NoMatch => MatchV::NoMatch,
        }
    }
}

/// Which grammar a line matches: the primary grammar takes precedence, then
/// the repeat-summary grammar.
pub open spec fn spec_classify(line: Seq<char>) -> MatchV {
    match spec_primary(line) {
        Some(c) => MatchV::Primary(c),
        None => match spec_repeat(line) {
            Some(c) => MatchV::RepeatSummary(c),
            None => MatchV::NoMatch,
        },
    }
}

/// Classifies one line: tries the primary grammar first, then the
/// repeat-summary grammar, and reports the captures of the first match.
/// The result is a function of the line alone.
pub fn classify(line: &str) -> (r: MatchResult)
    ensures
        r@ == spec_classify(line@),
{
    let v = to_chars(line);
    match match_primary(line, &v) {
        Some(c) => MatchResult::Primary(c),
        None => match match_repeat(line, &v) {
            Some(c) => MatchResult::RepeatSummary(c),
            None => MatchResult::NoMatch,
        },
    }
}

} // verus!
