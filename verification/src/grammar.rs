//! The two line grammars, defined over sequences of characters.
//!
//! Both grammars share one body sub-grammar: a single log-level letter, one
//! whitespace character, an optional `[MSGID: <id>] ` group, a bracketed
//! `file_info` capture, one whitespace, a `domain` capture closed by `:`,
//! one whitespace, and the message body.  The primary grammar puts a single
//! bracketed timestamp in front of the body, which then runs to the end of
//! the line.  The repeat-summary grammar wraps a quoted line — an optional
//! bracketed timestamp followed by the body — in the literal template
//! `The message "..." repeated <count> times between [<ts>] and [<ts>]`,
//! anchored at both ends; the quoted timestamp is optional so that both a
//! bare body and a full original line may stand inside the quotes.
//!
//! Greedy sub-patterns are resolved exactly as a leftmost-first matcher
//! would: each bracketed capture runs to the first closing bracket, the
//! domain runs to the first colon, optional groups are taken whenever the
//! remainder of the grammar still matches, and the quoted message body
//! extends to the last closing quote from which the remaining template can
//! be matched.

use vstd::prelude::*;
use crate::scan::{find_from, find_ws_from, is_ws_char, lit_at};

verus! {

/// Characters accepted as a log level.
pub open spec fn is_level_char(c: char) -> bool {
    c == 'C' || c == 'I' || c == 'E' || c == 'W' || c == 'T' || c == 'D'
}

/// One character of `s` at `i`, which is whitespace.
pub open spec fn ws_at(s: Seq<char>, i: int) -> bool {
    0 <= i < s.len() && is_ws_char(s[i])
}

/// A bracketed capture at `i`: `[`, one or more non-`]` characters, `]`.
/// Yields the capture and the position just after the closing bracket.
pub open spec fn bracket_at(s: Seq<char>, i: int) -> Option<(Seq<char>, int)> {
    if 0 <= i < s.len() && s[i] == '[' {
        match find_from(s, i + 1, ']') {
            Some(j) => if j > i + 1 {
                Some((s.subrange(i + 1, j), j + 1))
            } else {
                None
            },
            None => None,
        }
    } else {
        None
    }
}

/// The optional message-id group at `i`: `[MSGID:`, one whitespace, the id
/// (one or more non-`]` characters), `]`, one whitespace.  Yields the id and
/// the position after the trailing whitespace.
pub open spec fn msgid_at(s: Seq<char>, i: int) -> Option<(Seq<char>, int)> {
    if lit_at(s, i, "[MSGID:"@) && ws_at(s, i + 7) {
        match find_from(s, i + 8, ']') {
            Some(j) => if j > i + 8 && ws_at(s, j + 1) {
                Some((s.subrange(i + 8, j), j + 2))
            } else {
                None
            },
            None => None,
        }
    } else {
        None
    }
}

/// The shared trailer of the body: bracketed `file_info`, one whitespace,
/// `domain` (one or more non-`:` characters) closed by `:`, one whitespace.
/// Yields `file_info`, `domain`, and the position where the message body
/// starts.
pub open spec fn fields_at(s: Seq<char>, i: int) -> Option<(Seq<char>, Seq<char>, int)> {
    match bracket_at(s, i) {
        Some((fi, n)) => if ws_at(s, n) {
            match find_from(s, n + 1, ':') {
                Some(k) => if k > n + 1 && ws_at(s, k + 1) {
                    Some((fi, s.subrange(n + 1, k), k + 2))
                } else {
                    None
                },
                None => None,
            }
        } else {
            None
        },
        None => None,
    }
}

/// The log-level letter at `i` followed by one whitespace character.
pub open spec fn level_ws_at(s: Seq<char>, i: int) -> bool {
    0 <= i && i + 2 <= s.len() && is_level_char(s[i]) && is_ws_char(s[i + 1])
}

/// Captures of the body sub-grammar when it runs to the end of the line.
pub struct BodyCaps {
    pub log_level: Seq<char>,
    pub msg_id: Option<Seq<char>>,
    pub file_info: Seq<char>,
    pub domain: Seq<char>,
    pub msg_body: Seq<char>,
}

/// The body trailer when the message body is the whole remainder of the
/// line, which must be non-empty.
pub open spec fn tail_to_eol(s: Seq<char>, i: int) -> Option<(Seq<char>, Seq<char>, Seq<char>)> {
    match fields_at(s, i) {
        Some((fi, d, p)) => if p < s.len() {
            Some((fi, d, s.subrange(p, s.len() as int)))
        } else {
            None
        },
        None => None,
    }
}

/// The body sub-grammar at `i`, running to the end of the line.  The
/// message-id group is taken whenever the rest of the body still matches
/// after it; otherwise the body is retried without it.
pub open spec fn primary_body(s: Seq<char>, i: int) -> Option<BodyCaps> {
    if level_ws_at(s, i) {
        let no_msgid = match tail_to_eol(s, i + 2) {
            Some((fi, d, b)) => Some(
                BodyCaps {
                    log_level: seq![s[i]],
                    msg_id: None,
                    file_info: fi,
                    domain: d,
                    msg_body: b,
                },
            ),
            None => None,
        };
        match msgid_at(s, i + 2) {
            Some((m, n)) => match tail_to_eol(s, n) {
                Some((fi, d, b)) => Some(
                    BodyCaps {
                        log_level: seq![s[i]],
                        msg_id: Some(m),
                        file_info: fi,
                        domain: d,
                        msg_body: b,
                    },
                ),
                None => no_msgid,
            },
            None => no_msgid,
        }
    } else {
        None
    }
}

/// Captures of a primary line.
pub struct PrimaryCapsV {
    pub ts: Seq<char>,
    pub log_level: Seq<char>,
    pub msg_id: Option<Seq<char>>,
    pub file_info: Seq<char>,
    pub domain: Seq<char>,
    pub msg_body: Seq<char>,
}

/// The primary grammar: a bracketed timestamp at the start of the line, one
/// whitespace, then the body running to the end of the line.
pub open spec fn spec_primary(s: Seq<char>) -> Option<PrimaryCapsV> {
    match bracket_at(s, 0) {
        Some((ts, n)) => if ws_at(s, n) {
            match primary_body(s, n + 1) {
                Some(b) => Some(
                    PrimaryCapsV {
                        ts: ts,
                        log_level: b.log_level,
                        msg_id: b.msg_id,
                        file_info: b.file_info,
                        domain: b.domain,
                        msg_body: b.msg_body,
                    },
                ),
                None => None,
            }
        } else {
            None
        },
        None => None,
    }
}

/// The template that closes a repeat-summary line, starting at the closing
/// quote `q`: `" repeated <count> times between [<ts>] and [<ts>]`, where
/// the count is a maximal run of non-whitespace characters and the second
/// bracket ends exactly at the end of the line.  Yields the raw count and
/// the two timestamps.
pub open spec fn suffix_at(s: Seq<char>, q: int) -> Option<(Seq<char>, Seq<char>, Seq<char>)> {
    if 0 <= q < s.len() && s[q] == '"' && lit_at(s, q + 1, " repeated "@) {
        match find_ws_from(s, q + 11) {
            Some(w) => if w > q + 11 && lit_at(s, w, " times between "@) {
                match bracket_at(s, w + 15) {
                    Some((tb, n2)) => if lit_at(s, n2, " and "@) {
                        match bracket_at(s, n2 + 5) {
                            Some((te, n3)) => if n3 == s.len() {
                                Some((s.subrange(q + 11, w), tb, te))
                            } else {
                                None
                            },
                            None => None,
                        }
                    } else {
                        None
                    },
                    None => None,
                }
            } else {
                None
            },
            None => None,
        }
    } else {
        None
    }
}

/// The highest position `q`, with `p < q <= j`, at which the closing
/// template of a repeat-summary line matches.  A greedy message body claims
/// every earlier closing quote.
pub open spec fn last_quote_from(s: Seq<char>, p: int, j: int) -> Option<int>
    decreases j - p,
{
    if j <= p {
        None
    } else if suffix_at(s, j) is Some {
        Some(j)
    } else {
        last_quote_from(s, p, j - 1)
    }
}

/// A position returned by [`last_quote_from`] lies strictly between `p`
/// and the end of the line, and the closing template matches there.
pub proof fn lemma_last_quote_from(s: Seq<char>, p: int, j: int)
    ensures
        match last_quote_from(s, p, j) {
            Some(q) => p < q <= j && q < s.len() && suffix_at(s, q) is Some,
            None => true,
        },
    decreases j - p,
{
    if j <= p {
    } else if suffix_at(s, j) is Some {
    } else {
        lemma_last_quote_from(s, p, j - 1);
    }
}

/// Captures of the quoted part of a repeat-summary line together with the
/// closing template.
pub struct RepeatBody {
    pub log_level: Seq<char>,
    pub msg_id: Option<Seq<char>>,
    pub file_info: Seq<char>,
    pub domain: Seq<char>,
    pub msg_body: Seq<char>,
    pub repetitions: Seq<char>,
    pub ts_beg: Seq<char>,
    pub ts_end: Seq<char>,
}

/// The body trailer inside the quotes of a repeat-summary line: the shared
/// trailer, then a non-empty message body running to the last closing quote
/// from which the template still matches.
pub open spec fn repeat_tail(s: Seq<char>, i: int) -> Option<(Seq<char>, Seq<char>, Seq<char>, Seq<char>, Seq<char>, Seq<char>)> {
    match fields_at(s, i) {
        Some((fi, d, p)) => match last_quote_from(s, p, s.len() - 1) {
            Some(q) => match suffix_at(s, q) {
                Some((reps, tb, te)) => Some((fi, d, s.subrange(p, q), reps, tb, te)),
                None => None,
            },
            None => None,
        },
        None => None,
    }
}

/// The body sub-grammar inside the quotes of a repeat-summary line, with
/// the same message-id preference as [`primary_body`].
pub open spec fn repeat_body(s: Seq<char>, i: int) -> Option<RepeatBody> {
    if level_ws_at(s, i) {
        let no_msgid = match repeat_tail(s, i + 2) {
            Some((fi, d, b, reps, tb, te)) => Some(
                RepeatBody {
                    log_level: seq![s[i]],
                    msg_id: None,
                    file_info: fi,
                    domain: d,
                    msg_body: b,
                    repetitions: reps,
                    ts_beg: tb,
                    ts_end: te,
                },
            ),
            None => None,
        };
        match msgid_at(s, i + 2) {
            Some((m, n)) => match repeat_tail(s, n) {
                Some((fi, d, b, reps, tb, te)) => Some(
                    RepeatBody {
                        log_level: seq![s[i]],
                        msg_id: Some(m),
                        file_info: fi,
                        domain: d,
                        msg_body: b,
                        repetitions: reps,
                        ts_beg: tb,
                        ts_end: te,
                    },
                ),
                None => no_msgid,
            },
            None => no_msgid,
        }
    } else {
        None
    }
}

/// Captures of a repeat-summary line.
pub struct RepeatCapsV {
    pub ts: Option<Seq<char>>,
    pub log_level: Seq<char>,
    pub msg_id: Option<Seq<char>>,
    pub file_info: Seq<char>,
    pub domain: Seq<char>,
    pub msg_body: Seq<char>,
    pub repetitions: Seq<char>,
    pub ts_beg: Seq<char>,
    pub ts_end: Seq<char>,
}

/// Builds the captures of a repeat-summary line from its quoted body.
pub open spec fn repeat_caps(ts: Option<Seq<char>>, b: RepeatBody) -> RepeatCapsV {
    RepeatCapsV {
        ts: ts,
        log_level: b.log_level,
        msg_id: b.msg_id,
        file_info: b.file_info,
        domain: b.domain,
        msg_body: b.msg_body,
        repetitions: b.repetitions,
        ts_beg: b.ts_beg,
        ts_end: b.ts_end,
    }
}

/// The repeat-summary grammar: the literal `The message "`, then an optional
/// bracketed timestamp with one trailing whitespace, the body, and the
/// closing template.  The timestamp group is taken whenever the rest of the
/// line still matches after it.
pub open spec fn spec_repeat(s: Seq<char>) -> Option<RepeatCapsV> {
    if lit_at(s, 0, "The message \""@) {
        let without_ts = match repeat_body(s, 13) {
            Some(b) => Some(repeat_caps(None, b)),
            None => None,
        };
        match bracket_at(s, 13) {
            Some((ts, n)) => if ws_at(s, n) {
                match repeat_body(s, n + 1) {
                    Some(b) => Some(repeat_caps(Some(ts), b)),
                    None => without_ts,
                }
            } else {
                without_ts
            },
            None => without_ts,
        }
    } else {
        None
    }
}

/// Renders the bracketed-timestamp sub-grammar for a given capture name in
/// regular-expression notation: `\[(?P<name>[^\]]+)\]`.
pub fn make_ts_pattern(s: &str) -> (r: String)
    ensures
        r@ == "\\[(?P<"@ + s@ + ">[^\\]]+)\\]"@,
{
    let mut r = String::from_str("\\[(?P<");
    r.append(s);
    r.append(">[^\\]]+)\\]");
    r
}

} // verus!
