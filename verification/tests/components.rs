//! Behaviour of the individual components: classifier, body splitter,
//! count coercion, and the grammar helper.

use loglines::{classify, make_ts_pattern, parse_repetitions, split_body, MatchResult, RepErr};

#[test]
fn classify_primary_captures() {
    match classify("[t0] C [f.c:9] disk: full\tfree=0") {
        MatchResult::Primary(c) => {
            assert_eq!(c.ts, "t0");
            assert_eq!(c.log_level, "C");
            assert_eq!(c.msg_id, None);
            assert_eq!(c.file_info, "f.c:9");
            assert_eq!(c.domain, "disk");
            assert_eq!(c.msg_body, "full\tfree=0");
        }
        _ => panic!("expected a primary match"),
    }
}

#[test]
fn classify_repeat_captures() {
    match classify("The message \"D [m.c:3] mem: low\" repeated 7 times between [t1] and [t2]") {
        MatchResult::RepeatSummary(c) => {
            assert_eq!(c.ts, None);
            assert_eq!(c.log_level, "D");
            assert_eq!(c.file_info, "m.c:3");
            assert_eq!(c.domain, "mem");
            assert_eq!(c.msg_body, "low");
            assert_eq!(c.repetitions, "7");
            assert_eq!(c.ts_beg, "t1");
            assert_eq!(c.ts_end, "t2");
        }
        _ => panic!("expected a repeat-summary match"),
    }
}

#[test]
fn classify_rejects_unanchored_content() {
    // the repeat template must close exactly at the end of the line
    let m = classify("The message \"E [a.c:1] x: b\" repeated 2 times between [t1] and [t2] extra");
    assert!(matches!(m, MatchResult::NoMatch));
}

#[test]
fn classify_empty_timestamp_is_no_match() {
    assert!(matches!(classify("[] I [f.c:1] d: m"), MatchResult::NoMatch));
}

#[test]
fn classify_quoted_message_may_contain_quotes() {
    // the greedy body claims every quote but the last one that still
    // lets the closing template match
    match classify("The message \"E [a.c:1] x: say \"hi\"\" repeated 3 times between [t1] and [t2]") {
        MatchResult::RepeatSummary(c) => {
            assert_eq!(c.msg_body, "say \"hi\"");
            assert_eq!(c.repetitions, "3");
        }
        _ => panic!("expected a repeat-summary match"),
    }
}

#[test]
fn split_body_without_tabs() {
    let (msg, fields) = split_body("just a message");
    assert_eq!(msg, "just a message");
    assert_eq!(fields, Ok(vec![]));
}

#[test]
fn split_body_with_fields() {
    let (msg, fields) = split_body("m\ta=1\tb=2");
    assert_eq!(msg, "m");
    assert_eq!(
        fields,
        Ok(vec![
            ("a".to_string(), "1".to_string()),
            ("b".to_string(), "2".to_string())
        ])
    );
}

#[test]
fn split_body_reports_missing_value() {
    let (msg, fields) = split_body("m\ta=1\toops\tb=2");
    assert_eq!(msg, "m");
    assert_eq!(fields, Err("oops".to_string()));
}

#[test]
fn split_body_empty_key_is_allowed() {
    let (msg, fields) = split_body("m\t=v");
    assert_eq!(msg, "m");
    assert_eq!(fields, Ok(vec![("".to_string(), "v".to_string())]));
}

#[test]
fn repetitions_accepts_digits() {
    assert_eq!(parse_repetitions("5"), Ok(5));
    assert_eq!(parse_repetitions("0"), Ok(0));
    assert_eq!(parse_repetitions("4294967295"), Ok(u32::MAX));
}

#[test]
fn repetitions_rejects_non_digits() {
    assert_eq!(parse_repetitions("abc"), Err(RepErr::NotNumeric));
    assert_eq!(parse_repetitions(""), Err(RepErr::NotNumeric));
    assert_eq!(parse_repetitions("12x"), Err(RepErr::NotNumeric));
    assert_eq!(parse_repetitions("+5"), Err(RepErr::NotNumeric));
}

#[test]
fn repetitions_rejects_overflow() {
    assert_eq!(parse_repetitions("4294967296"), Err(RepErr::OutOfRange));
    assert_eq!(parse_repetitions("99999999999"), Err(RepErr::OutOfRange));
}

#[test]
fn ts_pattern_renders_capture_name() {
    assert_eq!(make_ts_pattern("ts"), "\\[(?P<ts>[^\\]]+)\\]");
    assert_eq!(make_ts_pattern("ts_beg"), "\\[(?P<ts_beg>[^\\]]+)\\]");
}
