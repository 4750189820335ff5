//! End-to-end behavior of the record encoder: entry order, newline
//! framing, level codes, failure propagation.

use slog_json::encode::Json;
use slog_json::level::{Level, level_to_string};
use slog_json::sink::Sink;
use slog_json::value::{KeyValueGroup, Msg, Record, Value};

fn group(pairs: &[(&str, Value)]) -> KeyValueGroup {
    let mut g = KeyValueGroup::new();
    for (k, v) in pairs {
        g.add(k.to_string(), v.clone());
    }
    g
}

fn record(level: Level, msg: &str, pairs: &[(&str, Value)]) -> Record<'static> {
    Record { level, msg: Msg::Text(msg.to_string()), kv: group(pairs) }
}

fn key_positions(doc: &str, keys: &[&str]) -> Vec<usize> {
    keys.iter()
        .map(|k| doc.find(&format!("\"{}\"", k)).unwrap_or_else(|| panic!("missing key {}", k)))
        .collect()
}

fn assert_increasing(xs: &[usize]) {
    for w in xs.windows(2) {
        assert!(w[0] < w[1], "keys out of order");
    }
}

#[test]
fn order_defaults_then_ancestors_then_record() {
    let mut j = Json::default(Sink::new());
    let rec = record(Level::Info, "m", &[("b", Value::U8(2))]);
    let ancestors = vec![group(&[("a", Value::U8(1))])];
    let mut scratch = String::new();
    j.encode_with_ts("2020-01-01T00:00:00+00:00", &rec, &vec![], &ancestors, &mut scratch).unwrap();
    let doc = String::from_utf8(j.take_output()).unwrap();
    assert_increasing(&key_positions(&doc, &["ts", "level", "msg", "a", "b"]));
}

#[test]
fn order_custom_groups_in_configuration_order() {
    let b = Json::new(Sink::new());
    let b = b.add_key_value(group(&[("g1", Value::U8(1))]));
    let b = b.add_default_keys();
    let b = b.add_key_value(group(&[("g2", Value::U8(2))]));
    let mut j = b.build();
    let rec = record(Level::Debug, "m", &[("own", Value::U8(3))]);
    let mut scratch = String::new();
    j.encode_with_ts("t", &rec, &vec![], &vec![], &mut scratch).unwrap();
    let doc = String::from_utf8(j.take_output()).unwrap();
    assert_increasing(&key_positions(&doc, &["g1", "ts", "level", "msg", "g2", "own"]));
}

#[test]
fn order_ancestor_groups_outermost_first() {
    let mut j = Json::new(Sink::new()).build();
    let rec = record(Level::Trace, "m", &[("leaf", Value::U8(9))]);
    let ancestors = vec![
        group(&[("outer", Value::U8(1))]),
        group(&[("middle", Value::U8(2))]),
        group(&[("inner", Value::U8(3))]),
    ];
    let mut scratch = String::new();
    j.encode_with_ts("t", &rec, &vec![], &ancestors, &mut scratch).unwrap();
    let doc = String::from_utf8(j.take_output()).unwrap();
    assert_increasing(&key_positions(&doc, &["outer", "middle", "inner", "leaf"]));
}

#[test]
fn duplicate_keys_are_kept_in_order() {
    let mut j = Json::new(Sink::new()).build();
    let rec = record(Level::Info, "m", &[("dup", Value::U8(2))]);
    let ancestors = vec![group(&[("dup", Value::U8(1))])];
    let mut scratch = String::new();
    j.encode_with_ts("t", &rec, &vec![], &ancestors, &mut scratch).unwrap();
    let doc = String::from_utf8(j.take_output()).unwrap();
    assert_eq!(doc.matches("\"dup\"").count(), 2);
}

#[test]
fn newline_on_exactly_one_per_record() {
    let mut j = Json::default(Sink::new());
    let rec = record(Level::Info, "one", &[]);
    let mut scratch = String::new();
    j.encode(&rec, &vec![], &vec![], &mut scratch).unwrap();
    j.encode(&rec, &vec![], &vec![], &mut scratch).unwrap();
    let out = j.take_output();
    let doc = String::from_utf8(out).unwrap();
    assert_eq!(doc.matches('\n').count(), 2, "one newline per record");
    assert!(doc.ends_with('\n'));
    let lines: Vec<&str> = doc.lines().collect();
    assert_eq!(lines.len(), 2);
    for line in lines {
        assert!(serde_json::from_str::<serde_json::Value>(line).is_ok());
    }
}

#[test]
fn newline_off_appends_nothing() {
    let mut j = Json::new(Sink::new()).set_newlines(false).add_default_keys().build();
    let rec = record(Level::Info, "one", &[]);
    let mut scratch = String::new();
    j.encode(&rec, &vec![], &vec![], &mut scratch).unwrap();
    let doc = String::from_utf8(j.take_output()).unwrap();
    assert_eq!(doc.matches('\n').count(), 0);
    assert!(doc.ends_with('}'));
}

#[test]
fn level_codes_are_total_and_fixed() {
    let cases = [
        (Level::Critical, "CRIT"),
        (Level::Error, "ERRO"),
        (Level::Warning, "WARN"),
        (Level::Info, "INFO"),
        (Level::Debug, "DEBG"),
        (Level::Trace, "TRCE"),
    ];
    for (l, code) in cases {
        assert_eq!(level_to_string(l), code);
        assert_eq!(level_to_string(l), code, "deterministic on a second call");
        assert_eq!(code.len(), 4);
    }
}

#[test]
fn failing_sink_propagates_and_stops_short() {
    // far too small for the document: nothing is written at all
    let mut j = Json::new(Sink::with_limit(3)).build();
    let rec = record(Level::Info, "m", &[("k", Value::U8(1))]);
    let mut scratch = String::new();
    let r = j.encode_with_ts("t", &rec, &vec![], &vec![], &mut scratch);
    assert!(r.is_err());
    assert_eq!(r.unwrap_err().as_str(), "serde serialization error");
    assert_eq!(j.take_output().len(), 0, "a refused write leaves no partial bytes");
}

#[test]
fn failing_newline_write_stops_after_document() {
    // measure the document first
    let mut probe = Json::new(Sink::new()).set_newlines(false).build();
    let rec = record(Level::Warning, "m", &[]);
    let mut scratch = String::new();
    probe.encode_with_ts("t", &rec, &vec![], &vec![], &mut scratch).unwrap();
    let doc = probe.take_output();

    // room for the document but not the newline
    let mut j = Json::new(Sink::with_limit(doc.len())).build();
    let rec = record(Level::Warning, "m", &[]);
    let r = j.encode_with_ts("t", &rec, &vec![], &vec![], &mut scratch);
    assert!(r.is_err());
    let out = j.take_output();
    assert_eq!(out, doc, "the document went out; nothing was written after the failing write");
}

#[test]
fn invalid_raw_value_fails_before_any_sink_write() {
    let mut j = Json::new(Sink::new()).build();
    let rec = record(Level::Info, "m", &[("bad", Value::Raw(vec![0x01]))]);
    let mut scratch = String::new();
    assert!(j.encode_with_ts("t", &rec, &vec![], &vec![], &mut scratch).is_err());
    assert_eq!(j.take_output().len(), 0);
}

#[test]
fn end_to_end_default_fields_info_hello_world() {
    let mut j = Json::default(Sink::new());
    let msg = format!("hello {}", "world");
    let rec = Record { level: Level::Info, msg: Msg::Text(msg), kv: KeyValueGroup::new() };
    let mut scratch = String::new();
    j.encode(&rec, &vec![], &vec![], &mut scratch).unwrap();
    let out = String::from_utf8(j.take_output()).unwrap();
    assert!(out.ends_with('\n'));
    let line = out.trim_end_matches('\n');
    assert_eq!(line.matches('\n').count(), 0);
    let v: serde_json::Value = serde_json::from_str(line).unwrap();
    let obj = v.as_object().unwrap();
    assert_eq!(obj.len(), 3, "no keys besides ts, level, msg");
    assert_eq!(obj["level"], serde_json::Value::String("INFO".to_string()));
    assert_eq!(obj["msg"], serde_json::Value::String("hello world".to_string()));
    let ts = obj["ts"].as_str().unwrap();
    assert!(
        chrono::DateTime::parse_from_rfc3339(ts).is_ok(),
        "ts must be a syntactically valid RFC 3339 string"
    );
}

#[test]
fn all_eager_scalars_encode_through_a_record() {
    let mut j = Json::new(Sink::new()).build();
    let rec = record(
        Level::Error,
        "m",
        &[
            ("b", Value::Bool(true)),
            ("u", Value::Unit),
            ("n", Value::Absent),
            ("c", Value::Char('z')),
            ("i", Value::I32(-7)),
            ("s", Value::Str("text".to_string())),
        ],
    );
    let mut scratch = String::new();
    j.encode_with_ts("t", &rec, &vec![], &vec![], &mut scratch).unwrap();
    let v: serde_json::Value =
        serde_json::from_slice(&j.take_output()[..].split_last().unwrap().1).unwrap();
    assert_eq!(v["b"], serde_json::Value::Bool(true));
    assert!(v["u"].is_null());
    assert!(v["n"].is_null());
    assert_eq!(v["c"], serde_json::Value::String("z".to_string()));
    assert_eq!(v["i"].as_i64(), Some(-7));
    assert_eq!(v["s"], serde_json::Value::String("text".to_string()));
}

#[test]
fn free_constructors_match_the_builder() {
    let mut j = slog_json::encode::default(Sink::new());
    let rec = record(Level::Info, "m", &[]);
    let mut scratch = String::new();
    j.encode_with_ts("t", &rec, &vec![], &vec![], &mut scratch).unwrap();
    let doc = String::from_utf8(j.take_output()).unwrap();
    assert_increasing(&key_positions(&doc, &["ts", "level", "msg"]));

    let mut j = slog_json::encode::custom(Sink::new()).set_newlines(false).build();
    j.encode_with_ts("t", &rec, &vec![], &vec![], &mut scratch).unwrap();
    let doc = String::from_utf8(j.take_output()).unwrap();
    assert_eq!(doc, "{}");
}

#[test]
fn output_reads_without_draining() {
    let mut j = Json::new(Sink::new()).set_newlines(false).build();
    let rec = record(Level::Info, "m", &[("k", Value::Bool(true))]);
    let mut scratch = String::new();
    j.encode_with_ts("t", &rec, &vec![], &vec![], &mut scratch).unwrap();
    assert_eq!(j.output(), &b"{\"k\":true}".to_vec());
    assert_eq!(j.take_output(), b"{\"k\":true}".to_vec());
    assert_eq!(j.output().len(), 0);
}

#[test]
fn record_derived_groups_stand_between_config_and_ancestors() {
    let mut j = Json::default(Sink::new());
    let rec = record(Level::Info, "m", &[("own", Value::U8(3))]);
    let derived = vec![group(&[("req", Value::Str("r-1".to_string()))])];
    let ancestors = vec![group(&[("anc", Value::U8(1))])];
    let mut scratch = String::new();
    j.encode_with_ts("t", &rec, &derived, &ancestors, &mut scratch).unwrap();
    let doc = String::from_utf8(j.take_output()).unwrap();
    assert_increasing(&key_positions(&doc, &["ts", "level", "msg", "req", "anc", "own"]));
}

#[test]
fn message_matches_direct_formatting_and_leaks_nothing() {
    // the scratch buffer must come back empty, and a second record's
    // message must contain nothing of the first's
    let mut j = Json::default(Sink::new());
    let first = format!("{} {} {}", "alpha", 17, 'z');
    let rec = Record {
        level: Level::Info,
        msg: Msg::Text(first.clone()),
        kv: KeyValueGroup::new(),
    };
    let mut scratch = String::new();
    j.encode(&rec, &vec![], &vec![], &mut scratch).unwrap();
    assert!(scratch.is_empty(), "scratch must be clear after the record");
    let rec2 = Record {
        level: Level::Info,
        msg: Msg::Text("second".to_string()),
        kv: KeyValueGroup::new(),
    };
    j.encode(&rec2, &vec![], &vec![], &mut scratch).unwrap();
    assert!(scratch.is_empty());
    let out = String::from_utf8(j.take_output()).unwrap();
    let lines: Vec<&str> = out.lines().collect();
    let v1: serde_json::Value = serde_json::from_str(lines[0]).unwrap();
    assert_eq!(v1["msg"], serde_json::Value::String(first.clone()));
    let v2: serde_json::Value = serde_json::from_str(lines[1]).unwrap();
    assert_eq!(v2["msg"], serde_json::Value::String("second".to_string()));
    for piece in ["alpha", "17"] {
        assert!(!v2["msg"].as_str().unwrap().contains(piece));
    }
}
