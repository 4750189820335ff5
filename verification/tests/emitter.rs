//! Each scalar kind emitted through the value emitter yields exactly one
//! map entry whose value round-trips through the backend's decoder.

use slog_json::emit::ValueEmitter;

fn one_entry(emit: impl FnOnce(&mut ValueEmitter)) -> Vec<u8> {
    let mut em = ValueEmitter::start(None);
    emit(&mut em);
    em.end()
}

fn decode(bytes: &[u8]) -> serde_json::Value {
    serde_json::from_slice(bytes).expect("document must be valid JSON")
}

#[test]
fn bool_round_trip() {
    let doc = one_entry(|em| {
        em.emit_bool("k", true).unwrap();
    });
    assert_eq!(decode(&doc)["k"], serde_json::Value::Bool(true));
    let doc = one_entry(|em| {
        em.emit_bool("k", false).unwrap();
    });
    assert_eq!(decode(&doc)["k"], serde_json::Value::Bool(false));
}

#[test]
fn unit_and_none_are_null() {
    let doc = one_entry(|em| {
        em.emit_unit("k").unwrap();
    });
    assert!(decode(&doc)["k"].is_null());
    let doc = one_entry(|em| {
        em.emit_none("k").unwrap();
    });
    assert!(decode(&doc)["k"].is_null());
}

#[test]
fn char_round_trip() {
    let doc = one_entry(|em| {
        em.emit_char("k", 'x').unwrap();
    });
    assert_eq!(decode(&doc)["k"], serde_json::Value::String("x".to_string()));
    // a character that needs escaping
    let doc = one_entry(|em| {
        em.emit_char("k", '\n').unwrap();
    });
    assert_eq!(decode(&doc)["k"], serde_json::Value::String("\n".to_string()));
    assert_eq!(doc.iter().filter(|&&b| b == b'\n').count(), 0);
}

#[test]
fn unsigned_boundaries_round_trip() {
    for (doc, expect) in [
        (one_entry(|em| { em.emit_u8("k", 0).unwrap(); }), 0u64),
        (one_entry(|em| { em.emit_u8("k", u8::MAX).unwrap(); }), u8::MAX as u64),
        (one_entry(|em| { em.emit_u16("k", u16::MAX).unwrap(); }), u16::MAX as u64),
        (one_entry(|em| { em.emit_u32("k", u32::MAX).unwrap(); }), u32::MAX as u64),
        (one_entry(|em| { em.emit_u64("k", u64::MAX).unwrap(); }), u64::MAX),
        (one_entry(|em| { em.emit_usize("k", usize::MAX).unwrap(); }), usize::MAX as u64),
        (one_entry(|em| { em.emit_u64("k", 0).unwrap(); }), 0u64),
    ] {
        assert_eq!(decode(&doc)["k"].as_u64(), Some(expect));
    }
}

#[test]
fn signed_boundaries_round_trip() {
    for (doc, expect) in [
        (one_entry(|em| { em.emit_i8("k", i8::MIN).unwrap(); }), i8::MIN as i64),
        (one_entry(|em| { em.emit_i8("k", i8::MAX).unwrap(); }), i8::MAX as i64),
        (one_entry(|em| { em.emit_i16("k", i16::MIN).unwrap(); }), i16::MIN as i64),
        (one_entry(|em| { em.emit_i32("k", i32::MIN).unwrap(); }), i32::MIN as i64),
        (one_entry(|em| { em.emit_i64("k", i64::MIN).unwrap(); }), i64::MIN),
        (one_entry(|em| { em.emit_i64("k", i64::MAX).unwrap(); }), i64::MAX),
        (one_entry(|em| { em.emit_isize("k", isize::MIN).unwrap(); }), isize::MIN as i64),
        (one_entry(|em| { em.emit_i64("k", 0).unwrap(); }), 0i64),
        (one_entry(|em| { em.emit_i64("k", -1).unwrap(); }), -1i64),
    ] {
        assert_eq!(decode(&doc)["k"].as_i64(), Some(expect));
    }
}

#[test]
fn str_round_trip() {
    let doc = one_entry(|em| {
        em.emit_str("k", "").unwrap();
    });
    assert_eq!(decode(&doc)["k"], serde_json::Value::String(String::new()));
    let tricky = "h\u{e9}llo \"quoted\" \\ line\nbreak";
    let doc = one_entry(|em| {
        em.emit_str("k", tricky).unwrap();
    });
    assert_eq!(
        decode(&doc)["k"],
        serde_json::Value::String(tricky.to_string()),
        "escaping must round-trip, not pass the text through verbatim"
    );
    assert_eq!(doc.iter().filter(|&&b| b == b'\n').count(), 0);
}

#[test]
fn keys_are_escaped_too() {
    let doc = one_entry(|em| {
        em.emit_bool("we\"ird\nkey", true).unwrap();
    });
    assert_eq!(decode(&doc)["we\"ird\nkey"], serde_json::Value::Bool(true));
}

#[test]
fn raw_carries_preencoded_floats() {
    let bytes = serde_json::to_vec(&3.25f64).unwrap();
    let doc = one_entry(|em| {
        em.emit_raw("k", &bytes).unwrap();
    });
    assert_eq!(decode(&doc)["k"].as_f64(), Some(3.25));
    let bytes = serde_json::to_vec(&(-0.5f32)).unwrap();
    let doc = one_entry(|em| {
        em.emit_raw("k", &bytes).unwrap();
    });
    assert_eq!(decode(&doc)["k"].as_f64(), Some(-0.5));
    let bytes = serde_json::to_vec(&0.0f64).unwrap();
    let doc = one_entry(|em| {
        em.emit_raw("k", &bytes).unwrap();
    });
    assert_eq!(decode(&doc)["k"].as_f64(), Some(0.0));
    // non-finite floats encode as null at the backend
    for v in [f64::NAN, f64::INFINITY, f64::NEG_INFINITY] {
        let bytes = serde_json::to_vec(&v).unwrap();
        let doc = one_entry(|em| {
            em.emit_raw("k", &bytes).unwrap();
        });
        assert!(decode(&doc)["k"].is_null());
    }
}

#[test]
fn raw_rejects_control_and_non_ascii_bytes() {
    let mut em = ValueEmitter::start(None);
    assert!(em.emit_raw("k", &vec![b'1', b'\n']).is_err());
    assert!(em.emit_raw("k", &vec![0xC3, 0xA9]).is_err());
    // the refused entries left nothing behind
    em.emit_bool("ok", true).unwrap();
    let doc = em.end();
    let v = decode(&doc);
    assert_eq!(v.as_object().unwrap().len(), 1);
    assert_eq!(v["ok"], serde_json::Value::Bool(true));
}

#[test]
fn entries_stay_in_call_order() {
    let mut em = ValueEmitter::start(None);
    em.emit_u8("first", 1).unwrap();
    em.emit_u8("second", 2).unwrap();
    em.emit_u8("third", 3).unwrap();
    let doc = String::from_utf8(em.end()).unwrap();
    let a = doc.find("\"first\"").unwrap();
    let b = doc.find("\"second\"").unwrap();
    let c = doc.find("\"third\"").unwrap();
    assert!(a < b && b < c);
}

#[test]
fn empty_session_is_empty_object() {
    let em = ValueEmitter::start(Some(0));
    assert_eq!(em.end(), b"{}".to_vec());
}
