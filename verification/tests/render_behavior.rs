//! Behavior of the value renderer: classification priority, integer
//! round-trips, CSV escaping, conversion-target selection.

use pq::OutputFormat;
use pq::error::PqError;
use pq::render::FloatProbe;
use pq::render::Rendered;
use pq::render::classify;
use pq::render::classify_extension;
use pq::render::escape_csv;
use pq::render::parse_i64;
use pq::render::render_bool;
use pq::render::render_i64;

/// What the machine's float parser makes of a text, reported honestly.
fn probe_of(s: &str) -> FloatProbe {
    match s.parse::<f64>() {
        Ok(x) if x.is_finite() => FloatProbe::Finite,
        Ok(_) => FloatProbe::NonFinite,
        Err(_) => FloatProbe::NotFloat,
    }
}

fn classify_real(s: &str) -> Rendered {
    classify(s, probe_of(s))
}

#[test]
fn classification_scenarios() {
    assert_eq!(classify_real(""), Rendered::Null);
    assert_eq!(classify_real("null"), Rendered::Null);
    assert_eq!(classify_real("true"), Rendered::Bool(true));
    assert_eq!(classify_real("false"), Rendered::Bool(false));
    assert_eq!(classify_real("3.14"), Rendered::Float("3.14".to_string()));
    assert_eq!(classify_real("abc"), Rendered::Text("abc".to_string()));
    assert_eq!(classify_real("42"), Rendered::Int(42));
    assert_eq!(classify_real("-7"), Rendered::Int(-7));
}

#[test]
fn non_finite_floats_fall_back_to_text() {
    assert_eq!(probe_of("NaN"), FloatProbe::NonFinite);
    assert_eq!(classify_real("NaN"), Rendered::Text("NaN".to_string()));
    assert_eq!(classify_real("inf"), Rendered::Text("inf".to_string()));
    assert_eq!(classify_real("1e999"), Rendered::Text("1e999".to_string()));
}

#[test]
fn integer_overflow_becomes_float() {
    // One past the 64-bit range: no integer, but a finite float.
    assert_eq!(parse_i64("9223372036854775808"), None);
    assert_eq!(
        classify_real("9223372036854775808"),
        Rendered::Float("9223372036854775808".to_string())
    );
}

#[test]
fn parse_i64_accepts_exactly_the_range() {
    assert_eq!(parse_i64("0"), Some(0));
    assert_eq!(parse_i64("+17"), Some(17));
    assert_eq!(parse_i64("-17"), Some(-17));
    assert_eq!(parse_i64("9223372036854775807"), Some(i64::MAX));
    assert_eq!(parse_i64("-9223372036854775808"), Some(i64::MIN));
    assert_eq!(parse_i64("-9223372036854775809"), None);
    assert_eq!(parse_i64(""), None);
    assert_eq!(parse_i64("-"), None);
    assert_eq!(parse_i64("12a"), None);
    assert_eq!(parse_i64("1.5"), None);
}

#[test]
fn parse_agrees_with_the_machine_parser() {
    for s in [
        "0", "7", "-7", "+123", "0012", "9223372036854775807", "-9223372036854775808",
        "9223372036854775808", "x", "", " 1", "1 ", "--2",
    ] {
        assert_eq!(parse_i64(s), s.parse::<i64>().ok(), "on input {:?}", s);
    }
}

#[test]
fn render_then_classify_recovers_integers() {
    for v in [0i64, 1, -1, 42, -99, 1000000, i64::MAX, i64::MIN] {
        let text = render_i64(v);
        assert_eq!(classify_real(&text), Rendered::Int(v), "on value {}", v);
    }
}

#[test]
fn render_then_classify_recovers_booleans() {
    for b in [true, false] {
        let text = render_bool(b);
        assert_eq!(classify_real(&text), Rendered::Bool(b));
    }
}

#[test]
fn render_i64_exact_texts() {
    assert_eq!(render_i64(0), "0");
    assert_eq!(render_i64(305), "305");
    assert_eq!(render_i64(-1), "-1");
    assert_eq!(render_i64(i64::MAX), "9223372036854775807");
    assert_eq!(render_i64(i64::MIN), "-9223372036854775808");
}

#[test]
fn csv_escaping() {
    assert_eq!(escape_csv("plain"), "plain");
    assert_eq!(escape_csv(""), "");
    assert_eq!(escape_csv("a,b"), "\"a,b\"");
    assert_eq!(escape_csv("say \"hi\""), "\"say \"\"hi\"\"\"");
    assert_eq!(escape_csv("line1\nline2"), "\"line1\nline2\"");
}

#[test]
fn conversion_target_by_extension() {
    assert_eq!(classify_extension(Some("csv")), Ok(OutputFormat::Csv));
    assert_eq!(classify_extension(Some("JSON")), Ok(OutputFormat::Json));
    assert_eq!(classify_extension(Some("jsonl")), Ok(OutputFormat::Jsonl));
    match classify_extension(Some("xml")) {
        Err(PqError::UnsupportedFormat { format, supported }) => {
            assert_eq!(format, "xml");
            assert_eq!(supported, "csv, json, jsonl");
        }
        other => panic!("expected unsupported format, got: {:?}", other),
    }
    match classify_extension(None) {
        Err(PqError::UnsupportedFormat { format, .. }) => {
            assert_eq!(format, "(no extension)");
        }
        other => panic!("expected unsupported format, got: {:?}", other),
    }
}
