use parse_ocr_tracker::json::parse_i64;
use parse_ocr_tracker::tracker::parse_ocr_record;
use parse_ocr_tracker::{DecodeError, FieldError, OcrField};

const FULL: &str = r#"{
    "orientation": 90,
    "orientation_conf": 2.5,
    "script": "Latin",
    "script_conf": 1.25,
    "image_name": "HH1_0001.jpg",
    "word_count": 120,
    "avg_confidence": 91.5,
    "below_90": 0.2,
    "below_60": 0.1,
    "below_30": 0,
    "extra": [1, 2]
}"#;

#[test]
fn decodes_a_full_record() {
    let rec = parse_ocr_record(FULL).unwrap();
    assert_eq!(rec.orientation, 90);
    assert_eq!(rec.orientation_conf.text, "2.5");
    assert_eq!(rec.script, "Latin");
    assert_eq!(rec.script_conf.text, "1.25");
    assert_eq!(rec.image_name, "HH1_0001.jpg");
    assert_eq!(rec.word_count, 120);
    assert_eq!(rec.avg_confidence.text, "91.5");
    assert_eq!(rec.below_90.text, "0.2");
    assert_eq!(rec.below_60.text, "0.1");
    assert_eq!(rec.below_30.text, "0");
    assert_eq!(rec.pid, None);
    assert_eq!(rec.pid_url, None);
}

#[test]
fn dash_orientation_conf_reads_as_zero() {
    let text = FULL.replace("\"orientation_conf\": 2.5", "\"orientation_conf\": \"-\"");
    let rec = parse_ocr_record(&text).unwrap();
    assert_eq!(rec.orientation_conf.text.parse::<f64>().unwrap(), 0.0);
}

#[test]
fn dash_orientation_and_script_conf_read_as_zero() {
    let text = FULL
        .replace("\"orientation\": 90", "\"orientation\": \"-\"")
        .replace("\"script_conf\": 1.25", "\"script_conf\": \"-\"");
    let rec = parse_ocr_record(&text).unwrap();
    assert_eq!(rec.orientation, 0);
    assert_eq!(rec.script_conf.text.parse::<f64>().unwrap(), 0.0);
}

#[test]
fn dash_is_not_taken_where_a_plain_number_is_due() {
    let text = FULL.replace("\"word_count\": 120", "\"word_count\": \"-\"");
    assert_eq!(
        parse_ocr_record(&text).err(),
        Some(DecodeError::Member(OcrField::WordCount, FieldError::Invalid))
    );
}

#[test]
fn missing_member_is_reported() {
    let text = FULL.replace("\"script\": \"Latin\",", "");
    assert_eq!(
        parse_ocr_record(&text).err(),
        Some(DecodeError::Member(OcrField::Script, FieldError::Missing))
    );
}

#[test]
fn non_string_pid_is_invalid() {
    let text = FULL.replace("\"extra\": [1, 2]", "\"pid\": 7");
    assert_eq!(
        parse_ocr_record(&text).err(),
        Some(DecodeError::Member(OcrField::Pid, FieldError::Invalid))
    );
}

#[test]
fn orientation_wraps_to_32_bits() {
    let text = FULL.replace("\"orientation\": 90", "\"orientation\": 4294967386");
    assert_eq!(parse_ocr_record(&text).unwrap().orientation, 90);
    let text = FULL.replace("\"orientation\": 90", "\"orientation\": -1");
    assert_eq!(parse_ocr_record(&text).unwrap().orientation, -1);
}

#[test]
fn word_count_must_fit() {
    let text = FULL.replace("\"word_count\": 120", "\"word_count\": 2147483648");
    assert_eq!(
        parse_ocr_record(&text).err(),
        Some(DecodeError::Member(OcrField::WordCount, FieldError::Invalid))
    );
    let text = FULL.replace("\"word_count\": 120", "\"word_count\": 12.0");
    assert!(parse_ocr_record(&text).is_err());
}

#[test]
fn integer_text() {
    assert_eq!(parse_i64("0"), Some(0));
    assert_eq!(parse_i64("-42"), Some(-42));
    assert_eq!(parse_i64("9223372036854775807"), Some(i64::MAX));
    assert_eq!(parse_i64("-9223372036854775808"), Some(i64::MIN));
    assert_eq!(parse_i64("9223372036854775808"), None);
    assert_eq!(parse_i64("1.0"), None);
    assert_eq!(parse_i64("-"), None);
    assert_eq!(parse_i64(""), None);
}

#[test]
fn not_an_object() {
    assert_eq!(parse_ocr_record("[1, 2]").err(), Some(DecodeError::NotAnObject));
    assert_eq!(parse_ocr_record("{\"a\": ").err(), Some(DecodeError::NotAnObject));
    assert_eq!(parse_ocr_record("").err(), Some(DecodeError::NotAnObject));
}
