use indexmap::IndexMap;
use parse_ocr_tracker::logger::{level_filter_from, level_filter_from_lowered, level_name};
use parse_ocr_tracker::report::stamp_for_file_name;
use parse_ocr_tracker::{
    csv_output_path, elapsed_text, prepare_json, LevelFilter, LogLevel, ReportValue,
    SimpleLogger,
};

fn value(report: &IndexMap<String, ReportValue>, i: usize) -> &ReportValue {
    report.get_index(i).unwrap().1
}

#[test]
fn csv_path_from_stamp() {
    assert_eq!(
        csv_output_path("/out", "2024-05-01_12:34:56_-04:00"),
        Some("/out/tracker_output_2024-05-01_12-34-56.csv".to_string())
    );
    assert_eq!(
        csv_output_path("out", "  2024-05-01T12:34:56 EDT"),
        Some("out/tracker_output_2024-05-01T12-34-56.csv".to_string())
    );
}

#[test]
fn short_stamp_has_no_file_name() {
    assert_eq!(csv_output_path("/out", "2024-05-01"), None);
    assert_eq!(csv_output_path("/out", "2024-05-01 12:34:56"), None);
    assert_eq!(csv_output_path("/out", ""), None);
    assert_eq!(stamp_for_file_name("1234567890123456789"), Some("1234567890123456789".to_string()));
}

#[test]
fn elapsed_in_seconds_and_minutes() {
    assert_eq!(elapsed_text(0), "0.0 seconds");
    assert_eq!(elapsed_text(1234), "1.2 seconds");
    assert_eq!(elapsed_text(1250), "1.3 seconds");
    assert_eq!(elapsed_text(59_940), "59.9 seconds");
    assert_eq!(elapsed_text(59_960), "60.0 seconds");
    assert_eq!(elapsed_text(60_000), "1.0 minutes");
    assert_eq!(elapsed_text(150_000), "2.5 minutes");
    assert_eq!(elapsed_text(3_600_000), "60.0 minutes");
}

#[test]
fn report_entries_in_order() {
    let report = prepare_json(
        "/src",
        "/out",
        "debug".to_string(),
        Some("/out/t.csv".to_string()),
        7,
        2,
        vec!["/src/a/error.txt".to_string()],
        90_000,
        "2024-05-01_12:34:56_-04:00".to_string(),
    );
    let keys: Vec<&str> = report.keys().map(|k| k.as_str()).collect();
    assert_eq!(
        keys,
        vec![
            "datetime_stamp",
            "time_taken",
            "source_dir_path",
            "output_dir_path",
            "log_level",
            "tracker_output_csv_path",
            "ocr_data_vector_count",
            "rejected_files_count_(org_tracker_files)",
            "error_paths",
        ]
    );
    assert!(matches!(value(&report, 0), ReportValue::Text(s) if s == "2024-05-01_12:34:56_-04:00"));
    assert!(matches!(value(&report, 1), ReportValue::Text(s) if s == "1.5 minutes"));
    assert!(matches!(value(&report, 2), ReportValue::Text(s) if s == "/src"));
    assert!(matches!(value(&report, 3), ReportValue::Text(s) if s == "/out"));
    assert!(
        matches!(value(&report, 4), ReportValue::Text(s) if s == "`debug`; see `--help` for more info")
    );
    assert!(matches!(value(&report, 5), ReportValue::Text(s) if s == "/out/t.csv"));
    assert!(matches!(*value(&report, 6), ReportValue::Count(7)));
    assert!(matches!(*value(&report, 7), ReportValue::Count(2)));
    assert!(matches!(value(&report, 8), ReportValue::TextList(v) if v == &vec!["/src/a/error.txt".to_string()]));
}

#[test]
fn report_without_table_has_null_path() {
    let report = prepare_json("/s", "/o", "warn".to_string(), None, 0, 0, Vec::new(), 10, "x".to_string());
    assert!(matches!(*value(&report, 5), ReportValue::Null));
    assert!(matches!(value(&report, 8), ReportValue::TextList(v) if v.is_empty()));
    assert!(matches!(value(&report, 1), ReportValue::Text(s) if s == "0.0 seconds"));
}

#[test]
fn logger_prints_up_to_debug() {
    let logger = SimpleLogger;
    assert!(logger.enabled(LogLevel::Error));
    assert!(logger.enabled(LogLevel::Debug));
    assert!(!logger.enabled(LogLevel::Trace));
    assert_eq!(
        logger.log("01/May/2024 12:34:56", LogLevel::Info, Some("src/helper.rs"), Some(42), "hello"),
        Some("[01/May/2024 12:34:56] INFO [src/helper.rs::42] hello".to_string())
    );
    assert_eq!(
        logger.log("t", LogLevel::Warn, None, None, "m"),
        Some("[t] WARN [<unknown>::0] m".to_string())
    );
    assert_eq!(logger.log("t", LogLevel::Trace, None, None, "m"), None);
    assert_eq!(level_name(LogLevel::Error), "ERROR");
}

#[test]
fn log_level_setting() {
    assert_eq!(level_filter_from(None), LevelFilter::Warn);
    assert_eq!(level_filter_from(Some("DEBUG")), LevelFilter::Debug);
    assert_eq!(level_filter_from(Some("Info")), LevelFilter::Info);
    assert_eq!(level_filter_from(Some("verbose")), LevelFilter::Warn);
    assert_eq!(level_filter_from_lowered("debug"), LevelFilter::Debug);
    assert_eq!(level_filter_from_lowered("DEBUG"), LevelFilter::Warn);
}
