use parse_ocr_tracker::paths::{classify_file_name, key_from_stem};
use parse_ocr_tracker::{classify, find_json_files, parse_key_from_path, Category};

#[test]
fn key_from_ingest_path() {
    assert_eq!(
        parse_key_from_path("/a/HH001545_0001/HH001545_0001-ingest_complete.json"),
        "HH001545_0001"
    );
}

#[test]
fn key_without_dash_is_whole_stem() {
    assert_eq!(parse_key_from_path("/a/no_dash.json"), "no_dash");
}

#[test]
fn key_without_stem_is_unknown() {
    assert_eq!(parse_key_from_path("/"), "unknown_key");
    assert_eq!(parse_key_from_path("/a/.."), "unknown_key");
}

#[test]
fn ocr_and_ingest_files_share_a_key() {
    let ocr = parse_key_from_path("/x/HH1_0002/HH1_0002-ocr_complete.json");
    let ingest = parse_key_from_path("/y/HH1_0002-ingest_complete.json");
    assert_eq!(ocr, ingest);
    assert_eq!(ocr, "HH1_0002");
}

#[test]
fn key_from_stem_cases() {
    assert_eq!(key_from_stem(Some("abc-def-ghi")), "abc");
    assert_eq!(key_from_stem(Some("-lead")), "");
    assert_eq!(key_from_stem(Some("plain")), "plain");
    assert_eq!(key_from_stem(None), "unknown_key");
}

#[test]
fn classify_by_name_precedence() {
    assert_eq!(classify_file_name(Some("x-ocr_complete.json")), Category::OcrComplete);
    assert_eq!(classify_file_name(Some("x-ingest_complete.json")), Category::IngestComplete);
    assert_eq!(classify_file_name(Some("error-ocr_complete.json")), Category::OcrComplete);
    assert_eq!(classify_file_name(Some("error-ingest_complete.json")), Category::IngestComplete);
    assert_eq!(classify_file_name(Some("some_error_log.txt")), Category::ErrorNamed);
    assert_eq!(classify_file_name(Some("notes.txt")), Category::Other);
    assert_eq!(classify_file_name(None), Category::Other);
}

#[test]
fn classify_reads_the_file_name_only() {
    assert_eq!(classify("/errors/a/x-ocr_complete.json"), Category::OcrComplete);
    assert_eq!(classify("/error_dir/readme.md"), Category::Other);
    assert_eq!(classify("/a/b/ocr_complete.json.bak"), Category::Other);
    assert_eq!(classify("/a/b/last_error.json"), Category::ErrorNamed);
}

#[test]
fn find_json_files_partitions_and_sorts() {
    let paths: Vec<String> = vec![
        "/r/b/B-ocr_complete.json",
        "/r/a/A-ocr_complete.json",
        "/r/b/B-ingest_complete.json",
        "/r/a/A-ingest_complete.json",
        "/r/a/error.txt",
        "/r/a/notes.txt",
        "/r/c/C-ocr_complete.json",
    ]
    .into_iter()
    .map(String::from)
    .collect();
    let total = paths.len();
    let (ocr, ingest, errors, others) = find_json_files(paths);
    assert_eq!(
        ocr,
        vec!["/r/a/A-ocr_complete.json", "/r/b/B-ocr_complete.json", "/r/c/C-ocr_complete.json"]
    );
    assert_eq!(ingest, vec!["/r/a/A-ingest_complete.json", "/r/b/B-ingest_complete.json"]);
    assert_eq!(errors, vec!["/r/a/error.txt"]);
    assert_eq!(others, vec!["/r/a/notes.txt"]);
    assert_eq!(ocr.len() + ingest.len() + errors.len() + others.len(), total);
}

#[test]
fn find_json_files_empty() {
    let (ocr, ingest, errors, others) = find_json_files(Vec::new());
    assert!(ocr.is_empty() && ingest.is_empty() && errors.is_empty() && others.is_empty());
}
