use parse_ocr_tracker::index::ingest_pid;
use parse_ocr_tracker::{
    make_id_to_pid_map, prepare_json, process_file, process_files, ReportValue, TrackerFile,
};

fn file(path: &str, contents: Option<&str>) -> TrackerFile {
    TrackerFile { path: path.to_string(), contents: contents.map(|c| c.to_string()) }
}

fn ocr_json(image: &str) -> String {
    format!(
        "{{\"orientation\": 0, \"orientation_conf\": 1.5, \"script\": \"Latin\", \
         \"script_conf\": 2.0, \"image_name\": \"{}\", \"word_count\": 10, \
         \"avg_confidence\": 90.0, \"below_90\": 0.1, \"below_60\": 0.05, \"below_30\": 0.01}}",
        image
    )
}

#[test]
fn ingest_pid_reads_the_pid() {
    assert_eq!(ingest_pid("{\"pid\": \"bdr:1\"}"), Some("bdr:1".to_string()));
    assert_eq!(ingest_pid("{\"pid\": \"bdr:1\", \"id\": null, \"x\": 3}"), Some("bdr:1".to_string()));
    assert_eq!(ingest_pid("{\"pid\": 5}"), None);
    assert_eq!(ingest_pid("{\"pid\": \"bdr:1\", \"id\": 5}"), None);
    assert_eq!(ingest_pid("{\"id\": \"x\"}"), None);
    assert_eq!(ingest_pid("not json"), None);
}

#[test]
fn index_skips_unreadable_and_malformed_files() {
    let files = vec![
        file("/i/A-ingest_complete.json", Some("{\"pid\": \"p-a\"}")),
        file("/i/B-ingest_complete.json", None),
        file("/i/C-ingest_complete.json", Some("{\"nope\": 1}")),
    ];
    let index = make_id_to_pid_map(files);
    assert_eq!(index.get("A").map(|s| s.as_str()), Some("p-a"));
    assert_eq!(index.get("B"), None);
    assert_eq!(index.get("C"), None);
}

#[test]
fn index_last_file_wins_on_a_shared_key() {
    let files = vec![
        file("/i/x/K-ingest_complete.json", Some("{\"pid\": \"first\"}")),
        file("/i/y/K-ingest_complete.json", Some("{\"pid\": \"second\"}")),
    ];
    let index = make_id_to_pid_map(files);
    assert_eq!(index.get("K").map(|s| s.as_str()), Some("second"));
}

#[test]
fn index_built_twice_is_identical() {
    let make = || {
        vec![
            file("/i/A-ingest_complete.json", Some("{\"pid\": \"p-a\"}")),
            file("/i/B-ingest_complete.json", Some("{\"pid\": \"p-b\"}")),
            file("/i/A2-ingest_complete.json", Some("{\"pid\": \"p-a2\"}")),
        ]
    };
    let first = make_id_to_pid_map(make());
    let second = make_id_to_pid_map(make());
    for key in ["A", "B", "A2", "Z"] {
        assert_eq!(first.get(key), second.get(key));
    }
}

#[test]
fn matched_key_is_enriched() {
    let index = make_id_to_pid_map(vec![file(
        "/i/K1-ingest_complete.json",
        Some("{\"pid\": \"abc123\"}"),
    )]);
    let rec = process_file(&file("/o/K1/K1-ocr_complete.json", Some(&ocr_json("K1.jpg"))), &index)
        .ok()
        .unwrap();
    assert_eq!(rec.pid.as_deref(), Some("abc123"));
    assert_eq!(
        rec.pid_url.as_deref(),
        Some(" https://repository.library.brown.edu/studio/item/abc123/")
    );
}

#[test]
fn unmatched_key_is_kept_without_identifier() {
    let index = make_id_to_pid_map(vec![file(
        "/i/K1-ingest_complete.json",
        Some("{\"pid\": \"abc123\"}"),
    )]);
    let results =
        process_files(vec![file("/o/K2-ocr_complete.json", Some(&ocr_json("K2.jpg")))], &index);
    assert_eq!(results.extracted_data_files.len(), 1);
    assert!(results.rejected_paths.is_empty());
    assert_eq!(results.extracted_data_files[0].pid, None);
    assert_eq!(results.extracted_data_files[0].pid_url, None);
}

#[test]
fn malformed_file_is_rejected_alone() {
    let index = make_id_to_pid_map(Vec::new());
    let files = vec![
        file("/o/A-ocr_complete.json", Some(&ocr_json("A.jpg"))),
        file("/o/B-ocr_complete.json", Some("{\"orientation\": 0}")),
        file("/o/C-ocr_complete.json", Some(&ocr_json("C.jpg"))),
        file("/o/D-ocr_complete.json", None),
    ];
    let n = files.len();
    let results = process_files(files, &index);
    assert_eq!(results.rejected_paths, vec!["/o/B-ocr_complete.json", "/o/D-ocr_complete.json"]);
    let names: Vec<&str> =
        results.extracted_data_files.iter().map(|r| r.image_name.as_str()).collect();
    assert_eq!(names, vec!["A.jpg", "C.jpg"]);
    assert_eq!(results.extracted_data_files.len() + results.rejected_paths.len(), n);
}

#[test]
fn end_to_end_counts() {
    let ingest = vec![
        file("/s/K1/K1-ingest_complete.json", Some("{\"pid\": \"bdr:1\"}")),
        file("/s/K2/K2-ingest_complete.json", Some("{\"pid\": \"bdr:2\"}")),
        file("/s/K3/K3-ingest_complete.json", Some("{\"pid\": \"bdr:3\"}")),
    ];
    let ocr = vec![
        file("/s/K1/K1-ocr_complete.json", Some(&ocr_json("K1.jpg"))),
        file("/s/K2/K2-ocr_complete.json", Some(&ocr_json("K2.jpg"))),
        file("/s/K3/K3-ocr_complete.json", Some(&ocr_json("K3.jpg"))),
        file("/s/K4/K4-ocr_complete.json", Some(&ocr_json("K4.jpg"))),
        file("/s/K5/K5-ocr_complete.json", Some("{\"script\": \"Latin\"}")),
    ];
    let index = make_id_to_pid_map(ingest);
    let results = process_files(ocr, &index);
    assert_eq!(results.extracted_data_files.len(), 4);
    assert_eq!(results.rejected_paths, vec!["/s/K5/K5-ocr_complete.json"]);
    let enriched = results.extracted_data_files.iter().filter(|r| r.pid.is_some()).count();
    assert_eq!(enriched, 3);
    assert_eq!(results.extracted_data_files[3].pid, None);
    let report = prepare_json(
        "/s",
        "/out",
        "warn".to_string(),
        None,
        results.extracted_data_files.len(),
        results.rejected_paths.len(),
        Vec::new(),
        1200,
        "2024-05-01_12:34:56_-04:00".to_string(),
    );
    assert!(matches!(report.get("ocr_data_vector_count"), Some(ReportValue::Count(4))));
    assert!(matches!(
        report.get("rejected_files_count_(org_tracker_files)"),
        Some(ReportValue::Count(1))
    ));
}
