//! Correlates OCR tracker files with ingestion tracker files and summarises a run.

pub mod text;
pub mod paths;
pub mod json;
pub mod tracker;
pub mod index;
pub mod process;
pub mod report;
pub mod logger;

pub use index::{make_id_to_pid_map, IdToPidMap};
pub use logger::{LevelFilter, LogLevel, SimpleLogger};
pub use paths::{classify, find_json_files, parse_key_from_path, Category};
pub use process::{process_file, process_files, PathResults};
pub use report::{csv_output_path, elapsed_text, prepare_json, ReportValue};
pub use tracker::{DecodeError, FieldError, JsonNumber, OcrField, Record, TrackerFile};
