//! Processing the OCR tracker files: decoding, enriching from the index, and
//! parting the records from the rejected paths.

use vstd::prelude::*;

use crate::index::{index_of, last_pid_for, lemma_index_at, IdToPidMap};
use crate::paths::{key_of_path, parse_key_from_path};
use crate::text::push_str;
use crate::tracker::{ocr_text_record_of, parse_ocr_record, Record, RecordView, TrackerFile};

verus! {

/// The public URL of the repository item with identifier `pid`. The leading
/// space is part of the format that readers of the table expect.
pub open spec fn item_url(pid: Seq<char>) -> Seq<char> {
    " https://repository.library.brown.edu/studio/item/"@ + pid + "/"@
}

/// `rec` with the identifier `pid` and the URL derived from it; with no
/// identifier, with neither.
pub open spec fn enriched(rec: RecordView, pid: Option<Seq<char>>) -> RecordView {
    RecordView {
        pid: pid,
        pid_url: match pid {
            Some(p) => Some(item_url(p)),
            None => None,
        },
        ..rec
    }
}

/// What `idx` maps `k` to.
pub open spec fn lookup(idx: Map<Seq<char>, Seq<char>>, k: Seq<char>) -> Option<Seq<char>> {
    if idx.contains_key(k) {
        Some(idx[k])
    } else {
        None
    }
}

/// The enriched record that an OCR tracker file gives, or `None` where it
/// could not be read, is not a JSON object, or does not decode.
pub open spec fn ocr_outcome(f: TrackerFile, idx: Map<Seq<char>, Seq<char>>) -> Option<RecordView> {
    match f.contents {
        None => None,
        Some(t) => match ocr_text_record_of(t@) {
            Ok(rec) => Some(enriched(rec, lookup(idx, key_of_path(f.path@)))),
            Err(_) => None,
        },
    }
}

/// The records that `files` give, in order.
pub open spec fn extracted_of(files: Seq<TrackerFile>, idx: Map<Seq<char>, Seq<char>>) -> Seq<
    RecordView,
>
    decreases files.len(),
{
    if files.len() == 0 {
        Seq::empty()
    } else {
        let rest = extracted_of(files.drop_last(), idx);
        match ocr_outcome(files.last(), idx) {
            Some(rec) => rest.push(rec),
            None => rest,
        }
    }
}

/// The paths of the files of `files` that give no record, in order.
pub open spec fn rejected_of(files: Seq<TrackerFile>, idx: Map<Seq<char>, Seq<char>>) -> Seq<
    Seq<char>,
>
    decreases files.len(),
{
    if files.len() == 0 {
        Seq::empty()
    } else {
        let rest = rejected_of(files.drop_last(), idx);
        match ocr_outcome(files.last(), idx) {
            Some(_) => rest,
            None => rest.push(files.last().path@),
        }
    }
}

/// The records processed, and the paths of the files that were rejected.
pub struct PathResults {
    pub extracted_data_files: Vec<Record>,
    pub rejected_paths: Vec<String>,
}

/// The views of `recs`.
pub open spec fn record_views(recs: Seq<Record>) -> Seq<RecordView> {
    recs.map_values(|r: Record| r@)
}

/// The characters of each string of `ss`.
pub open spec fn string_views(ss: Seq<String>) -> Seq<Seq<char>> {
    ss.map_values(|s: String| s@)
}

/// Sets the identifier of `rec` to `pid`, and its URL to the item URL for
/// it; with no identifier, clears both.
pub fn enrich(rec: Record, pid: Option<&String>) -> (r: Record)
    ensures
        r@ == enriched(
            rec@,
            match pid {
                Some(p) => Some(p@),
                None => None,
            },
        ),
{
    let mut rec = rec;
    match pid {
        Some(p) => {
            let mut url = " https://repository.library.brown.edu/studio/item/".to_owned();
            push_str(&mut url, p.as_str());
            push_str(&mut url, "/");
            rec.pid = Some(p.clone());
            rec.pid_url = Some(url);
        },
        None => {
            rec.pid = None;
            rec.pid_url = None;
        },
    }
    rec
}

/// Processes one OCR tracker file: its enriched record, or its path where
/// it is rejected.
pub fn process_file(file: &TrackerFile, id_to_pid_map: &IdToPidMap) -> (r: Result<Record, String>)
    ensures
        match r {
            Ok(rec) => ocr_outcome(*file, id_to_pid_map@) == Some(rec@),
            Err(p) => ocr_outcome(*file, id_to_pid_map@) is None && p@ == file.path@,
        },
{
    let text = match &file.contents {
        Some(t) => t,
        None => return Err(file.path.clone()),
    };
    let rec = match parse_ocr_record(text.as_str()) {
        Ok(rec) => rec,
        Err(_) => return Err(file.path.clone()),
    };
    let key = parse_key_from_path(file.path.as_str());
    let pid = id_to_pid_map.get(key.as_str());
    Ok(enrich(rec, pid))
}

/// Processes the OCR tracker files in order: every file gives either a
/// record in `extracted_data_files` or its path in `rejected_paths`.
pub fn process_files(ocr_tracker_files: Vec<TrackerFile>, id_to_pid_map: &IdToPidMap) -> (r:
    PathResults)
    ensures
        record_views(r.extracted_data_files@) == extracted_of(ocr_tracker_files@, id_to_pid_map@),
        string_views(r.rejected_paths@) == rejected_of(ocr_tracker_files@, id_to_pid_map@),
        r.extracted_data_files.len() + r.rejected_paths.len() == ocr_tracker_files.len(),
{
    let ghost files = ocr_tracker_files@;
    let ghost idx = id_to_pid_map@;
    let mut extracted: Vec<Record> = Vec::new();
    let mut rejected: Vec<String> = Vec::new();
    let mut i: usize = 0;
    while i < ocr_tracker_files.len()
        invariant
            i <= files.len(),
            files == ocr_tracker_files@,
            idx == id_to_pid_map@,
            record_views(extracted@) == extracted_of(files.take(i as int), idx),
            string_views(rejected@) == rejected_of(files.take(i as int), idx),
            extracted.len() + rejected.len() == i,
        decreases files.len() - i,
    {
        assert(files.take(i + 1).drop_last() =~= files.take(i as int));
        match process_file(&ocr_tracker_files[i], id_to_pid_map) {
            Ok(rec) => {
                extracted.push(rec);
                assert(record_views(extracted@) =~= extracted_of(files.take(i + 1), idx));
                assert(string_views(rejected@) =~= rejected_of(files.take(i + 1), idx));
            },
            Err(p) => {
                rejected.push(p);
                assert(record_views(extracted@) =~= extracted_of(files.take(i + 1), idx));
                assert(string_views(rejected@) =~= rejected_of(files.take(i + 1), idx));
            },
        }
        i = i + 1;
    }
    assert(files.take(i as int) =~= files);
    PathResults { extracted_data_files: extracted, rejected_paths: rejected }
}

/// An OCR tracker file whose key the ingestion files give an identifier for
/// gets, when it decodes, the last such identifier and the item URL for it.
pub proof fn lemma_matched_key_enriched(ocr: TrackerFile, ingest: Seq<TrackerFile>, pid: Seq<char>)
    requires
        ocr_outcome(ocr, index_of(ingest)) is Some,
        last_pid_for(ingest, key_of_path(ocr.path@)) == Some(pid),
    ensures
        ocr_outcome(ocr, index_of(ingest))->0.pid == Some(pid),
        ocr_outcome(ocr, index_of(ingest))->0.pid_url == Some(item_url(pid)),
{
    lemma_index_at(Map::empty(), ingest, key_of_path(ocr.path@));
}

/// An OCR tracker file whose key no ingestion file gives an identifier for
/// still yields a record when it decodes, with neither identifier nor URL,
/// and is not rejected.
pub proof fn lemma_unmatched_key_kept(ocr: TrackerFile, ingest: Seq<TrackerFile>)
    requires
        ocr_outcome(ocr, index_of(ingest)) is Some,
        last_pid_for(ingest, key_of_path(ocr.path@)) is None,
    ensures
        ocr_outcome(ocr, index_of(ingest))->0.pid is None,
        ocr_outcome(ocr, index_of(ingest))->0.pid_url is None,
        extracted_of(seq![ocr], index_of(ingest)) == seq![ocr_outcome(ocr, index_of(ingest))->0],
        rejected_of(seq![ocr], index_of(ingest)) == Seq::<Seq<char>>::empty(),
{
    lemma_index_at(Map::empty(), ingest, key_of_path(ocr.path@));
    lemma_outcomes_single(ocr, index_of(ingest));
}

proof fn lemma_outcomes_single(f: TrackerFile, idx: Map<Seq<char>, Seq<char>>)
    ensures
        extracted_of(seq![f], idx) == match ocr_outcome(f, idx) {
            Some(rec) => seq![rec],
            None => Seq::<RecordView>::empty(),
        },
        rejected_of(seq![f], idx) == match ocr_outcome(f, idx) {
            Some(_) => Seq::<Seq<char>>::empty(),
            None => seq![f.path@],
        },
{
    let s = seq![f];
    assert(s.drop_last() =~= Seq::<TrackerFile>::empty());
    assert(s.last() == f);
    assert(extracted_of(s.drop_last(), idx) == Seq::<RecordView>::empty());
    assert(rejected_of(s.drop_last(), idx) == Seq::<Seq<char>>::empty());
    assert(Seq::<RecordView>::empty().push(ocr_outcome(f, idx)->0) =~= seq![ocr_outcome(f, idx)->0]);
    assert(Seq::<Seq<char>>::empty().push(f.path@) =~= seq![f.path@]);
}

proof fn lemma_outcomes_concat(a: Seq<TrackerFile>, b: Seq<TrackerFile>, idx: Map<Seq<char>, Seq<char>>)
    ensures
        extracted_of(a + b, idx) == extracted_of(a, idx) + extracted_of(b, idx),
        rejected_of(a + b, idx) == rejected_of(a, idx) + rejected_of(b, idx),
    decreases b.len(),
{
    if b.len() == 0 {
        assert(a + b =~= a);
        assert(extracted_of(a, idx) + extracted_of(b, idx) =~= extracted_of(a, idx));
        assert(rejected_of(a, idx) + rejected_of(b, idx) =~= rejected_of(a, idx));
    } else {
        lemma_outcomes_concat(a, b.drop_last(), idx);
        assert((a + b).drop_last() =~= a + b.drop_last());
        assert((a + b).last() == b.last());
        assert(extracted_of(a + b, idx) =~= extracted_of(a, idx) + extracted_of(b, idx));
        assert(rejected_of(a + b, idx) =~= rejected_of(a, idx) + rejected_of(b, idx));
    }
}

/// Every OCR tracker file gives exactly one outcome: the records and the
/// rejected paths together are as many as the files.
pub proof fn lemma_one_outcome_per_file(files: Seq<TrackerFile>, idx: Map<Seq<char>, Seq<char>>)
    ensures
        extracted_of(files, idx).len() + rejected_of(files, idx).len() == files.len(),
    decreases files.len(),
{
    if files.len() > 0 {
        lemma_one_outcome_per_file(files.drop_last(), idx);
    }
}

/// A file that does not decode (one that lacks a required member, say),
/// wherever it stands among the others, leaves the records as they are and
/// adds exactly its own path to the rejected paths, in its place.
pub proof fn lemma_malformed_file_rejected(
    before: Seq<TrackerFile>,
    bad: TrackerFile,
    after: Seq<TrackerFile>,
    idx: Map<Seq<char>, Seq<char>>,
)
    requires
        ocr_outcome(bad, idx) is None,
    ensures
        extracted_of(before + seq![bad] + after, idx) == extracted_of(before + after, idx),
        rejected_of(before + seq![bad] + after, idx) == rejected_of(before, idx) + seq![bad.path@]
            + rejected_of(after, idx),
{
    lemma_outcomes_concat(before + seq![bad], after, idx);
    lemma_outcomes_concat(before, seq![bad], idx);
    lemma_outcomes_concat(before, after, idx);
    lemma_outcomes_single(bad, idx);
    assert(extracted_of(before + seq![bad], idx) =~= extracted_of(before, idx));
}

} // verus!
