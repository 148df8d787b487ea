//! The output table's file name and the run report document.

use indexmap::IndexMap;
use vstd::prelude::*;

use crate::text::{chars_of, decimal, decimal_string, push_char, push_chars, push_str};

verus! {

/// A character with the Unicode `White_Space` property.
pub open spec fn is_space(c: char) -> bool {
    let u = c as u32;
    (9 <= u <= 13) || u == 32 || u == 0x85 || u == 0xA0 || u == 0x1680 || (0x2000 <= u <= 0x200A)
        || u == 0x2028 || u == 0x2029 || u == 0x202F || u == 0x205F || u == 0x3000
}

/// How many whitespace characters `s` starts with.
pub open spec fn leading_spaces(s: Seq<char>) -> nat
    decreases s.len(),
{
    if s.len() > 0 && is_space(s[0]) {
        1 + leading_spaces(s.drop_first())
    } else {
        0
    }
}

/// The number of characters of the date and time in a timestamp.
pub const STAMP_LEN: usize = 19;

/// The date and time of a timestamp as it goes into a file name: the first
/// 19 characters of its first whitespace-separated word, with each `:`
/// replaced by `-`. `None` where that word is shorter, or its first 19
/// characters are not all ASCII.
pub open spec fn file_stamp(stamp: Seq<char>) -> Option<Seq<char>> {
    let st = leading_spaces(stamp) as int;
    if st + STAMP_LEN <= stamp.len() && forall|j: int|
        st <= j < st + STAMP_LEN ==> !is_space(#[trigger] stamp[j]) && (stamp[j] as u32) < 128 {
        Some(
            stamp.subrange(st, st + STAMP_LEN).map_values(
                |c: char|
                    if c == ':' {
                        '-'
                    } else {
                        c
                    },
            ),
        )
    } else {
        None
    }
}

/// The path of the output table for a run.
pub open spec fn csv_path_of(output_dir: Seq<char>, stamp: Seq<char>) -> Seq<char> {
    output_dir + "/tracker_output_"@ + stamp + ".csv"@
}

/// `n / d` rounded to the nearest integer, halves up.
pub open spec fn rounded_div(n: nat, d: nat) -> nat {
    n / d + if (n % d) * 2 >= d {
        1nat
    } else {
        0nat
    }
}

/// A count of tenths written with one decimal place.
pub open spec fn tenths_text(t: nat) -> Seq<char> {
    decimal(t / 10) + "."@ + decimal(t % 10)
}

/// The elapsed time of a run in milliseconds as the report gives it: in
/// seconds below a minute, in minutes otherwise, with one decimal place.
pub open spec fn elapsed_of(millis: nat) -> Seq<char> {
    if millis < 60000 {
        tenths_text(rounded_div(millis, 100)) + " seconds"@
    } else {
        tenths_text(rounded_div(millis, 6000)) + " minutes"@
    }
}

/// How the report shows the log level.
pub open spec fn log_level_note(level: Seq<char>) -> Seq<char> {
    "`"@ + level + "`; see `--help` for more info"@
}

proof fn lemma_leading_spaces(s: Seq<char>, i: int)
    requires
        0 <= i <= s.len(),
        forall|j: int| 0 <= j < i ==> is_space(#[trigger] s[j]),
        i == s.len() || !is_space(s[i]),
    ensures
        leading_spaces(s) == i,
    decreases i,
{
    if i > 0 {
        lemma_leading_spaces(s.drop_first(), i - 1);
    }
}

fn char_is_space(c: char) -> (r: bool)
    ensures
        r == is_space(c),
{
    let u = c as u32;
    (9 <= u && u <= 13) || u == 32 || u == 0x85 || u == 0xA0 || u == 0x1680 || (0x2000 <= u && u
        <= 0x200A) || u == 0x2028 || u == 0x2029 || u == 0x202F || u == 0x205F || u == 0x3000
}

/// The date and time of `formatted_date_time` as it goes into a file name.
pub fn stamp_for_file_name(formatted_date_time: &str) -> (r: Option<String>)
    ensures
        crate::text::opt_chars(r) == file_stamp(formatted_date_time@),
{
    let cs = chars_of(formatted_date_time);
    let mut st: usize = 0;
    while st < cs.len() && char_is_space(cs[st])
        invariant
            st <= cs.len(),
            forall|j: int| 0 <= j < st ==> is_space(#[trigger] cs@[j]),
        decreases cs.len() - st,
    {
        st = st + 1;
    }
    proof {
        lemma_leading_spaces(cs@, st as int);
    }
    if cs.len() - st < STAMP_LEN {
        return None;
    }
    let mut out: Vec<char> = Vec::new();
    let mut k: usize = 0;
    while k < STAMP_LEN
        invariant
            k <= STAMP_LEN,
            st + STAMP_LEN <= cs.len(),
            cs@ == formatted_date_time@,
            leading_spaces(cs@) == st,
            forall|j: int| st <= j < st + k ==> !is_space(#[trigger] cs@[j]) && (cs@[j] as u32) < 128,
            out@ == cs@.subrange(st as int, st + k).map_values(
                |c: char|
                    if c == ':' {
                        '-'
                    } else {
                        c
                    },
            ),
        decreases STAMP_LEN - k,
    {
        let c = cs[st + k];
        if char_is_space(c) || (c as u32) >= 128 {
            assert(!(!is_space(cs@[st + k]) && (cs@[st + k] as u32) < 128));
            return None;
        }
        out.push(if c == ':' { '-' } else { c });
        k = k + 1;
        assert(out@ =~= cs@.subrange(st as int, st + k).map_values(
            |c: char|
                if c == ':' {
                    '-'
                } else {
                    c
                },
        ));
    }
    Some(crate::text::string_of(&out))
}

/// The path of the output table in `output_dir` for a run stamped
/// `formatted_date_time`; `None` where the stamp holds no date and time.
pub fn csv_output_path(output_dir: &str, formatted_date_time: &str) -> (r: Option<String>)
    ensures
        match file_stamp(formatted_date_time@) {
            Some(s) => r matches Some(p) && p@ == csv_path_of(output_dir@, s),
            None => r is None,
        },
{
    let stamp = match stamp_for_file_name(formatted_date_time) {
        Some(s) => s,
        None => return None,
    };
    let mut path = String::new();
    push_str(&mut path, output_dir);
    push_str(&mut path, "/tracker_output_");
    push_str(&mut path, stamp.as_str());
    push_str(&mut path, ".csv");
    Some(path)
}

/// Writes `t` tenths with one decimal place.
fn push_tenths(s: &mut String, t: u64)
    ensures
        final(s)@ == old(s)@ + tenths_text(t as nat),
{
    let whole = decimal_string(t / 10);
    let frac = decimal_string(t % 10);
    push_str(s, whole.as_str());
    push_str(s, ".");
    push_str(s, frac.as_str());
}

/// The elapsed time of a run, given in milliseconds, as the report shows it.
pub fn elapsed_text(elapsed_millis: u64) -> (r: String)
    ensures
        r@ == elapsed_of(elapsed_millis as nat),
{
    let mut r = String::new();
    if elapsed_millis < 60000 {
        let t: u64 = elapsed_millis / 100 + if (elapsed_millis % 100) * 2 >= 100 {
            1
        } else {
            0
        };
        push_tenths(&mut r, t);
        push_str(&mut r, " seconds");
    } else {
        let t: u64 = elapsed_millis / 6000 + if (elapsed_millis % 6000) * 2 >= 6000 {
            1
        } else {
            0
        };
        push_tenths(&mut r, t);
        push_str(&mut r, " minutes");
    }
    r
}

/// A value in the run report.
pub enum ReportValue {
    Text(String),
    Count(usize),
    Null,
    TextList(Vec<String>),
}

/// A `ReportValue` with its strings as character sequences.
pub enum ReportValueView {
    Text(Seq<char>),
    Count(nat),
    Null,
    TextList(Seq<Seq<char>>),
}

impl View for ReportValue {
    type V = ReportValueView;

    open spec fn view(&self) -> ReportValueView {
        match self {
            ReportValue::Text(s) => ReportValueView::Text(s@),
            ReportValue::Count(n) => ReportValueView::Count(*n as nat),
            ReportValue::Null => ReportValueView::Null,
            ReportValue::TextList(v) => ReportValueView::TextList(v@.map_values(|s: String| s@)),
        }
    }
}

/// The run report: its entries, in this order.
pub open spec fn report_of(
    source_dir: Seq<char>,
    output_dir: Seq<char>,
    log_level: Seq<char>,
    csv_file_path: Option<Seq<char>>,
    ocr_data_vector_count: nat,
    rejected_files_count: nat,
    error_paths: Seq<Seq<char>>,
    elapsed_millis: nat,
    formatted_date_time: Seq<char>,
) -> Seq<(Seq<char>, ReportValueView)> {
    seq![
        ("datetime_stamp"@, ReportValueView::Text(formatted_date_time)),
        ("time_taken"@, ReportValueView::Text(elapsed_of(elapsed_millis))),
        ("source_dir_path"@, ReportValueView::Text(source_dir)),
        ("output_dir_path"@, ReportValueView::Text(output_dir)),
        ("log_level"@, ReportValueView::Text(log_level_note(log_level))),
        ("tracker_output_csv_path"@, match csv_file_path {
            Some(p) => ReportValueView::Text(p),
            None => ReportValueView::Null,
        }),
        ("ocr_data_vector_count"@, ReportValueView::Count(ocr_data_vector_count)),
        ("rejected_files_count_(org_tracker_files)"@, ReportValueView::Count(rejected_files_count)),
        ("error_paths"@, ReportValueView::TextList(error_paths)),
    ]
}

/// `indexmap`'s map, whose entries keep the order they were first inserted
/// in, whatever its hasher.
#[verifier::external_type_specification]
#[verifier::external_body]
#[verifier::reject_recursive_types(K)]
#[verifier::reject_recursive_types(V)]
#[verifier::reject_recursive_types(S)]
pub struct ExIndexMap<K, V, S>(IndexMap<K, V, S>);

/// The entries of a report map, in their order.
pub uninterp spec fn report_entries(m: IndexMap<String, ReportValue>) -> Seq<(Seq<char>, ReportValueView)>;

/// Where `k` stands among the keys of `es`.
pub open spec fn entry_index(es: Seq<(Seq<char>, ReportValueView)>, k: Seq<char>) -> Option<int>
    decreases es.len(),
{
    if es.len() == 0 {
        None
    } else {
        match entry_index(es.drop_last(), k) {
            Some(i) => Some(i),
            None => if es.last().0 == k {
                Some(es.len() - 1)
            } else {
                None
            },
        }
    }
}

/// `es` after inserting `k` with `v`: a key already there keeps its place
/// and takes the new value; a new key goes last.
pub open spec fn insert_entry(es: Seq<(Seq<char>, ReportValueView)>, k: Seq<char>, v: ReportValueView) -> Seq<
    (Seq<char>, ReportValueView),
> {
    match entry_index(es, k) {
        Some(i) => es.update(i, (k, v)),
        None => es.push((k, v)),
    }
}

/// Relies on `IndexMap::new`: a map with no entries.
#[verifier::external_body]
fn new_report() -> (r: IndexMap<String, ReportValue>)
    ensures
        report_entries(r) == Seq::<(Seq<char>, ReportValueView)>::empty(),
{
    IndexMap::new()
}

/// Relies on `IndexMap::insert`: an equivalent key already there keeps its
/// place in the order and takes the new value; a new key goes last.
#[verifier::external_body]
fn report_insert(m: &mut IndexMap<String, ReportValue>, key: String, value: ReportValue)
    ensures
        report_entries(*final(m)) == insert_entry(report_entries(*old(m)), key@, value@),
{
    m.insert(key, value);
}

proof fn lemma_entry_index_none(es: Seq<(Seq<char>, ReportValueView)>, k: Seq<char>)
    requires
        forall|i: int| 0 <= i < es.len() ==> (#[trigger] es[i]).0 != k,
    ensures
        entry_index(es, k) is None,
    decreases es.len(),
{
    if es.len() > 0 {
        lemma_entry_index_none(es.drop_last(), k);
    }
}

/// Inserts an entry under a key that `m` does not hold yet.
fn push_entry(m: &mut IndexMap<String, ReportValue>, key: &str, value: ReportValue)
    requires
        forall|i: int|
            0 <= i < report_entries(*old(m)).len() ==> (#[trigger] report_entries(*old(m))[i]).0
                != key@,
    ensures
        report_entries(*final(m)) == report_entries(*old(m)).push((key@, value@)),
{
    proof {
        lemma_entry_index_none(report_entries(*m), key@);
    }
    report_insert(m, key.to_owned(), value);
}

/// Assembles the run report: when the run was stamped, how long it took,
/// the directories, the log level, the table written (if any), the counts
/// of records and rejected files, and the paths of files named as errors.
pub fn prepare_json(
    source_dir: &str,
    output_dir: &str,
    log_level: String,
    csv_file_path: Option<String>,
    ocr_data_vector_count: usize,
    rejected_files_count: usize,
    error_paths: Vec<String>,
    elapsed_millis: u64,
    formatted_date_time: String,
) -> (r: IndexMap<String, ReportValue>)
    ensures
        report_entries(r) == report_of(
            source_dir@,
            output_dir@,
            log_level@,
            crate::text::opt_chars(csv_file_path),
            ocr_data_vector_count as nat,
            rejected_files_count as nat,
            error_paths@.map_values(|s: String| s@),
            elapsed_millis as nat,
            formatted_date_time@,
        ),
{
    proof {
        reveal_strlit("datetime_stamp");
        reveal_strlit("time_taken");
        reveal_strlit("source_dir_path");
        reveal_strlit("output_dir_path");
        reveal_strlit("log_level");
        reveal_strlit("tracker_output_csv_path");
        reveal_strlit("ocr_data_vector_count");
        reveal_strlit("rejected_files_count_(org_tracker_files)");
        reveal_strlit("error_paths");
        assert("time_taken"@.len() == 10);
        assert("datetime_stamp"@.len() == 14);
        assert("source_dir_path"@.len() == 15);
        assert("output_dir_path"@.len() == 15);
        assert("source_dir_path"@[0] != "output_dir_path"@[0]);
        assert("log_level"@.len() == 9);
        assert("tracker_output_csv_path"@.len() == 23);
        assert("ocr_data_vector_count"@.len() == 21);
        assert("rejected_files_count_(org_tracker_files)"@.len() == 40);
        assert("error_paths"@.len() == 11);
    }
    let ghost csv = crate::text::opt_chars(csv_file_path);
    let ghost errors = error_paths@.map_values(|s: String| s@);
    let mut note = String::new();
    push_str(&mut note, "`");
    push_str(&mut note, log_level.as_str());
    push_str(&mut note, "`; see `--help` for more info");
    let csv_value = match csv_file_path {
        Some(p) => ReportValue::Text(p),
        None => ReportValue::Null,
    };
    let mut m = new_report();
    push_entry(&mut m, "datetime_stamp", ReportValue::Text(formatted_date_time));
    push_entry(&mut m, "time_taken", ReportValue::Text(elapsed_text(elapsed_millis)));
    push_entry(&mut m, "source_dir_path", ReportValue::Text(source_dir.to_owned()));
    push_entry(&mut m, "output_dir_path", ReportValue::Text(output_dir.to_owned()));
    push_entry(&mut m, "log_level", ReportValue::Text(note));
    push_entry(&mut m, "tracker_output_csv_path", csv_value);
    push_entry(&mut m, "ocr_data_vector_count", ReportValue::Count(ocr_data_vector_count));
    push_entry(
        &mut m,
        "rejected_files_count_(org_tracker_files)",
        ReportValue::Count(rejected_files_count),
    );
    push_entry(&mut m, "error_paths", ReportValue::TextList(error_paths));
    assert(report_entries(m) =~= report_of(
        source_dir@,
        output_dir@,
        log_level@,
        csv,
        ocr_data_vector_count as nat,
        rejected_files_count as nat,
        errors,
        elapsed_millis as nat,
        formatted_date_time@,
    ));
    m
}

} // verus!
