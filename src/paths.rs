//! Classifying tracker files by name, and deriving the key that correlates them.

use rayon::slice::ParallelSliceMut;
use vstd::prelude::*;

use crate::text::{
    before_first, chars_contain, chars_end_with, chars_le, chars_of, contains, ends_with,
    opt_chars, prefix_before,
};

verus! {

/// What the final component of a path is, as `Path::file_name` gives it.
pub uninterp spec fn file_name_of(path: Seq<char>) -> Option<Seq<char>>;

/// The final component of a path without its extension, as `Path::file_stem` gives it.
pub uninterp spec fn file_stem_of(path: Seq<char>) -> Option<Seq<char>>;

/// Relies on `std::path::Path::file_name`: the final component of the path,
/// if there is one.
#[verifier::external_body]
fn file_name(path: &str) -> (r: Option<String>)
    ensures
        opt_chars(r) == file_name_of(path@),
{
    std::path::Path::new(path).file_name().and_then(|n| n.to_str()).map(|n| n.to_string())
}

/// Relies on `std::path::Path::file_stem`: the final component of the path
/// without its extension, if there is one.
#[verifier::external_body]
fn file_stem(path: &str) -> (r: Option<String>)
    ensures
        opt_chars(r) == file_stem_of(path@),
{
    std::path::Path::new(path).file_stem().and_then(|n| n.to_str()).map(|n| n.to_string())
}

/// Relies on rayon's `ParallelSliceMut::par_sort_unstable`: the same strings,
/// in ascending order. `Ord` on `String` compares the UTF-8 bytes, which
/// orders strings as their characters do.
#[verifier::external_body]
fn sort_strings(v: &mut Vec<String>)
    ensures
        final(v)@.to_multiset() == old(v)@.to_multiset(),
        sorted_by_chars(final(v)@),
{
    v.par_sort_unstable();
}

/// The four kinds of file found under the source directory.
#[derive(Clone, Copy, Debug, PartialEq, Eq, Structural)]
pub enum Category {
    OcrComplete,
    IngestComplete,
    ErrorNamed,
    Other,
}

/// The category of a file with the given name: the first of the rules that
/// matches, in the order of the variants.
pub open spec fn category_of_name(name: Option<Seq<char>>) -> Category {
    match name {
        None => Category::Other,
        Some(n) => if ends_with(n, "ocr_complete.json"@) {
            Category::OcrComplete
        } else if ends_with(n, "ingest_complete.json"@) {
            Category::IngestComplete
        } else if contains(n, "error"@) {
            Category::ErrorNamed
        } else {
            Category::Other
        },
    }
}

/// The category of the file at `path`.
pub open spec fn category_of_path(path: Seq<char>) -> Category {
    category_of_name(file_name_of(path))
}

/// The paths of `paths` in category `c`, in their order.
pub open spec fn in_category(paths: Seq<String>, c: Category) -> Seq<String> {
    paths.filter(|p: String| category_of_path(p@) == c)
}

/// Each string is at most the next, character by character.
pub open spec fn sorted_by_chars(s: Seq<String>) -> bool {
    forall|i: int, j: int| 0 <= i < j < s.len() ==> chars_le(#[trigger] s[i]@, #[trigger] s[j]@)
}

/// The key that correlates tracker files of one item: the file stem up to
/// its first `-`, or `unknown_key` for a path without a stem.
pub open spec fn key_of_stem(stem: Option<Seq<char>>) -> Seq<char> {
    match stem {
        Some(s) => before_first(s, '-'),
        None => "unknown_key"@,
    }
}

/// The key of the file at `path`.
pub open spec fn key_of_path(path: Seq<char>) -> Seq<char> {
    key_of_stem(file_stem_of(path))
}

/// The category of a file with name `name` (`None` when the path has none).
pub fn classify_file_name(name: Option<&str>) -> (r: Category)
    ensures
        r == category_of_name(
            match name {
                Some(n) => Some(n@),
                None => None,
            },
        ),
{
    match name {
        None => Category::Other,
        Some(n) => {
            let cs = chars_of(n);
            if chars_end_with(&cs, &chars_of("ocr_complete.json")) {
                Category::OcrComplete
            } else if chars_end_with(&cs, &chars_of("ingest_complete.json")) {
                Category::IngestComplete
            } else if chars_contain(&cs, &chars_of("error")) {
                Category::ErrorNamed
            } else {
                Category::Other
            }
        },
    }
}

/// The category of the file at `path`.
pub fn classify(path: &str) -> (r: Category)
    ensures
        r == category_of_path(path@),
{
    let name = file_name(path);
    match name {
        Some(n) => classify_file_name(Some(n.as_str())),
        None => classify_file_name(None),
    }
}

/// Splits the regular files found under a directory into OCR trackers,
/// ingestion trackers, files named as errors and all others, each list sorted.
pub fn find_json_files(paths: Vec<String>) -> (r: (Vec<String>, Vec<String>, Vec<String>, Vec<String>))
    ensures
        r.0@.to_multiset() == in_category(paths@, Category::OcrComplete).to_multiset(),
        r.1@.to_multiset() == in_category(paths@, Category::IngestComplete).to_multiset(),
        r.2@.to_multiset() == in_category(paths@, Category::ErrorNamed).to_multiset(),
        r.3@.to_multiset() == in_category(paths@, Category::Other).to_multiset(),
        sorted_by_chars(r.0@),
        sorted_by_chars(r.1@),
        sorted_by_chars(r.2@),
        sorted_by_chars(r.3@),
        r.0.len() + r.1.len() + r.2.len() + r.3.len() == paths.len(),
{
    let mut ocr: Vec<String> = Vec::new();
    let mut ingest: Vec<String> = Vec::new();
    let mut errors: Vec<String> = Vec::new();
    let mut others: Vec<String> = Vec::new();
    let mut i: usize = 0;
    while i < paths.len()
        invariant
            i <= paths.len(),
            ocr@ == in_category(paths@.take(i as int), Category::OcrComplete),
            ingest@ == in_category(paths@.take(i as int), Category::IngestComplete),
            errors@ == in_category(paths@.take(i as int), Category::ErrorNamed),
            others@ == in_category(paths@.take(i as int), Category::Other),
        decreases paths.len() - i,
    {
        let p = paths[i].clone();
        let c = classify(p.as_str());
        assert(paths@.take(i + 1).drop_last() =~= paths@.take(i as int));
        proof {
            lemma_in_category_last(paths@.take(i + 1), Category::OcrComplete);
            lemma_in_category_last(paths@.take(i + 1), Category::IngestComplete);
            lemma_in_category_last(paths@.take(i + 1), Category::ErrorNamed);
            lemma_in_category_last(paths@.take(i + 1), Category::Other);
        }
        match c {
            Category::OcrComplete => ocr.push(p),
            Category::IngestComplete => ingest.push(p),
            Category::ErrorNamed => errors.push(p),
            Category::Other => others.push(p),
        }
        i = i + 1;
    }
    assert(paths@.take(i as int) =~= paths@);
    proof {
        lemma_categories_partition(paths@);
        ocr@.to_multiset_ensures();
        ingest@.to_multiset_ensures();
        errors@.to_multiset_ensures();
        others@.to_multiset_ensures();
    }
    sort_strings(&mut ocr);
    sort_strings(&mut ingest);
    sort_strings(&mut errors);
    sort_strings(&mut others);
    proof {
        ocr@.to_multiset_ensures();
        ingest@.to_multiset_ensures();
        errors@.to_multiset_ensures();
        others@.to_multiset_ensures();
    }
    (ocr, ingest, errors, others)
}

/// Every path falls in exactly one category: each category list holds
/// paths of its own category only, and the four together hold as many paths
/// as there are.
pub proof fn lemma_categories_partition(paths: Seq<String>)
    ensures
        forall|c: Category, i: int|
            0 <= i < in_category(paths, c).len() ==> category_of_path(
                (#[trigger] in_category(paths, c)[i])@,
            ) == c,
        in_category(paths, Category::OcrComplete).len() + in_category(
            paths,
            Category::IngestComplete,
        ).len() + in_category(paths, Category::ErrorNamed).len() + in_category(
            paths,
            Category::Other,
        ).len() == paths.len(),
    decreases paths.len(),
{
    assert forall|c: Category, i: int|
        0 <= i < in_category(paths, c).len() implies category_of_path(
        (#[trigger] in_category(paths, c)[i])@,
    ) == c by {
        paths.lemma_filter_pred(|p: String| category_of_path(p@) == c, i);
    }
    if paths.len() > 0 {
        lemma_categories_partition(paths.drop_last());
        lemma_in_category_last(paths, Category::OcrComplete);
        lemma_in_category_last(paths, Category::IngestComplete);
        lemma_in_category_last(paths, Category::ErrorNamed);
        lemma_in_category_last(paths, Category::Other);
    }
}

/// How the last path extends the paths of one category.
proof fn lemma_in_category_last(paths: Seq<String>, c: Category)
    requires
        paths.len() > 0,
    ensures
        in_category(paths, c) == if category_of_path(paths.last()@) == c {
            in_category(paths.drop_last(), c).push(paths.last())
        } else {
            in_category(paths.drop_last(), c)
        },
{
    reveal_with_fuel(Seq::filter, 1);
}

/// The correlation key for a file stem (`None` when the path has no stem).
pub fn key_from_stem(stem: Option<&str>) -> (r: String)
    ensures
        r@ == key_of_stem(
            match stem {
                Some(s) => Some(s@),
                None => None,
            },
        ),
{
    match stem {
        Some(s) => prefix_before(s, '-'),
        None => "unknown_key".to_owned(),
    }
}

/// The correlation key of the file at `path`: its stem up to the first `-`.
pub fn parse_key_from_path(path: &str) -> (r: String)
    ensures
        r@ == key_of_path(path@),
{
    let stem = file_stem(path);
    match stem {
        Some(s) => key_from_stem(Some(s.as_str())),
        None => key_from_stem(None),
    }
}

} // verus!
