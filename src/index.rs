//! The index from correlation key to repository identifier, built from the
//! ingestion tracker files.

use vstd::prelude::*;

use crate::json::{find_member, json_object_of, member, parse_json_object, JsonMember};
use crate::paths::{key_of_path, parse_key_from_path};
use crate::text::{chars_of, chars_equal, opt_chars};
use crate::tracker::{decode_opt_text, decode_text, opt_text_of, text_of, TrackerFile};

verus! {

/// The map that inserting `entries` in order into an empty map gives.
pub open spec fn pairs_map(entries: Seq<(Vec<char>, String)>) -> Map<Seq<char>, Seq<char>>
    decreases entries.len(),
{
    if entries.len() == 0 {
        Map::empty()
    } else {
        pairs_map(entries.drop_last()).insert(entries.last().0@, entries.last().1@)
    }
}

/// Maps correlation keys to identifiers; a later insertion of a key wins.
pub struct IdToPidMap {
    entries: Vec<(Vec<char>, String)>,
}

impl View for IdToPidMap {
    type V = Map<Seq<char>, Seq<char>>;

    closed spec fn view(&self) -> Map<Seq<char>, Seq<char>> {
        pairs_map(self.entries@)
    }
}

/// `a` and `b` agree on whether they hold `k`, and on its value.
pub open spec fn agree_at(a: Map<Seq<char>, Seq<char>>, b: Map<Seq<char>, Seq<char>>, k: Seq<char>) -> bool {
    &&& a.contains_key(k) == b.contains_key(k)
    &&& a.contains_key(k) ==> a[k] == b[k]
}

proof fn lemma_pairs_map_suffix(entries: Seq<(Vec<char>, String)>, i: int, k: Seq<char>)
    requires
        0 <= i <= entries.len(),
        forall|j: int| i <= j < entries.len() ==> (#[trigger] entries[j]).0@ != k,
    ensures
        agree_at(pairs_map(entries), pairs_map(entries.take(i)), k),
    decreases entries.len(),
{
    if entries.len() > i {
        lemma_pairs_map_suffix(entries.drop_last(), i, k);
        assert(entries.drop_last().take(i) =~= entries.take(i));
    } else {
        assert(entries.take(i) =~= entries);
    }
}

impl IdToPidMap {
    /// An empty index.
    pub fn new() -> (r: IdToPidMap)
        ensures
            r@ == Map::<Seq<char>, Seq<char>>::empty(),
    {
        IdToPidMap { entries: Vec::new() }
    }

    /// Maps `key` to `pid`, replacing what `key` mapped to before.
    pub fn insert(&mut self, key: String, pid: String)
        ensures
            final(self)@ == old(self)@.insert(key@, pid@),
    {
        let ghost before = self.entries@;
        self.entries.push((chars_of(key.as_str()), pid));
        assert(self.entries@.drop_last() =~= before);
    }

    /// The identifier that `key` maps to.
    pub fn get(&self, key: &str) -> (r: Option<&String>)
        ensures
            match r {
                Some(p) => self@.contains_key(key@) && self@[key@] == p@,
                None => !self@.contains_key(key@),
            },
    {
        let want = chars_of(key);
        let mut i: usize = self.entries.len();
        while i > 0
            invariant
                i <= self.entries.len(),
                want@ == key@,
                forall|j: int| i <= j < self.entries@.len() ==> (#[trigger] self.entries@[j]).0@ != key@,
            decreases i,
        {
            if chars_equal(&self.entries[i - 1].0, &want) {
                proof {
                    lemma_pairs_map_suffix(self.entries@, i as int, key@);
                    assert(self.entries@.take(i as int).drop_last() =~= self.entries@.take(i - 1));
                }
                return Some(&self.entries[i - 1].1);
            }
            i = i - 1;
        }
        proof {
            lemma_pairs_map_suffix(self.entries@, 0, key@);
        }
        None
    }
}

/// The identifier that the members of an ingestion tracker file give: a
/// string `pid`, beside an `id` that is absent, `null` or a string.
pub open spec fn ingest_pid_of(ms: Seq<JsonMember>) -> Option<Seq<char>> {
    let id = opt_text_of(member(ms, "id"@));
    let pid = text_of(member(ms, "pid"@));
    if id is Ok && pid is Ok {
        Some(pid->Ok_0)
    } else {
        None
    }
}

/// The identifier that an ingestion tracker file gives, if it can be read
/// and parsed.
pub open spec fn file_pid(f: TrackerFile) -> Option<Seq<char>> {
    match f.contents {
        None => None,
        Some(t) => match json_object_of(t@) {
            None => None,
            Some(ms) => ingest_pid_of(ms),
        },
    }
}

/// `m` with the key and identifier of each file of `files` that gives one
/// inserted in order.
pub open spec fn index_from(m: Map<Seq<char>, Seq<char>>, files: Seq<TrackerFile>) -> Map<
    Seq<char>,
    Seq<char>,
>
    decreases files.len(),
{
    if files.len() == 0 {
        m
    } else {
        let rest = index_from(m, files.drop_last());
        match file_pid(files.last()) {
            Some(p) => rest.insert(key_of_path(files.last().path@), p),
            None => rest,
        }
    }
}

/// The index that the ingestion tracker files `files` give.
pub open spec fn index_of(files: Seq<TrackerFile>) -> Map<Seq<char>, Seq<char>> {
    index_from(Map::empty(), files)
}

/// The identifier of the last file of `files` whose key is `k` and that
/// gives one.
pub open spec fn last_pid_for(files: Seq<TrackerFile>, k: Seq<char>) -> Option<Seq<char>>
    decreases files.len(),
{
    if files.len() == 0 {
        None
    } else if file_pid(files.last()) is Some && key_of_path(files.last().path@) == k {
        file_pid(files.last())
    } else {
        last_pid_for(files.drop_last(), k)
    }
}

/// Decodes the identifier from the members of an ingestion tracker file.
pub fn decode_ingest_pid(ms: &Vec<JsonMember>) -> (r: Option<String>)
    ensures
        opt_chars(r) == ingest_pid_of(ms@),
{
    if decode_opt_text(find_member(ms, "id")).is_err() {
        return None;
    }
    match decode_text(find_member(ms, "pid")) {
        Ok(p) => Some(p),
        Err(_) => None,
    }
}

/// The identifier in the text of an ingestion tracker file.
pub fn ingest_pid(text: &str) -> (r: Option<String>)
    ensures
        opt_chars(r) == match json_object_of(text@) {
            None => None,
            Some(ms) => ingest_pid_of(ms),
        },
{
    match parse_json_object(text) {
        Some(ms) => decode_ingest_pid(&ms),
        None => None,
    }
}

/// Builds the index from the ingestion tracker files, in order: a file that
/// could not be read or parsed is skipped, and of files with one key the
/// last wins.
pub fn make_id_to_pid_map(files: Vec<TrackerFile>) -> (r: IdToPidMap)
    ensures
        r@ == index_of(files@),
{
    let mut index = IdToPidMap::new();
    let mut i: usize = 0;
    while i < files.len()
        invariant
            i <= files.len(),
            index@ == index_from(Map::empty(), files@.take(i as int)),
        decreases files.len() - i,
    {
        assert(files@.take(i + 1).drop_last() =~= files@.take(i as int));
        let f = &files[i];
        let key = parse_key_from_path(f.path.as_str());
        let pid = match &f.contents {
            Some(t) => ingest_pid(t.as_str()),
            None => None,
        };
        if let Some(p) = pid {
            index.insert(key, p);
        }
        i = i + 1;
    }
    assert(files@.take(i as int) =~= files@);
    index
}

/// What the index built over `files` from `m` holds at `k`: the last
/// identifier given for `k`, or what `m` held.
pub proof fn lemma_index_at(m: Map<Seq<char>, Seq<char>>, files: Seq<TrackerFile>, k: Seq<char>)
    ensures
        match last_pid_for(files, k) {
            Some(p) => index_from(m, files).contains_key(k) && index_from(m, files)[k] == p,
            None => agree_at(index_from(m, files), m, k),
        },
    decreases files.len(),
{
    if files.len() > 0 {
        lemma_index_at(m, files.drop_last(), k);
    }
}

/// Building the index over the same ingestion files a second time, on top
/// of the first result, changes nothing: with `m` empty, running the builder
/// twice on one set of files yields the index that one run yields.
pub proof fn lemma_index_rebuild_idempotent(m: Map<Seq<char>, Seq<char>>, files: Seq<TrackerFile>)
    ensures
        index_from(index_from(m, files), files) == index_from(m, files),
{
    let once = index_from(m, files);
    let twice = index_from(once, files);
    assert forall|k: Seq<char>| #[trigger] agree_at(twice, once, k) by {
        lemma_index_at(m, files, k);
        lemma_index_at(once, files, k);
    }
    assert(twice =~= once) by {
        assert forall|k: Seq<char>| twice.contains_key(k) <==> once.contains_key(k) by {
            assert(agree_at(twice, once, k));
        }
        assert forall|k: Seq<char>| #[trigger] twice.contains_key(k) implies twice[k] == once[k] by {
            assert(agree_at(twice, once, k));
        }
    }
}

} // verus!
