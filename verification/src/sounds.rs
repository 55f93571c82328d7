//! The installed alarm sounds: listing them and resolving a namespaced sound
//! id (`builtin:<name>` or `custom:<name>`) to a file.
//!
//! Sounds live in two directories, the read-only built-in bundle and the
//! user-managed custom directory. Reading those directories is the caller's
//! part: the functions here take what the directories hold as plain values.

use vstd::prelude::*;

use crate::audio::{AudioError, SoundFormat};
use crate::text::{
    concat, concat3, lemma_lt_asymmetric, lemma_lt_irreflexive, lemma_lt_total,
    lemma_lt_transitive, seq_lt, str_eq, str_lt, suffix_from, starts_with,
};

verus! {

/// Origin of a sound asset.
#[derive(Debug, Clone, Copy, PartialEq, Eq, Structural)]
pub enum SoundSource {
    /// Bundled with the daemon (read-only, lives in the built-in directory).
    Builtin,
    /// User-supplied (lives in the custom directory).
    Custom,
}

/// A file found in a sound directory: its file name and its size in bytes.
#[derive(Debug, Clone)]
pub struct SoundFile {
    pub name: String,
    pub bytes: u64,
}

/// A sound the daemon can play.
#[derive(Debug, Clone)]
pub struct SoundSummary {
    pub id: String,
    pub name: String,
    pub source: SoundSource,
    pub bytes: u64,
}

/// The mathematical content of a [`SoundSummary`].
#[verifier::ext_equal]
pub struct SummaryView {
    pub id: Seq<char>,
    pub name: Seq<char>,
    pub source: SoundSource,
    pub bytes: u64,
}

impl View for SoundSummary {
    type V = SummaryView;

    open spec fn view(&self) -> SummaryView {
        SummaryView { id: self.id@, name: self.name@, source: self.source, bytes: self.bytes }
    }
}

/// The namespace word of a source.
pub open spec fn source_prefix(source: SoundSource) -> Seq<char> {
    match source {
        SoundSource::Builtin => "builtin"@,
        SoundSource::Custom => "custom"@,
    }
}

/// `d` is the position of the last `.` in `s`.
pub open spec fn is_last_dot(s: Seq<char>, d: int) -> bool {
    &&& 0 <= d < s.len()
    &&& s[d] == '.'
    &&& forall|j: int| d < j < s.len() ==> s[j] != '.'
}

/// A file name split into stem and extension at its last `.`; a name whose
/// only `.` is its first character has no extension.
pub open spec fn split_ext(s: Seq<char>) -> Option<(Seq<char>, Seq<char>)> {
    if exists|d: int| is_last_dot(s, d) {
        let d = choose|d: int| is_last_dot(s, d);
        if d > 0 {
            Some((s.take(d), s.skip(d + 1)))
        } else {
            None
        }
    } else {
        None
    }
}

/// The sound format a file name announces by its extension.
pub open spec fn format_of_name(s: Seq<char>) -> Option<SoundFormat> {
    match split_ext(s) {
        Some((_, ext)) => if ext == "wav"@ {
            Some(SoundFormat::Wav)
        } else if ext == "flac"@ {
            Some(SoundFormat::Flac)
        } else {
            None
        },
        None => None,
    }
}

/// The summary that a directory file yields, if it is a sound file whose
/// stem is a plain name (so that its id is one that resolution accepts).
pub open spec fn summary_of(f: SoundFile, source: SoundSource) -> Option<SummaryView> {
    match format_of_name(f.name@) {
        Some(_) => {
            let stem = split_ext(f.name@).unwrap().0;
            if is_plain_name(stem) {
                Some(
                    SummaryView {
                        id: source_prefix(source) + ":"@ + stem,
                        name: stem,
                        source,
                        bytes: f.bytes,
                    },
                )
            } else {
                None
            }
        },
        None => None,
    }
}

/// The summaries of the sound files among `files`, in directory order.
pub open spec fn candidates(files: Seq<SoundFile>, source: SoundSource) -> Seq<SummaryView>
    decreases files.len(),
{
    if files.len() == 0 {
        Seq::empty()
    } else {
        let rest = candidates(files.drop_last(), source);
        match summary_of(files.last(), source) {
            Some(s) => rest.push(s),
            None => rest,
        }
    }
}

/// `all[k]` is the last summary in `all` with its id.
pub open spec fn latest(all: Seq<SummaryView>, k: int) -> bool {
    &&& 0 <= k < all.len()
    &&& forall|m: int| k < m < all.len() ==> all[m].id != all[k].id
}

/// The ids of `r` are strictly increasing.
pub open spec fn sorted_by_id(r: Seq<SoundSummary>) -> bool {
    forall|i: int, j: int| 0 <= i < j < r.len() ==> seq_lt(#[trigger] r[i]@.id, #[trigger] r[j]@.id)
}

/// Every entry of `r` is the last summary in `all` with its id.
pub open spec fn each_latest(r: Seq<SoundSummary>, all: Seq<SummaryView>) -> bool {
    forall|i: int| #![trigger r[i]] 0 <= i < r.len() ==> exists|k: int| #![trigger all[k]] latest(all, k) && all[k] == r[i]@
}

/// Every id in `all` has an entry in `r`.
pub open spec fn covers(r: Seq<SoundSummary>, all: Seq<SummaryView>) -> bool {
    forall|k: int| #![trigger all[k]] 0 <= k < all.len() ==> exists|i: int| #![trigger r[i]] 0 <= i < r.len() && r[i]@.id == all[k].id
}

/// `r` lists one summary per id of `all` — the last one with that id —
/// sorted by id.
#[verifier::opaque]
pub open spec fn represents(r: Seq<SoundSummary>, all: Seq<SummaryView>) -> bool {
    sorted_by_id(r) && each_latest(r, all) && covers(r, all)
}

fn find_last_dot(s: &str) -> (r: Option<usize>)
    ensures
        match r {
            Some(d) => is_last_dot(s@, d as int),
            None => !exists|d: int| is_last_dot(s@, d),
        },
{
    let n = s.unicode_len();
    let mut i = n;
    while i > 0
        invariant
            n == s@.len(),
            i <= n,
            forall|j: int| i <= j < n ==> s@[j] != '.',
        decreases i,
    {
        if s.get_char(i - 1) == '.' {
            return Some(i - 1);
        }
        i = i - 1;
    }
    proof {
        assert forall|d: int| !is_last_dot(s@, d) by {
            if is_last_dot(s@, d) {
                assert(s@[d] != '.');
            }
        }
    }
    None
}

proof fn lemma_last_dot_unique(s: Seq<char>, d: int)
    requires
        is_last_dot(s, d),
    ensures
        (choose|e: int| is_last_dot(s, e)) == d,
{
    let e = choose|e: int| is_last_dot(s, e);
    assert(is_last_dot(s, e));
    if e < d {
        assert(s[d] != '.');
    } else if d < e {
        assert(s[e] != '.');
    }
}

impl SoundFormat {
    /// The format of a sound file named `name`, judged by its extension.
    pub fn from_file_name(name: &str) -> (r: Option<SoundFormat>)
        ensures
            r == format_of_name(name@),
    {
        match find_last_dot(name) {
            Some(d) => {
                proof {
                    lemma_last_dot_unique(name@, d as int);
                }
                if d == 0 {
                    return None;
                }
                let n = name.unicode_len();
                assert(d < n);
                let ext = suffix_from(name, d + 1);
                assert(ext@ == name@.skip(d + 1));
                if str_eq(ext.as_str(), "wav") {
                    Some(SoundFormat::Wav)
                } else if str_eq(ext.as_str(), "flac") {
                    Some(SoundFormat::Flac)
                } else {
                    None
                }
            },
            None => None,
        }
    }
}

/// The characters of `s` before position `d`.
fn prefix_to(s: &str, d: usize) -> (r: String)
    requires
        d <= s@.len(),
    ensures
        r@ == s@.take(d as int),
{
    String::from_str(s.substring_char(0, d))
}

fn source_prefix_str(source: SoundSource) -> (s: &'static str)
    ensures
        s@ == source_prefix(source),
{
    match source {
        SoundSource::Builtin => "builtin",
        SoundSource::Custom => "custom",
    }
}

/// The summary for one directory file, if it is a sound file.
fn summary_for(f: &SoundFile, source: SoundSource) -> (r: Option<SoundSummary>)
    ensures
        match r {
            Some(s) => summary_of(*f, source) == Some(s@),
            None => summary_of(*f, source) is None,
        },
{
    let format = SoundFormat::from_file_name(f.name.as_str());
    if format.is_none() {
        return None;
    }
    let d = match find_last_dot(f.name.as_str()) {
        Some(d) => d,
        None => {
            return None;
        },
    };
    proof {
        lemma_last_dot_unique(f.name@, d as int);
    }
    let stem = prefix_to(f.name.as_str(), d);
    if !plain_name(stem.as_str()) {
        return None;
    }
    let id = concat3(source_prefix_str(source), ":", stem.as_str());
    let s = SoundSummary { id, name: stem, source, bytes: f.bytes };
    assert(summary_of(*f, source) =~= Some(s@));
    Some(s)
}

proof fn lemma_ids_distinct(r: Seq<SoundSummary>, a: int, b: int)
    requires
        sorted_by_id(r),
        0 <= a < r.len(),
        0 <= b < r.len(),
        a != b,
    ensures
        r[a]@.id != r[b]@.id,
{
    if a < b {
        assert(seq_lt(r[a]@.id, r[b]@.id));
    } else {
        assert(seq_lt(r[b]@.id, r[a]@.id));
    }
    lemma_lt_irreflexive(r[a]@.id);
}

/// Replacing the summary that has `s`'s id keeps the list representing the
/// summaries seen so far, now ending with `s`.
proof fn lemma_replace_keeps_representation(
    r: Seq<SoundSummary>,
    prev: Seq<SummaryView>,
    p: int,
    s: SoundSummary,
)
    requires
        represents(r, prev),
        0 <= p < r.len(),
        r[p]@.id == s@.id,
    ensures
        represents(r.update(p, s), prev.push(s@)),
{
    reveal(represents);
    let all = prev.push(s@);
    let k_new = prev.len() as int;
    let r2 = r.update(p, s);
    assert forall|a: int, b: int| 0 <= a < b < r2.len() implies seq_lt(
        #[trigger] r2[a]@.id,
        #[trigger] r2[b]@.id,
    ) by {
        assert(r[a]@.id == r2[a]@.id);
        assert(r[b]@.id == r2[b]@.id);
        assert(seq_lt(r[a]@.id, r[b]@.id));
    }
    assert forall|j: int| #![trigger r2[j]] 0 <= j < r2.len() implies exists|k: int| #![trigger all[k]]
        latest(all, k) && all[k] == r2[j]@ by {
        if j == p {
            assert(all[k_new] == s@);
            assert(latest(all, k_new));
        } else {
            lemma_ids_distinct(r, j, p);
            let k = choose|k: int| latest(prev, k) && prev[k] == r[j]@;
            assert(all[k] == prev[k]);
            assert(latest(all, k));
        }
    }
    assert forall|k: int| #![trigger all[k]] 0 <= k < all.len() implies exists|j: int| #![trigger r2[j]]
        0 <= j < r2.len() && r2[j]@.id == all[k].id by {
        if k == k_new {
            assert(r2[p]@.id == all[k].id);
        } else {
            assert(all[k] == prev[k]);
            let j = choose|j: int| #![trigger r[j]] 0 <= j < r.len() && r[j]@.id == prev[k].id;
            assert(r2[j]@.id == r[j]@.id);
        }
    }
}

proof fn lemma_insert_sorted(r: Seq<SoundSummary>, q: int, s: SoundSummary)
    requires
        sorted_by_id(r),
        0 <= q <= r.len(),
        forall|j: int| 0 <= j < q ==> seq_lt(#[trigger] r[j]@.id, s@.id),
        q < r.len() ==> seq_lt(s@.id, r[q]@.id),
    ensures
        sorted_by_id(r.insert(q, s)),
        forall|j: int| 0 <= j < r.len() ==> #[trigger] r[j]@.id != s@.id,
{
    let r2 = r.insert(q, s);
    assert forall|j: int| 0 <= j < r.len() implies #[trigger] r[j]@.id != s@.id && (q <= j
        ==> seq_lt(s@.id, r[j]@.id)) by {
        if j < q {
            assert(seq_lt(r[j]@.id, s@.id));
            lemma_lt_irreflexive(s@.id);
        } else {
            if j > q {
                assert(seq_lt(r[q]@.id, r[j]@.id));
                lemma_lt_transitive(s@.id, r[q]@.id, r[j]@.id);
            }
            lemma_lt_irreflexive(s@.id);
        }
    }
    assert forall|a: int, b: int| 0 <= a < b < r2.len() implies seq_lt(
        #[trigger] r2[a]@.id,
        #[trigger] r2[b]@.id,
    ) by {
        if b < q {
            assert(seq_lt(r[a]@.id, r[b]@.id));
        } else if b == q {
            assert(seq_lt(r[a]@.id, s@.id));
        } else if a < q {
            assert(seq_lt(r[a]@.id, s@.id));
            assert(seq_lt(s@.id, r[b - 1]@.id));
            lemma_lt_transitive(r[a]@.id, s@.id, r[b - 1]@.id);
        } else if a == q {
            assert(seq_lt(s@.id, r[b - 1]@.id));
        } else {
            assert(seq_lt(r[a - 1]@.id, r[b - 1]@.id));
        }
    }
}

proof fn lemma_insert_latest(
    r: Seq<SoundSummary>,
    prev: Seq<SummaryView>,
    q: int,
    s: SoundSummary,
)
    requires
        each_latest(r, prev),
        forall|j: int| 0 <= j < r.len() ==> #[trigger] r[j]@.id != s@.id,
        0 <= q <= r.len(),
    ensures
        each_latest(r.insert(q, s), prev.push(s@)),
{
    let all = prev.push(s@);
    let k_new = prev.len() as int;
    let r2 = r.insert(q, s);
    assert forall|i: int| #![trigger r2[i]] 0 <= i < r2.len() implies exists|k: int| #![trigger all[k]]
        latest(all, k) && all[k] == r2[i]@ by {
        let j = i;
        if j == q {
            assert(r2[j] == s);
            assert(all[k_new] == s@);
            assert(latest(all, k_new));
        } else {
            let oj = if j < q {
                j
            } else {
                j - 1
            };
            assert(r2[j] == r[oj]);
            assert(r[oj]@.id != s@.id);
            let k = choose|k: int| latest(prev, k) && prev[k] == r[oj]@;
            assert(all[k] == prev[k]);
            assert(latest(all, k));
        }
    }
    assert(each_latest(r2, all));
}

proof fn lemma_insert_covers(r: Seq<SoundSummary>, prev: Seq<SummaryView>, q: int, s: SoundSummary)
    requires
        covers(r, prev),
        0 <= q <= r.len(),
    ensures
        covers(r.insert(q, s), prev.push(s@)),
{
    let all = prev.push(s@);
    let k_new = prev.len() as int;
    let r2 = r.insert(q, s);
    assert forall|k: int| #![trigger all[k]] 0 <= k < all.len() implies exists|j: int| #![trigger r2[j]]
        0 <= j < r2.len() && r2[j]@.id == all[k].id by {
        if k == k_new {
            assert(r2[q]@.id == all[k].id);
        } else {
            assert(all[k] == prev[k]);
            let j = choose|j: int| #![trigger r[j]] 0 <= j < r.len() && r[j]@.id == prev[k].id;
            if j < q {
                assert(r2[j]@.id == r[j]@.id);
            } else {
                assert(r2[j + 1]@.id == r[j]@.id);
            }
        }
    }
    assert(covers(r2, all));
}

/// Inserting `s` at its sorted place, when no summary has its id, keeps the
/// list representing the summaries seen so far, now ending with `s`.
proof fn lemma_insert_keeps_representation(
    r: Seq<SoundSummary>,
    prev: Seq<SummaryView>,
    q: int,
    s: SoundSummary,
)
    requires
        represents(r, prev),
        0 <= q <= r.len(),
        forall|j: int| 0 <= j < q ==> seq_lt(#[trigger] r[j]@.id, s@.id),
        q < r.len() ==> seq_lt(s@.id, r[q]@.id),
    ensures
        represents(r.insert(q, s), prev.push(s@)),
{
    reveal(represents);
    lemma_insert_sorted(r, q, s);
    lemma_insert_latest(r, prev, q, s);
    lemma_insert_covers(r, prev, q, s);
}

/// Inserts `s` into the id-sorted list `out`, replacing the summary with the
/// same id if there is one.
fn insert_summary(out: &mut Vec<SoundSummary>, s: SoundSummary, Ghost(prev): Ghost<
    Seq<SummaryView>,
>)
    requires
        represents(old(out)@, prev),
    ensures
        represents(final(out)@, prev.push(s@)),
{
    let ghost sg = s;
    let mut i: usize = 0;
    while i < out.len()
        invariant
            represents(out@, prev),
            out@ == old(out)@,
            sg == s,
            i <= out@.len(),
            forall|j: int| 0 <= j < i ==> seq_lt(#[trigger] out@[j]@.id, s@.id),
        decreases out@.len() - i,
    {
        if str_eq(out[i].id.as_str(), s.id.as_str()) {
            proof {
                lemma_replace_keeps_representation(out@, prev, i as int, s);
            }
            out.set(i, s);
            return;
        }
        if str_lt(s.id.as_str(), out[i].id.as_str()) {
            proof {
                lemma_insert_keeps_representation(out@, prev, i as int, s);
            }
            out.insert(i, s);
            return;
        }
        proof {
            lemma_lt_total(out@[i as int]@.id, s@.id);
        }
        i = i + 1;
    }
    proof {
        lemma_insert_keeps_representation(out@, prev, out@.len() as int, s);
        assert(out@.insert(out@.len() as int, sg) =~= out@.push(sg));
    }
    out.push(s);
}


/// Appends the summaries of the sound files among `files` to `out`.
fn collect(
    files: &Vec<SoundFile>,
    source: SoundSource,
    out: &mut Vec<SoundSummary>,
    Ghost(prev): Ghost<Seq<SummaryView>>,
)
    requires
        represents(old(out)@, prev),
    ensures
        represents(final(out)@, prev + candidates(files@, source)),
{
    let mut i: usize = 0;
    assert(prev + candidates(files@.take(0), source) =~= prev);
    while i < files.len()
        invariant
            represents(out@, prev + candidates(files@.take(i as int), source)),
            i <= files.len(),
        decreases files.len() - i,
    {
        let ghost before = prev + candidates(files@.take(i as int), source);
        proof {
            assert(files@.take(i + 1).drop_last() =~= files@.take(i as int));
            assert(files@.take(i + 1).last() == files@[i as int]);
        }
        match summary_for(&files[i], source) {
            Some(s) => {
                insert_summary(out, s, Ghost(before));
                assert(before.push(s@) =~= prev + candidates(files@.take(i + 1), source));
            },
            None => {
                assert(before =~= prev + candidates(files@.take(i + 1), source));
            },
        }
        i = i + 1;
    }
    assert(files@.take(files@.len() as int) =~= files@);
}

/// Read-mostly view over the daemon's installed sound assets: the built-in
/// directory shipped with the daemon image and the user-managed custom
/// directory.
#[derive(Debug, Clone)]
pub struct SoundLibrary {
    builtin_dir: String,
    custom_dir: String,
}

/// `dir` joined with the relative or absolute path `comp`, as
/// `PathBuf::push` does on Unix: an absolute `comp` replaces `dir`, and a
/// separator is added only when `dir` is non-empty and does not end in one.
pub open spec fn path_join(dir: Seq<char>, comp: Seq<char>) -> Seq<char> {
    if comp.len() > 0 && comp[0] == '/' {
        comp
    } else if dir.len() == 0 || dir.last() == '/' {
        dir + comp
    } else {
        dir + "/"@ + comp
    }
}

/// The path a sound named `name` with extension `ext` would have in `dir`.
pub open spec fn sound_path(dir: Seq<char>, name: Seq<char>, ext: Seq<char>) -> Seq<char> {
    path_join(dir, name + "."@ + ext)
}

/// Whether `p` is among the paths in `list`.
pub open spec fn listed(list: Seq<String>, p: Seq<char>) -> bool {
    exists|i: int| 0 <= i < list.len() && #[trigger] list[i]@ == p
}

/// `s` holds two consecutive dots somewhere.
pub open spec fn has_dot_dot(s: Seq<char>) -> bool {
    exists|i: int| 0 <= i && i + 1 < s.len() && #[trigger] s[i] == '.' && s[i + 1] == '.'
}

/// A sound name that a client may give: non-empty, without `/` and without
/// `..`. Such a name is only ever looked up as a file of its own directory;
/// it can never name a path elsewhere.
pub open spec fn is_plain_name(s: Seq<char>) -> bool {
    &&& s.len() > 0
    &&& forall|i: int| 0 <= i < s.len() ==> #[trigger] s[i] != '/'
    &&& !has_dot_dot(s)
}

/// How a namespaced sound id splits into directory kind and name; an id
/// whose name is not plain (see [`is_plain_name`]) is malformed.
pub open spec fn parse_sound_id(id: Seq<char>) -> Option<(SoundSource, Seq<char>)> {
    if id.len() >= 8 && id.take(8) == "builtin:"@ {
        if is_plain_name(id.skip(8)) {
            Some((SoundSource::Builtin, id.skip(8)))
        } else {
            None
        }
    } else if id.len() >= 7 && id.take(7) == "custom:"@ {
        if is_plain_name(id.skip(7)) {
            Some((SoundSource::Custom, id.skip(7)))
        } else {
            None
        }
    } else {
        None
    }
}

/// Law: a name is plain exactly when it is non-empty, holds no `/` and
/// holds no two consecutive dots; any other character (letters, digits,
/// `-`, `_`, single dots, ...) is allowed. A namespaced id with such a name
/// parses to its namespace and name.
pub proof fn lemma_plain_names_are_exactly(s: Seq<char>)
    ensures
        is_plain_name(s) <==> (s.len() > 0 && (forall|i: int| 0 <= i < s.len() ==> s[i] != '/')
            && (forall|i: int| 0 <= i && i + 1 < s.len() ==> !(#[trigger] s[i] == '.' && s[i + 1] == '.'))),
        (s.len() > 0 && (forall|i: int| 0 <= i < s.len() ==> s[i] != '/') && (forall|i: int|
            0 <= i && i + 1 < s.len() ==> !(#[trigger] s[i] == '.' && s[i + 1] == '.'))) ==> parse_sound_id(
            "builtin:"@ + s,
        ) == Some((SoundSource::Builtin, s)) && parse_sound_id("custom:"@ + s) == Some(
            (SoundSource::Custom, s),
        ),
{
    reveal_strlit("builtin:");
    reveal_strlit("custom:");
    if has_dot_dot(s) {
        let k = choose|k: int| 0 <= k && k + 1 < s.len() && #[trigger] s[k] == '.' && s[k + 1] == '.';
        assert(s[k] == '.' && s[k + 1] == '.');
    }
    let b = "builtin:"@ + s;
    assert(b.take(8) =~= "builtin:"@);
    assert(b.skip(8) =~= s);
    let c = "custom:"@ + s;
    assert(c.take(7) =~= "custom:"@);
    assert(c.skip(7) =~= s);
    if c.len() >= 8 {
        assert(c.take(8)[0] != "builtin:"@[0]);
    }
}

/// Whether `name` is a plain sound name (see [`is_plain_name`]).
pub fn plain_name(name: &str) -> (r: bool)
    ensures
        r == is_plain_name(name@),
{
    let n = name.unicode_len();
    if n == 0 {
        return false;
    }
    let mut i: usize = 0;
    while i < n
        invariant
            n == name@.len(),
            i <= n,
            forall|j: int| 0 <= j < i ==> #[trigger] name@[j] != '/',
            forall|j: int|
                0 <= j < i && j + 1 < n ==> !(#[trigger] name@[j] == '.' && name@[j + 1] == '.'),
        decreases n - i,
    {
        let c = name.get_char(i);
        if c == '/' {
            return false;
        }
        if c == '.' && i + 1 < n && name.get_char(i + 1) == '.' {
            assert(name@[i as int] == '.' && name@[i + 1] == '.');
            return false;
        }
        i = i + 1;
    }
    assert(!has_dot_dot(name@)) by {
        if has_dot_dot(name@) {
            let k = choose|k: int|
                0 <= k && k + 1 < name@.len() && #[trigger] name@[k] == '.' && name@[k + 1] == '.';
            assert(!(name@[k] == '.' && name@[k + 1] == '.'));
        }
    }
    true
}

fn join_path(dir: &str, comp: &str) -> (r: String)
    ensures
        r@ == path_join(dir@, comp@),
{
    let nc = comp.unicode_len();
    if nc > 0 && comp.get_char(0) == '/' {
        return String::from_str(comp);
    }
    let nd = dir.unicode_len();
    if nd == 0 || dir.get_char(nd - 1) == '/' {
        concat(dir, comp)
    } else {
        concat3(dir, "/", comp)
    }
}

fn is_listed(list: &Vec<String>, p: &str) -> (r: bool)
    ensures
        r == listed(list@, p@),
{
    let mut i: usize = 0;
    while i < list.len()
        invariant
            i <= list@.len(),
            forall|j: int| 0 <= j < i ==> list@[j]@ != p@,
        decreases list@.len() - i,
    {
        if str_eq(list[i].as_str(), p) {
            return true;
        }
        i = i + 1;
    }
    false
}

fn sound_path_for(dir: &str, name: &str, ext: &str) -> (r: String)
    ensures
        r@ == sound_path(dir@, name@, ext@),
{
    let file = concat3(name, ".", ext);
    join_path(dir, file.as_str())
}

impl SoundLibrary {
    /// A library over the given built-in and custom directories.
    pub fn new(builtin_dir: String, custom_dir: String) -> (l: SoundLibrary)
        ensures
            l.builtin_dir() == builtin_dir@,
            l.custom_dir() == custom_dir@,
    {
        SoundLibrary { builtin_dir, custom_dir }
    }

    /// The built-in directory.
    pub closed spec fn builtin_dir(&self) -> Seq<char> {
        self.builtin_dir@
    }

    /// The custom directory.
    pub closed spec fn custom_dir(&self) -> Seq<char> {
        self.custom_dir@
    }

    /// The directory that holds sounds of `source`.
    pub open spec fn dir_of(&self, source: SoundSource) -> Seq<char> {
        match source {
            SoundSource::Builtin => self.builtin_dir(),
            SoundSource::Custom => self.custom_dir(),
        }
    }

    /// The built-in directory.
    pub fn builtin_dir_str(&self) -> (s: &str)
        ensures
            s@ == self.builtin_dir(),
    {
        self.builtin_dir.as_str()
    }

    /// The custom directory.
    pub fn custom_dir_str(&self) -> (s: &str)
        ensures
            s@ == self.custom_dir(),
    {
        self.custom_dir.as_str()
    }

    /// Lists every sound the daemon can play, given the files found in the
    /// built-in and custom directories: one summary per namespaced id, the
    /// one from the file seen last, sorted by id (so builtins come before
    /// customs). A file whose stem is not a plain name is left out, since
    /// its id could not be armed.
    pub fn list_sounds(&self, builtin: &Vec<SoundFile>, custom: &Vec<SoundFile>) -> (r: Vec<
        SoundSummary,
    >)
        ensures
            represents(
                r@,
                candidates(builtin@, SoundSource::Builtin) + candidates(custom@, SoundSource::Custom),
            ),
    {
        let mut out: Vec<SoundSummary> = Vec::new();
        proof {
            reveal(represents);
        }
        collect(builtin, SoundSource::Builtin, &mut out, Ghost(Seq::empty()));
        assert(Seq::<SummaryView>::empty() + candidates(builtin@, SoundSource::Builtin)
            =~= candidates(builtin@, SoundSource::Builtin));
        collect(
            custom,
            SoundSource::Custom,
            &mut out,
            Ghost(candidates(builtin@, SoundSource::Builtin)),
        );
        out
    }

    /// The file a sound `name` of the given namespace resolves to, among the
    /// `existing` paths: `<dir>/<name>.wav` if it exists, else
    /// `<dir>/<name>.flac`. A name that is not plain is refused before any
    /// path is formed.
    pub fn resolve_in(dir: &str, prefix: &str, name: &str, existing: &Vec<String>) -> (r: Result<
        String,
        AudioError,
    >)
        ensures
            !is_plain_name(name@) ==> (r matches Err(AudioError::InvalidSoundId(m)) && m@ == prefix@
                + ":"@ + name@),
            is_plain_name(name@) && listed(existing@, sound_path(dir@, name@, "wav"@)) ==> (r matches Ok(
                p,
            ) && p@ == sound_path(dir@, name@, "wav"@)),
            is_plain_name(name@) && !listed(existing@, sound_path(dir@, name@, "wav"@)) && listed(
                existing@,
                sound_path(dir@, name@, "flac"@),
            ) ==> (r matches Ok(p) && p@ == sound_path(dir@, name@, "flac"@)),
            is_plain_name(name@) && !listed(existing@, sound_path(dir@, name@, "wav"@)) && !listed(
                existing@,
                sound_path(dir@, name@, "flac"@),
            ) ==> (r matches Err(AudioError::UnknownSound(m)) && m@ == prefix@ + ":"@ + name@),
    {
        if !plain_name(name) {
            return Err(AudioError::InvalidSoundId(concat3(prefix, ":", name)));
        }
        let wav = sound_path_for(dir, name, "wav");
        if is_listed(existing, wav.as_str()) {
            return Ok(wav);
        }
        let flac = sound_path_for(dir, name, "flac");
        if is_listed(existing, flac.as_str()) {
            return Ok(flac);
        }
        Err(AudioError::UnknownSound(concat3(prefix, ":", name)))
    }

    /// Resolves a namespaced `sound_id` to its file among the `existing`
    /// paths. An id outside both namespaces, or whose name is not plain, is
    /// refused as invalid: no client string is used as a path.
    pub fn resolve_path(&self, sound_id: &str, existing: &Vec<String>) -> (r: Result<
        String,
        AudioError,
    >)
        ensures
            match parse_sound_id(sound_id@) {
                Some((source, name)) => {
                    let dir = self.dir_of(source);
                    &&& listed(existing@, sound_path(dir, name, "wav"@)) ==> (r matches Ok(p)
                        && p@ == sound_path(dir, name, "wav"@))
                    &&& !listed(existing@, sound_path(dir, name, "wav"@)) && listed(
                        existing@,
                        sound_path(dir, name, "flac"@),
                    ) ==> (r matches Ok(p) && p@ == sound_path(dir, name, "flac"@))
                    &&& !listed(existing@, sound_path(dir, name, "wav"@)) && !listed(
                        existing@,
                        sound_path(dir, name, "flac"@),
                    ) ==> (r matches Err(AudioError::UnknownSound(m)) && m@ == source_prefix(
                        source,
                    ) + ":"@ + name)
                },
                None => r matches Err(AudioError::InvalidSoundId(m)) && m@ == sound_id@,
            },
    {
        proof {
            reveal_strlit("builtin:");
            reveal_strlit("custom:");
        }
        if starts_with(sound_id, "builtin:") {
            let name = suffix_from(sound_id, 8);
            if !plain_name(name.as_str()) {
                return Err(AudioError::InvalidSoundId(String::from_str(sound_id)));
            }
            return Self::resolve_in(self.builtin_dir.as_str(), "builtin", name.as_str(), existing);
        }
        if starts_with(sound_id, "custom:") {
            let name = suffix_from(sound_id, 7);
            if !plain_name(name.as_str()) {
                return Err(AudioError::InvalidSoundId(String::from_str(sound_id)));
            }
            return Self::resolve_in(self.custom_dir.as_str(), "custom", name.as_str(), existing);
        }
        Err(AudioError::InvalidSoundId(String::from_str(sound_id)))
    }

    /// The files `resolve_path` looks for, in the order it prefers them:
    /// the `.wav` and then the `.flac` path for a well-formed id, none for
    /// an id outside both namespaces or with a name that is not plain.
    pub fn candidate_paths(&self, sound_id: &str) -> (r: Vec<String>)
        ensures
            match parse_sound_id(sound_id@) {
                Some((source, name)) => r@.len() == 2 && r@[0]@ == sound_path(
                    self.dir_of(source),
                    name,
                    "wav"@,
                ) && r@[1]@ == sound_path(self.dir_of(source), name, "flac"@),
                None => r@.len() == 0,
            },
    {
        proof {
            reveal_strlit("builtin:");
            reveal_strlit("custom:");
        }
        let mut r: Vec<String> = Vec::new();
        if starts_with(sound_id, "builtin:") {
            let name = suffix_from(sound_id, 8);
            if plain_name(name.as_str()) {
                r.push(sound_path_for(self.builtin_dir.as_str(), name.as_str(), "wav"));
                r.push(sound_path_for(self.builtin_dir.as_str(), name.as_str(), "flac"));
            }
        } else if starts_with(sound_id, "custom:") {
            let name = suffix_from(sound_id, 7);
            if plain_name(name.as_str()) {
                r.push(sound_path_for(self.custom_dir.as_str(), name.as_str(), "wav"));
                r.push(sound_path_for(self.custom_dir.as_str(), name.as_str(), "flac"));
            }
        }
        r
    }
}


/// A file name with no `/` that is neither `.` nor `..`: a single entry of
/// a directory.
pub open spec fn is_single_component(f: Seq<char>) -> bool {
    &&& f.len() > 0
    &&& forall|i: int| 0 <= i < f.len() ==> #[trigger] f[i] != '/'
    &&& f != "."@
    &&& f != ".."@
}

/// The path of the entry `file` of the directory `dir`.
pub open spec fn entry_of(dir: Seq<char>, file: Seq<char>) -> Seq<char> {
    if dir.len() == 0 || dir.last() == '/' {
        dir + file
    } else {
        dir + "/"@ + file
    }
}

/// Law: the path formed for a plain sound name is the entry
/// `<name>.<ext>` of the directory itself, never a path elsewhere.
pub proof fn lemma_sound_path_is_entry(dir: Seq<char>, name: Seq<char>, ext: Seq<char>)
    requires
        is_plain_name(name),
        ext == "wav"@ || ext == "flac"@,
    ensures
        is_single_component(name + "."@ + ext),
        sound_path(dir, name, ext) == entry_of(dir, name + "."@ + ext),
{
    reveal_strlit("wav");
    reveal_strlit("flac");
    reveal_strlit(".");
    reveal_strlit("..");
    let file = name + "."@ + ext;
    assert(file.len() == name.len() + 1 + ext.len());
    assert forall|i: int| 0 <= i < file.len() implies #[trigger] file[i] != '/' by {
        if i < name.len() {
            assert(file[i] == name[i]);
        } else if i == name.len() {
            assert(file[i] == '.');
        } else {
            assert(file[i] == ext[i - name.len() - 1]);
        }
    }
    assert(file.len() >= 5);
    assert(file != "."@ && file != ".."@) by {
        assert("."@.len() == 1);
        assert(".."@.len() == 2);
    }
    assert(file[0] == name[0]);
}

/// Every summary's id is its source's namespace, `:`, and its name, which
/// is a plain name.
pub open spec fn namespaced(all: Seq<SummaryView>) -> bool {
    forall|k: int|
        0 <= k < all.len() ==> (#[trigger] all[k]).id == source_prefix(all[k].source) + ":"@
            + all[k].name && is_plain_name(all[k].name)
}

proof fn lemma_candidates_namespaced(files: Seq<SoundFile>, source: SoundSource)
    ensures
        namespaced(candidates(files, source)),
    decreases files.len(),
{
    if files.len() > 0 {
        lemma_candidates_namespaced(files.drop_last(), source);
    }
}

/// Every summary of a listing of the two directories is namespaced.
pub(crate) proof fn lemma_listing_namespaced(builtin: Seq<SoundFile>, custom: Seq<SoundFile>)
    ensures
        namespaced(candidates(builtin, SoundSource::Builtin) + candidates(custom, SoundSource::Custom)),
{
    let all = candidates(builtin, SoundSource::Builtin) + candidates(custom, SoundSource::Custom);
    lemma_candidates_namespaced(builtin, SoundSource::Builtin);
    lemma_candidates_namespaced(custom, SoundSource::Custom);
    assert forall|k: int| 0 <= k < all.len() implies (#[trigger] all[k]).id == source_prefix(
        all[k].source,
    ) + ":"@ + all[k].name && is_plain_name(all[k].name) by {
        let nb = candidates(builtin, SoundSource::Builtin).len();
        if k < nb {
            assert(all[k] == candidates(builtin, SoundSource::Builtin)[k]);
        } else {
            assert(all[k] == candidates(custom, SoundSource::Custom)[k - nb]);
        }
    }
}

/// Law: in a sound listing, every built-in sound comes before every custom
/// sound.
#[verifier::spinoff_prover]
#[verifier::rlimit(40)]
pub proof fn lemma_builtins_listed_first(
    builtin: Seq<SoundFile>,
    custom: Seq<SoundFile>,
    r: Seq<SoundSummary>,
)
    requires
        represents(
            r,
            candidates(builtin, SoundSource::Builtin) + candidates(custom, SoundSource::Custom),
        ),
    ensures
        forall|i: int, j: int|
            0 <= i < j < r.len() ==> !((#[trigger] r[i]).source == SoundSource::Custom && (
            #[trigger] r[j]).source == SoundSource::Builtin),
{
    reveal(represents);
    let all = candidates(builtin, SoundSource::Builtin) + candidates(custom, SoundSource::Custom);
    lemma_listing_namespaced(builtin, custom);
    reveal_strlit("builtin");
    reveal_strlit("custom");
    assert forall|i: int, j: int|
        0 <= i < j < r.len() implies !((#[trigger] r[i]).source == SoundSource::Custom && (
        #[trigger] r[j]).source == SoundSource::Builtin) by {
        if r[i].source == SoundSource::Custom && r[j].source == SoundSource::Builtin {
            assert(seq_lt(r[i]@.id, r[j]@.id));
            let ki = choose|k: int| #![trigger all[k]] latest(all, k) && all[k] == r[i]@;
            let kj = choose|k: int| #![trigger all[k]] latest(all, k) && all[k] == r[j]@;
            assert(all[ki] == r[i]@);
            assert(all[kj] == r[j]@);
            let a = r[j]@.id;
            let b = r[i]@.id;
            assert(a[0] == 'b');
            assert(b[0] == 'c');
            assert(crate::text::lt_at(a, b, 0));
            lemma_lt_asymmetric(a, b);
        }
    }
}

} // verus!
