//! Directories: what is in them, and the order in which it is shown.

use vstd::prelude::*;
use crate::paths::{
    clean_cut, lies_above, parent_or_empty, parent_part, parent_text, path_parent, portable,
};
use crate::text::{comes_before, lemma_text_before_chain, lemma_text_before_total, same, text_before};

verus! {

/// What is known of a file that was found in a directory.
#[derive(Debug)]
pub struct FileStat {
    pub is_dir: bool,
    pub size: u64,
    /// The seconds since 1970 at which it was last changed.
    pub modified: Option<u64>,
}

/// A file that was found in a directory, with what is known of it.
#[derive(Debug)]
pub struct Found {
    pub name: String,
    pub stat: Option<FileStat>,
}

/// A file that was found in a directory, with what is known of it.
pub struct FoundView {
    pub name: Seq<char>,
    pub stat: Option<FileStat>,
}

impl View for Found {
    type V = FoundView;

    open spec fn view(&self) -> FoundView {
        FoundView { name: self.name@, stat: self.stat }
    }
}

impl DeepView for Found {
    type V = FoundView;

    open spec fn deep_view(&self) -> FoundView {
        self@
    }
}

/// An entry of a local directory.
#[derive(Debug)]
pub struct FileEntry {
    pub name: String,
    pub is_dir: bool,
    pub size: u64,
    pub time: u64,
}

/// What an entry of a local directory says.
pub struct FileEntryView {
    pub name: Seq<char>,
    pub is_dir: bool,
    pub size: u64,
    pub time: u64,
}

impl View for FileEntry {
    type V = FileEntryView;

    open spec fn view(&self) -> FileEntryView {
        FileEntryView { name: self.name@, is_dir: self.is_dir, size: self.size, time: self.time }
    }
}

impl DeepView for FileEntry {
    type V = FileEntryView;

    open spec fn deep_view(&self) -> FileEntryView {
        self@
    }
}

/// The entry for a file that was found, unless too little is known of it.
pub open spec fn local_entry(f: FoundView) -> Option<FileEntryView> {
    match f.stat {
        Some(FileStat { is_dir, size, modified: Some(time) }) => Some(
            FileEntryView { name: f.name, is_dir, size, time },
        ),
        _ => None,
    }
}

/// The entries for the files that were found, in the order in which they were found.
pub open spec fn local_entries(found: Seq<FoundView>) -> Seq<FileEntryView>
    decreases found.len(),
{
    if found.len() == 0 {
        Seq::empty()
    } else {
        match local_entry(found.last()) {
            Some(e) => local_entries(found.drop_last()).push(e),
            None => local_entries(found.drop_last()),
        }
    }
}

/// The entries for the files that were found in a local directory.
pub fn list_local(found: Vec<Found>) -> (r: Vec<FileEntry>)
    ensures
        r.deep_view() == local_entries(found.deep_view()),
{
    let mut r: Vec<FileEntry> = Vec::new();
    let ghost all = found.deep_view();
    assert(r.deep_view() =~= local_entries(all.take(0)));
    for f in iter: found
        invariant
            iter.seq() == found@,
            all == found.deep_view(),
            r.deep_view() == local_entries(all.take(iter.index())),
    {
        let ghost before = r.deep_view();
        let ghost n = iter.index();
        let ghost fv = f@;
        proof {
            assert(all.take(n + 1).drop_last() =~= all.take(n));
            assert(all.take(n + 1).last() == fv);
        }
        if let Some(stat) = f.stat {
            if let Some(time) = stat.modified {
                r.push(FileEntry { name: f.name, is_dir: stat.is_dir, size: stat.size, time });
                assert(r.deep_view() =~= before.push(local_entry(fv)->0));
            }
        }
    }
    assert(all.take(all.len() as int) =~= all);
    r
}

/// A local directory: its path, the directory above it, and its entries.
#[derive(Debug)]
pub struct LocalDirResult {
    pub path: String,
    pub parent: String,
    pub entries: Vec<FileEntry>,
}

/// What a local directory is shown with.
pub struct LocalDirView {
    pub path: Seq<char>,
    pub parent: Seq<char>,
    pub entries: Seq<FileEntryView>,
}

impl View for LocalDirResult {
    type V = LocalDirView;

    open spec fn view(&self) -> LocalDirView {
        LocalDirView {
            path: self.path@,
            parent: self.parent@,
            entries: self.entries.deep_view(),
        }
    }
}

/// Whether a path asks for the directory in which the program runs.
pub open spec fn asks_for_current(path: Seq<char>) -> bool {
    path.len() == 0 || path == "."@
}

/// Whether a path asks for the directory in which the program runs.
pub fn is_current_dir(path: &str) -> (r: bool)
    ensures
        r == asks_for_current(path@),
{
    path.is_empty() || same(path, ".")
}

/// Whether a peer that asks for a directory by this path asks for the one in which the program
/// runs.
pub fn lists_current(path: &str) -> (r: bool)
    ensures
        r == (path@.len() == 0),
{
    path.is_empty()
}

/// The directory that a user asks for by a path, given the one in which the program runs.
pub open spec fn asked_dir(path: Seq<char>, current: Seq<char>) -> Seq<char> {
    if asks_for_current(path) {
        current
    } else {
        path
    }
}

/// A local directory in which files were found, given the directory above it where there is
/// one.
pub open spec fn local_view(
    path: Seq<char>,
    parent: Option<Seq<char>>,
    found: Seq<FoundView>,
) -> LocalDirView {
    LocalDirView { path, parent: parent_text(parent), entries: local_entries(found) }
}

/// Whether a local directory in which files were found is shown as such, below a directory that
/// may lie above it.
pub open spec fn shows(d: LocalDirView, path: Seq<char>, found: Seq<FoundView>) -> bool {
    d.path == path && d.entries == local_entries(found) && lies_above(d.parent, path)
}

/// A local directory in which files were found, given the directory above it where there is
/// one.
pub fn local_dir_below(path: String, parent: Option<String>, found: Vec<Found>) -> (r:
    LocalDirResult)
    ensures
        r@ == local_view(path@, parent.deep_view(), found.deep_view()),
{
    LocalDirResult { path, parent: parent_or_empty(parent), entries: list_local(found) }
}

/// A local directory in which files were found, with the directory above it. Where a path that
/// is not portable is cut is the system's to say.
pub fn local_dir(path: String, found: Vec<Found>) -> (r: LocalDirResult)
    ensures
        shows(r@, path@, found.deep_view()),
{
    let parent = path_parent(path.as_str());
    local_dir_below(path, parent, found)
}

/// Whether the local directory that a user asks for by a path is shown as such: the one in which
/// the program runs below its given parent, and any other below a directory that may lie above
/// it.
pub open spec fn shows_asked(
    d: LocalDirView,
    path: Seq<char>,
    current: Seq<char>,
    parent: Option<Seq<char>>,
    found: Seq<FoundView>,
) -> bool {
    if asked_dir(path, current) == current {
        d == local_view(current, parent, found)
    } else {
        shows(d, path, found)
    }
}

/// The local directory that a user asks for by a path, given the one in which the program runs
/// with the directory above it, where there is one, and the files that were found.
pub fn list_dir_below(
    path: String,
    current: String,
    parent: Option<String>,
    found: Vec<Found>,
) -> (r: LocalDirResult)
    ensures
        shows_asked(r@, path@, current@, parent.deep_view(), found.deep_view()),
{
    if is_current_dir(path.as_str()) || same(path.as_str(), current.as_str()) {
        local_dir_below(current, parent, found)
    } else {
        local_dir(path, found)
    }
}

/// The local directory that a user asks for by a path, given the one in which the program runs,
/// and the files that were found in it.
pub fn list_local_dir(path: String, current: String, found: Vec<Found>) -> (r: LocalDirResult)
    ensures
        shows(r@, asked_dir(path@, current@), found.deep_view()),
{
    let parent = path_parent(current.as_str());
    list_dir_below(path, current, parent, found)
}

/// The directory in which the program runs is the same whether it is asked for by the empty
/// path, by a dot or by its own path, whatever that path and whichever directory lies above it:
/// it is shown under its own path, below that directory, with the same entries.
pub proof fn law_current_directory_by_any_path(
    current: Seq<char>,
    parent: Option<Seq<char>>,
    found: Seq<FoundView>,
    first: Seq<char>,
    second: Seq<char>,
    a: LocalDirView,
    b: LocalDirView,
)
    requires
        asks_for_current(first) || first == current,
        asks_for_current(second) || second == current,
        shows_asked(a, first, current, parent, found),
        shows_asked(b, second, current, parent, found),
    ensures
        a == b,
        a == local_view(current, parent, found),
        a.path == current,
{
}

/// Where the directory above the current one is looked up for each listing, a portable path with
/// a clean cut has one and the same on every system, and the listings are equal too.
pub proof fn law_portable_directory_by_any_path(
    current: Seq<char>,
    found: Seq<FoundView>,
    first: Seq<char>,
    second: Seq<char>,
    a: LocalDirView,
    b: LocalDirView,
)
    requires
        asks_for_current(first) || first == current,
        asks_for_current(second) || second == current,
        shows(a, asked_dir(first, current), found),
        shows(b, asked_dir(second, current), found),
        portable(current),
        clean_cut(current),
    ensures
        a == b,
        a.path == current,
{
    assert(a.parent =~= parent_text(parent_part(current)));
    assert(b.parent =~= parent_text(parent_part(current)));
}

/// An entry of a peer's directory.
#[derive(Debug)]
pub struct DirEntry {
    pub name: String,
    pub is_dir: bool,
    pub size: u64,
}

/// What an entry of a peer's directory says.
pub struct DirEntryView {
    pub name: Seq<char>,
    pub is_dir: bool,
    pub size: u64,
}

impl View for DirEntry {
    type V = DirEntryView;

    open spec fn view(&self) -> DirEntryView {
        DirEntryView { name: self.name@, is_dir: self.is_dir, size: self.size }
    }
}

impl DeepView for DirEntry {
    type V = DirEntryView;

    open spec fn deep_view(&self) -> DirEntryView {
        self@
    }
}

/// The entry of a peer's directory for a file that was found, unless nothing is known of it.
pub open spec fn remote_entry(f: FoundView) -> Option<DirEntryView> {
    match f.stat {
        Some(FileStat { is_dir, size, .. }) => Some(DirEntryView { name: f.name, is_dir, size }),
        None => None,
    }
}

/// The entries of a peer's directory for the files that were found, in the order in which they
/// were found.
pub open spec fn remote_entries(found: Seq<FoundView>) -> Seq<DirEntryView>
    decreases found.len(),
{
    if found.len() == 0 {
        Seq::empty()
    } else {
        match remote_entry(found.last()) {
            Some(e) => remote_entries(found.drop_last()).push(e),
            None => remote_entries(found.drop_last()),
        }
    }
}

/// The entries with which a peer is answered, for the files that were found in a directory.
pub fn list_for_peer(found: Vec<Found>) -> (r: Vec<DirEntry>)
    ensures
        r.deep_view() == remote_entries(found.deep_view()),
{
    let mut r: Vec<DirEntry> = Vec::new();
    let ghost all = found.deep_view();
    assert(r.deep_view() =~= remote_entries(all.take(0)));
    for f in iter: found
        invariant
            iter.seq() == found@,
            all == found.deep_view(),
            r.deep_view() == remote_entries(all.take(iter.index())),
    {
        let ghost before = r.deep_view();
        let ghost n = iter.index();
        let ghost fv = f@;
        proof {
            assert(all.take(n + 1).drop_last() =~= all.take(n));
            assert(all.take(n + 1).last() == fv);
        }
        if let Some(stat) = f.stat {
            r.push(DirEntry { name: f.name, is_dir: stat.is_dir, size: stat.size });
            assert(r.deep_view() =~= before.push(remote_entry(fv)->0));
        }
    }
    assert(all.take(all.len() as int) =~= all);
    r
}

/// Whether an entry is shown above another: directories above files, and else by name.
pub open spec fn above(a: DirEntryView, b: DirEntryView) -> bool {
    (a.is_dir && !b.is_dir) || (a.is_dir == b.is_dir && text_before(a.name, b.name))
}

/// Sorted entries with one more put below every entry that it is not above.
pub open spec fn placed(s: Seq<DirEntryView>, e: DirEntryView) -> Seq<DirEntryView>
    decreases s.len(),
{
    if s.len() > 0 && above(e, s.last()) {
        placed(s.drop_last(), e).push(s.last())
    } else {
        s.push(e)
    }
}

/// Entries in the order in which they are shown.
pub open spec fn shown_order(s: Seq<DirEntryView>) -> Seq<DirEntryView>
    decreases s.len(),
{
    if s.len() == 0 {
        s
    } else {
        placed(shown_order(s.drop_last()), s.last())
    }
}

fn is_above(a: &DirEntry, b: &DirEntry) -> (r: bool)
    ensures
        r == above(a@, b@),
{
    if a.is_dir == b.is_dir {
        comes_before(a.name.as_str(), b.name.as_str())
    } else {
        a.is_dir
    }
}

proof fn lemma_placed_at(s: Seq<DirEntryView>, e: DirEntryView, i: int)
    requires
        0 <= i <= s.len(),
        forall|k: int| i <= k < s.len() ==> above(e, #[trigger] s[k]),
        i > 0 ==> !above(e, s[i - 1]),
    ensures
        placed(s, e) == s.insert(i, e),
    decreases s.len(),
{
    if i < s.len() {
        let t = s.drop_last();
        assert forall|k: int| i <= k < t.len() implies above(e, #[trigger] t[k]) by {
            assert(t[k] == s[k]);
        }
        lemma_placed_at(t, e, i);
        assert(t.insert(i, e).push(s.last()) =~= s.insert(i, e));
    } else {
        assert(s.insert(i, e) =~= s.push(e));
    }
}

/// Puts entries into the order in which they are shown.
pub fn sort_entries(entries: Vec<DirEntry>) -> (r: Vec<DirEntry>)
    ensures
        r.deep_view() == shown_order(entries.deep_view()),
{
    let mut out: Vec<DirEntry> = Vec::new();
    let ghost all = entries.deep_view();
    assert(out.deep_view() =~= shown_order(all.take(0)));
    for e in iter: entries
        invariant
            iter.seq() == entries@,
            all == entries.deep_view(),
            out.deep_view() == shown_order(all.take(iter.index())),
    {
        let ghost before = out.deep_view();
        let ghost n = iter.index();
        let mut i: usize = out.len();
        while i > 0 && is_above(&e, &out[i - 1])
            invariant
                i <= out.len(),
                before == out.deep_view(),
                forall|k: int| i <= k < out.len() ==> above(e@, #[trigger] before[k]),
            decreases i,
        {
            i -= 1;
        }
        proof {
            lemma_placed_at(before, e@, i as int);
        }
        let ghost ev = e@;
        out.insert(i, e);
        proof {
            assert(out.deep_view() =~= before.insert(i as int, ev));
            assert(all.take(n + 1).drop_last() =~= all.take(n));
            assert(all.take(n + 1).last() == ev);
        }
    }
    assert(all.take(all.len() as int) =~= all);
    out
}

/// Whether no entry is above one that is shown before it.
pub open spec fn in_order(s: Seq<DirEntryView>) -> bool {
    forall|i: int, j: int| 0 <= i < j < s.len() ==> !above(#[trigger] s[j], #[trigger] s[i])
}

/// Whether two entries are of one kind and of one name, so that neither is above the other.
pub open spec fn alike(a: DirEntryView, b: DirEntryView) -> bool {
    a.is_dir == b.is_dir && a.name == b.name
}

/// The entries that are of one kind and of one name with a given one.
pub open spec fn those_alike(s: Seq<DirEntryView>, e: DirEntryView) -> Seq<DirEntryView> {
    s.filter(|x: DirEntryView| alike(x, e))
}

proof fn lemma_above_total(a: DirEntryView, b: DirEntryView)
    ensures
        above(a, b) ==> !above(b, a),
        !above(a, b) && !above(b, a) <==> alike(a, b),
{
    lemma_text_before_total(a.name, b.name);
}

proof fn lemma_not_above_chain(a: DirEntryView, b: DirEntryView, c: DirEntryView)
    requires
        !above(a, b),
        !above(b, c),
    ensures
        !above(a, c),
{
    lemma_text_before_total(a.name, b.name);
    lemma_text_before_total(b.name, c.name);
    lemma_text_before_total(a.name, c.name);
    if above(a, c) {
        if a.is_dir == b.is_dir && b.is_dir == c.is_dir {
            if b.name != a.name && c.name != b.name {
                lemma_text_before_chain(c.name, b.name, a.name);
            }
        }
    }
}

proof fn lemma_placed(s: Seq<DirEntryView>, e: DirEntryView)
    requires
        in_order(s),
    ensures
        in_order(placed(s, e)),
        forall|i: int|
            0 <= i < placed(s, e).len() ==> #[trigger] placed(s, e)[i] == e || s.contains(
                placed(s, e)[i],
            ),
    decreases s.len(),
{
    let p = placed(s, e);
    if s.len() > 0 && above(e, s.last()) {
        let t = s.drop_last();
        assert(in_order(t)) by {
            assert forall|i: int, j: int| 0 <= i < j < t.len() implies !above(
                #[trigger] t[j],
                #[trigger] t[i],
            ) by {
                assert(t[i] == s[i] && t[j] == s[j]);
            }
        }
        lemma_placed(t, e);
        let q = placed(t, e);
        assert forall|i: int| 0 <= i < p.len() implies #[trigger] p[i] == e || s.contains(
            p[i],
        ) by {
            if i < q.len() {
                assert(p[i] == q[i]);
                if q[i] != e {
                    let k = choose|k: int| 0 <= k < t.len() && t[k] == q[i];
                    assert(s[k] == p[i]);
                }
            } else {
                assert(s[s.len() - 1] == p[i]);
            }
        }
        assert forall|i: int, j: int| 0 <= i < j < p.len() implies !above(
            #[trigger] p[j],
            #[trigger] p[i],
        ) by {
            assert(p[i] == q[i]);
            if j < q.len() {
                assert(p[j] == q[j]);
            } else if q[i] == e {
                lemma_above_total(e, s.last());
            } else {
                let k = choose|k: int| 0 <= k < t.len() && t[k] == q[i];
                assert(s[k] == q[i] && s[s.len() - 1] == p[j]);
            }
        }
    } else {
        assert forall|i: int, j: int| 0 <= i < j < p.len() implies !above(
            #[trigger] p[j],
            #[trigger] p[i],
        ) by {
            if j < s.len() {
                assert(p[i] == s[i] && p[j] == s[j]);
            } else if i < s.len() - 1 {
                assert(!above(s[s.len() - 1], s[i]));
                lemma_not_above_chain(e, s.last(), s[i]);
            }
        }
        assert forall|i: int| 0 <= i < p.len() implies #[trigger] p[i] == e || s.contains(
            p[i],
        ) by {
            if i < s.len() {
                assert(s[i] == p[i]);
            }
        }
    }
}

proof fn lemma_placed_keeps(s: Seq<DirEntryView>, e: DirEntryView, k: DirEntryView)
    ensures
        placed(s, e).to_multiset() == s.to_multiset().insert(e),
        those_alike(placed(s, e), k) == (if alike(e, k) {
            those_alike(s, k).push(e)
        } else {
            those_alike(s, k)
        }),
    decreases s.len(),
{
    broadcast use vstd::seq_lib::group_to_multiset_ensures;

    reveal(Seq::filter);
    if s.len() > 0 && above(e, s.last()) {
        let t = s.drop_last();
        lemma_placed_keeps(t, e, k);
        assert(t.push(s.last()) =~= s);
        assert(placed(t, e).push(s.last()).drop_last() =~= placed(t, e));
        assert(t.to_multiset().insert(e).insert(s.last()) =~= t.to_multiset().insert(
            s.last(),
        ).insert(e));
        lemma_above_total(e, s.last());
    } else {
        assert(s.push(e).drop_last() =~= s);
    }
}

/// No entry is shown below one that it is above: directories come before files, and within
/// each kind names ascend.
pub proof fn law_shown_order_is_in_order(s: Seq<DirEntryView>)
    ensures
        in_order(shown_order(s)),
    decreases s.len(),
{
    if s.len() > 0 {
        law_shown_order_is_in_order(s.drop_last());
        lemma_placed(shown_order(s.drop_last()), s.last());
    }
}

/// Ordering the entries neither loses nor adds one.
pub proof fn law_shown_order_keeps_entries(s: Seq<DirEntryView>)
    ensures
        shown_order(s).to_multiset() == s.to_multiset(),
    decreases s.len(),
{
    broadcast use vstd::seq_lib::group_to_multiset_ensures;

    if s.len() > 0 {
        law_shown_order_keeps_entries(s.drop_last());
        lemma_placed_keeps(shown_order(s.drop_last()), s.last(), s.last());
        assert(s.drop_last().push(s.last()) =~= s);
    }
}

/// Entries of one kind and one name keep the order in which they came.
pub proof fn law_shown_order_is_stable(s: Seq<DirEntryView>, e: DirEntryView)
    ensures
        those_alike(shown_order(s), e) == those_alike(s, e),
    decreases s.len(),
{
    reveal(Seq::filter);
    if s.len() > 0 {
        law_shown_order_is_stable(s.drop_last(), e);
        lemma_placed_keeps(shown_order(s.drop_last()), s.last(), e);
    }
}

/// The places of the files of which something is known, in the order in which they were found.
pub open spec fn known_places(found: Seq<FoundView>) -> Seq<int>
    decreases found.len(),
{
    if found.len() == 0 {
        Seq::empty()
    } else if found.last().stat is Some {
        known_places(found.drop_last()).push(found.len() - 1)
    } else {
        known_places(found.drop_last())
    }
}

/// The places of the files of which a time is known, in the order in which they were found.
pub open spec fn timed_places(found: Seq<FoundView>) -> Seq<int>
    decreases found.len(),
{
    if found.len() == 0 {
        Seq::empty()
    } else if found.last().stat is Some && found.last().stat->0.modified is Some {
        timed_places(found.drop_last()).push(found.len() - 1)
    } else {
        timed_places(found.drop_last())
    }
}

/// The places of files are in order, and are exactly those of the files that are meant.
pub proof fn law_places(found: Seq<FoundView>, k: int, j: int, i: int)
    ensures
        0 <= k < j < known_places(found).len() ==> known_places(found)[k] < known_places(found)[j],
        known_places(found).contains(i) <==> 0 <= i < found.len() && found[i].stat is Some,
        0 <= k < j < timed_places(found).len() ==> timed_places(found)[k] < timed_places(found)[j],
        timed_places(found).contains(i) <==> 0 <= i < found.len() && found[i].stat is Some
            && found[i].stat->0.modified is Some,
    decreases found.len(),
{
    if found.len() > 0 {
        let front = found.drop_last();
        let n = front.len() as int;
        law_places(front, k, j, i);
        let p = known_places(front);
        let q = timed_places(front);
        if 0 <= k < p.len() {
            law_places(front, k, j, p[k]);
            assert(p.contains(p[k]));
        }
        if 0 <= k < q.len() {
            law_places(front, k, j, q[k]);
            assert(q.contains(q[k]));
        }
        let all = known_places(found);
        let timed = timed_places(found);
        if p.contains(i) {
            let m = choose|m: int| 0 <= m < p.len() && p[m] == i;
            assert(all[m] == i);
        }
        if q.contains(i) {
            let m = choose|m: int| 0 <= m < q.len() && q[m] == i;
            assert(timed[m] == i);
        }
        if i == n {
            if found[i].stat is Some {
                assert(all[p.len() as int] == n);
                if found[i].stat->0.modified is Some {
                    assert(timed[q.len() as int] == n);
                }
            }
        }
        if all.contains(i) {
            let m = choose|m: int| 0 <= m < all.len() && all[m] == i;
            if m < p.len() {
                assert(p[m] == i);
            }
        }
        if timed.contains(i) {
            let m = choose|m: int| 0 <= m < timed.len() && timed[m] == i;
            if m < q.len() {
                assert(q[m] == i);
            }
        }
    }
}

/// A peer is told of exactly the files of which something is known, in the order in which they
/// were found: each under its own name, as the directory or the file that it is, with its size.
pub proof fn law_entries_for_a_peer(found: Seq<FoundView>, k: int)
    ensures
        remote_entries(found).len() == known_places(found).len(),
        0 <= k < known_places(found).len() ==> {
            let f = found[known_places(found)[k]];
            let e = remote_entries(found)[k];
            &&& 0 <= known_places(found)[k] < found.len()
            &&& e.name == f.name
            &&& e.is_dir == f.stat->0.is_dir
            &&& e.size == f.stat->0.size
        },
    decreases found.len(),
{
    if found.len() > 0 {
        let front = found.drop_last();
        law_entries_for_a_peer(front, k);
        if 0 <= k < known_places(front).len() {
            let i = known_places(front)[k];
            assert(front[i] == found[i]);
        }
    }
}

/// The user is shown exactly the files of which a time is known, in the order in which they were
/// found: each under its own name, as the directory or the file that it is, with its size and
/// its time.
pub proof fn law_local_entries(found: Seq<FoundView>, k: int)
    ensures
        local_entries(found).len() == timed_places(found).len(),
        0 <= k < timed_places(found).len() ==> {
            let f = found[timed_places(found)[k]];
            let e = local_entries(found)[k];
            &&& 0 <= timed_places(found)[k] < found.len()
            &&& e.name == f.name
            &&& e.is_dir == f.stat->0.is_dir
            &&& e.size == f.stat->0.size
            &&& Some(e.time) == f.stat->0.modified
        },
    decreases found.len(),
{
    if found.len() > 0 {
        let front = found.drop_last();
        law_local_entries(front, k);
        if 0 <= k < timed_places(front).len() {
            let i = timed_places(front)[k];
            assert(front[i] == found[i]);
        }
    }
}

/// Only the empty path and a single dot stand for the directory in which the program runs.
pub proof fn law_asked_directory(path: Seq<char>, current: Seq<char>)
    ensures
        path.len() == 0 ==> asked_dir(path, current) == current,
        path == "."@ ==> asked_dir(path, current) == current,
        path.len() > 0 && path != "."@ ==> asked_dir(path, current) == path,
{
}

/// A local directory is shown under its own path, below the given directory or none, with the
/// entries for the files that were found.
pub proof fn law_local_view(path: Seq<char>, parent: Option<Seq<char>>, found: Seq<FoundView>)
    ensures
        local_view(path, parent, found).path == path,
        parent matches Some(p) ==> local_view(path, parent, found).parent == p,
        parent is None ==> local_view(path, parent, found).parent.len() == 0,
        local_view(path, parent, found).entries == local_entries(found),
{
}

/// No file is shown above a directory, and of two of one kind none is shown above the other
/// whose name comes before its own.
pub proof fn law_directories_come_first(s: Seq<DirEntryView>, i: int, j: int)
    requires
        0 <= i < j < shown_order(s).len(),
    ensures
        shown_order(s)[j].is_dir ==> shown_order(s)[i].is_dir,
        shown_order(s)[i].is_dir == shown_order(s)[j].is_dir ==> !text_before(
            shown_order(s)[j].name,
            shown_order(s)[i].name,
        ),
{
    law_shown_order_is_in_order(s);
    assert(!above(shown_order(s)[j], shown_order(s)[i]));
}

/// Entries of one kind and one name are shown in the order in which they came.
pub proof fn law_like_entries_keep_their_order(s: Seq<DirEntryView>, is_dir: bool, name: Seq<char>)
    ensures
        shown_order(s).filter(|e: DirEntryView| e.is_dir == is_dir && e.name == name) == s.filter(
            |e: DirEntryView| e.is_dir == is_dir && e.name == name,
        ),
{
    let e = DirEntryView { name, is_dir, size: 0 };
    law_shown_order_is_stable(s, e);
    let f = |x: DirEntryView| x.is_dir == is_dir && x.name == name;
    let g = |x: DirEntryView| alike(x, e);
    assert(f =~= g);
}

/// A directory that is shown is shown under its own path, below one that may lie above it, with
/// one entry for each file of which a time is known, in the order in which they were found: under
/// its own name, as the directory or the file that it is, with its size and its time.
pub proof fn law_shown_directories(d: LocalDirView, path: Seq<char>, found: Seq<FoundView>, k: int)
    requires
        shows(d, path, found),
    ensures
        d.path == path,
        lies_above(d.parent, path),
        d.entries.len() == timed_places(found).len(),
        0 <= k < d.entries.len() ==> {
            let f = found[timed_places(found)[k]];
            &&& d.entries[k].name == f.name
            &&& d.entries[k].is_dir == f.stat->0.is_dir
            &&& d.entries[k].size == f.stat->0.size
            &&& Some(d.entries[k].time) == f.stat->0.modified
        },
{
    law_local_entries(found, k);
}

/// A directory that is asked for is shown under the path that was asked for, or under that of the
/// directory in which the program runs where that one was meant, and then below the very
/// directory that was given as the one above it.
pub proof fn law_asked_directories_are_shown(
    d: LocalDirView,
    path: Seq<char>,
    current: Seq<char>,
    parent: Option<Seq<char>>,
    found: Seq<FoundView>,
)
    requires
        shows_asked(d, path, current, parent, found),
    ensures
        d.entries == local_entries(found),
        path.len() == 0 || path == "."@ || path == current ==> {
            &&& d.path == current
            &&& parent matches Some(p) ==> d.parent == p
            &&& parent is None ==> d.parent.len() == 0
        },
        path.len() > 0 && path != "."@ && path != current ==> d.path == path && lies_above(
            d.parent,
            path,
        ),
{
}

} // verus!
