//! The file tree pane: the entries of a directory, directories first and
//! each group ordered by name without regard to case, hidden entries left
//! out, with expanded directories followed by their own entries.
//!
//! The directories are read elsewhere; what was read is handed in as a
//! snapshot: for each directory read, the entries it holds in the order the
//! system listed them.
use vstd::prelude::*;
use crate::filetree::order::{lowercased, name_less, name_lt, to_lowercase};
use crate::shell::cwd::chars_of;

pub mod laws;
pub mod order;

verus! {

/// One entry of a directory, as read.
pub struct DirEntryInfo {
    pub name: String,
    pub path: String,
    pub is_dir: bool,
}

/// The entries of the directory at `path`, in the order they were read.
pub struct DirListing {
    pub path: String,
    pub entries: Vec<DirEntryInfo>,
}

pub struct FileEntry {
    pub name: String,
    pub path: String,
    pub is_dir: bool,
    pub depth: usize,
    pub expanded: bool,
}

pub struct FileTree {
    pub root: String,
    pub entries: Vec<FileEntry>,
    pub selected: usize,
}

pub struct RawView {
    pub name: Seq<char>,
    pub path: Seq<char>,
    pub is_dir: bool,
}

pub struct ListingView {
    pub path: Seq<char>,
    pub entries: Seq<RawView>,
}

pub struct EntryView {
    pub name: Seq<char>,
    pub path: Seq<char>,
    pub is_dir: bool,
    pub depth: int,
    pub expanded: bool,
}

pub struct TreeView {
    pub root: Seq<char>,
    pub entries: Seq<EntryView>,
    pub selected: int,
}

impl View for DirEntryInfo {
    type V = RawView;

    open spec fn view(&self) -> RawView {
        RawView { name: self.name@, path: self.path@, is_dir: self.is_dir }
    }
}

impl View for DirListing {
    type V = ListingView;

    open spec fn view(&self) -> ListingView {
        ListingView { path: self.path@, entries: raw_views(self.entries@) }
    }
}

impl View for FileEntry {
    type V = EntryView;

    open spec fn view(&self) -> EntryView {
        EntryView {
            name: self.name@,
            path: self.path@,
            is_dir: self.is_dir,
            depth: self.depth as int,
            expanded: self.expanded,
        }
    }
}

/// The views of a sequence of entries.
pub open spec fn entry_views(v: Seq<FileEntry>) -> Seq<EntryView> {
    Seq::new(v.len(), |i: int| v[i]@)
}

/// The views of raw directory entries.
pub open spec fn raw_views(v: Seq<DirEntryInfo>) -> Seq<RawView> {
    Seq::new(v.len(), |i: int| v[i]@)
}

/// The chars of each path.
pub open spec fn path_views(v: Seq<String>) -> Seq<Seq<char>> {
    Seq::new(v.len(), |i: int| v[i]@)
}

/// The views of a snapshot's listings.
pub open spec fn snapshot_view(v: Seq<DirListing>) -> Seq<ListingView> {
    Seq::new(v.len(), |i: int| v[i]@)
}

impl View for FileTree {
    type V = TreeView;

    open spec fn view(&self) -> TreeView {
        TreeView { root: self.root@, entries: entry_views(self.entries@), selected: self.selected as int }
    }
}

/// The entries listed for the directory at `path`: those of the first
/// listing of that path in the snapshot, none if it was not read.
pub open spec fn lookup(snap: Seq<ListingView>, path: Seq<char>) -> Seq<RawView>
    decreases snap.len(),
{
    if snap.len() == 0 {
        Seq::empty()
    } else if snap[0].path == path {
        snap[0].entries
    } else {
        lookup(snap.drop_first(), path)
    }
}

/// A snapshot as reading directories gives it: each entry's path extends
/// its directory's path (it is the directory's path joined with the name).
pub open spec fn snapshot_ok(snap: Seq<ListingView>) -> bool {
    forall|i: int, j: int|
        0 <= i < snap.len() && 0 <= j < snap[i].entries.len() ==> #[trigger] snap[i].entries[j].path.len()
            > snap[i].path.len()
}

pub open spec fn is_hidden(name: Seq<char>) -> bool {
    name.len() > 0 && name[0] == '.'
}

pub open spec fn entry_of(r: RawView, depth: int) -> EntryView {
    EntryView { name: r.name, path: r.path, is_dir: r.is_dir, depth: depth, expanded: false }
}

/// The entries of `raw` that are not hidden and are directories (`dirs`)
/// or not, in the order read, at `depth`.
pub open spec fn kept(raw: Seq<RawView>, depth: int, dirs: bool) -> Seq<EntryView>
    decreases raw.len(),
{
    if raw.len() == 0 {
        Seq::empty()
    } else {
        let prev = kept(raw.drop_last(), depth, dirs);
        let e = raw.last();
        if !is_hidden(e.name) && e.is_dir == dirs {
            prev.push(entry_of(e, depth))
        } else {
            prev
        }
    }
}

pub open spec fn entry_key(e: EntryView) -> Seq<char> {
    lowercased(e.name)
}

/// `x` inserted into `s` after every entry whose key is not greater.
pub open spec fn insert_by_name(s: Seq<EntryView>, x: EntryView) -> Seq<EntryView>
    decreases s.len(),
{
    if s.len() == 0 {
        seq![x]
    } else if name_lt(entry_key(x), entry_key(s.last())) {
        insert_by_name(s.drop_last(), x).push(s.last())
    } else {
        s.push(x)
    }
}

/// `s` in order of key; entries with equal keys keep their order.
pub open spec fn sort_by_name(s: Seq<EntryView>) -> Seq<EntryView>
    decreases s.len(),
{
    if s.len() == 0 {
        Seq::empty()
    } else {
        insert_by_name(sort_by_name(s.drop_last()), s.last())
    }
}

/// A directory's entries as the tree lists them: directories, then other
/// entries, each ordered by lowercased name; hidden entries left out.
pub open spec fn listing(raw: Seq<RawView>, depth: int) -> Seq<EntryView> {
    sort_by_name(kept(raw, depth, true)) + sort_by_name(kept(raw, depth, false))
}

/// The number of paths in `ps` no longer than `n` chars.
pub open spec fn count_upto(ps: Seq<Seq<char>>, n: int) -> nat
    decreases ps.len(),
{
    if ps.len() == 0 {
        0
    } else {
        count_upto(ps.drop_last(), n) + if ps.last().len() <= n {
            1nat
        } else {
            0nat
        }
    }
}

pub proof fn lemma_count_upto(ps: Seq<Seq<char>>, n: int, p: Seq<char>)
    ensures
        count_upto(ps, n) <= ps.len(),
        ps.contains(p) && p.len() > n ==> count_upto(ps, p.len() as int) >= count_upto(ps, n) + 1,
        p.len() >= n ==> count_upto(ps, p.len() as int) >= count_upto(ps, n),
    decreases ps.len(),
{
    if ps.len() > 0 {
        lemma_count_upto(ps.drop_last(), n, p);
        if ps.contains(p) && p.len() > n && ps.last() != p {
            let i = choose|i: int| 0 <= i < ps.len() && ps[i] == p;
            assert(ps.drop_last()[i] == p);
        }
    }
}

/// The entries that `children` (the listing of a directory whose path has
/// `parent_len` chars) contribute to the tree: each child, and after each
/// directory that `expanded` names, that directory's own entries.
pub open spec fn forest(
    snap: Seq<ListingView>,
    parent_len: int,
    children: Seq<EntryView>,
    depth: int,
    expanded: Seq<Seq<char>>,
) -> Seq<EntryView>
    decreases expanded.len() - count_upto(expanded, parent_len), children.len(),
{
    if children.len() == 0 {
        Seq::empty()
    } else {
        let prev = forest(snap, parent_len, children.drop_last(), depth, expanded);
        let c = children.last();
        if c.is_dir && expanded.contains(c.path) && c.path.len() > parent_len {
            proof {
                lemma_count_upto(expanded, parent_len, c.path);
                lemma_count_upto(expanded, c.path.len() as int, c.path);
            }
            prev.push(EntryView { expanded: true, ..c }) + forest(
                snap,
                c.path.len() as int,
                listing(lookup(snap, c.path), depth + 1),
                depth + 1,
                expanded,
            )
        } else {
            prev.push(c)
        }
    }
}

/// The tree below `path`, at `depth`, with the directories named in
/// `expanded` expanded.
pub open spec fn tree(snap: Seq<ListingView>, path: Seq<char>, depth: int, expanded: Seq<Seq<char>>) -> Seq<EntryView> {
    forest(snap, path.len() as int, listing(lookup(snap, path), depth), depth, expanded)
}

/// The paths of the expanded directories among `entries`, in order.
pub open spec fn expanded_paths(entries: Seq<EntryView>) -> Seq<Seq<char>>
    decreases entries.len(),
{
    if entries.len() == 0 {
        Seq::empty()
    } else {
        let prev = expanded_paths(entries.drop_last());
        let e = entries.last();
        if e.is_dir && e.expanded {
            prev.push(e.path)
        } else {
            prev
        }
    }
}

/// Every entry's path is longer than `n` chars, and every entry is at `depth`.
pub open spec fn all_longer(s: Seq<EntryView>, n: int, depth: int) -> bool {
    forall|i: int| #![trigger s[i]] 0 <= i < s.len() ==> s[i].path.len() > n && s[i].depth == depth
}

proof fn lemma_all_longer_at(s: Seq<EntryView>, n: int, depth: int, k: int)
    requires
        all_longer(s, n, depth),
        0 <= k < s.len(),
    ensures
        s[k].path.len() > n,
        s[k].depth == depth,
{
}

proof fn lemma_lookup_longer(snap: Seq<ListingView>, path: Seq<char>)
    requires
        snapshot_ok(snap),
    ensures
        forall|j: int| 0 <= j < lookup(snap, path).len() ==> #[trigger] lookup(snap, path)[j].path.len() > path.len(),
    decreases snap.len(),
{
    if snap.len() > 0 {
        if snap[0].path == path {
            assert(lookup(snap, path) == snap[0].entries);
            assert forall|j: int| 0 <= j < lookup(snap, path).len() implies #[trigger] lookup(snap, path)[j].path.len() > path.len() by {
                assert(snap[0].entries[j].path.len() > snap[0].path.len());
            }
        } else {
            assert forall|i: int, j: int|
                0 <= i < snap.drop_first().len() && 0 <= j < snap.drop_first()[i].entries.len() implies #[trigger] snap.drop_first()[i].entries[j].path.len()
                > snap.drop_first()[i].path.len() by {
                assert(snap.drop_first()[i] == snap[i + 1]);
            }
            lemma_lookup_longer(snap.drop_first(), path);
            assert(lookup(snap, path) == lookup(snap.drop_first(), path));
        }
    }
}

proof fn lemma_kept_longer(raw: Seq<RawView>, depth: int, dirs: bool, n: int)
    requires
        forall|j: int| 0 <= j < raw.len() ==> #[trigger] raw[j].path.len() > n,
    ensures
        all_longer(kept(raw, depth, dirs), n, depth),
    decreases raw.len(),
{
    if raw.len() > 0 {
        assert forall|j: int| 0 <= j < raw.drop_last().len() implies #[trigger] raw.drop_last()[j].path.len() > n by {
            assert(raw[j].path.len() > n);
        }
        lemma_kept_longer(raw.drop_last(), depth, dirs, n);
        assert(raw[raw.len() - 1].path.len() > n);
        let prev = kept(raw.drop_last(), depth, dirs);
        let x = entry_of(raw.last(), depth);
        assert forall|i: int| 0 <= i < prev.push(x).len() implies #[trigger] prev.push(x)[i].path.len() > n
            && prev.push(x)[i].depth == depth by {
            if i < prev.len() {
                assert(prev[i].path.len() > n);
            }
        }
        assert(all_longer(prev.push(x), n, depth));
        assert(all_longer(prev, n, depth));
        if !is_hidden(raw.last().name) && raw.last().is_dir == dirs {
            assert(kept(raw, depth, dirs) == prev.push(x));
        } else {
            assert(kept(raw, depth, dirs) == prev);
        }
    }
}

proof fn lemma_insert_longer(s: Seq<EntryView>, x: EntryView, n: int, d: int)
    requires
        all_longer(s, n, d),
        x.path.len() > n,
        x.depth == d,
    ensures
        all_longer(insert_by_name(s, x), n, d),
    decreases s.len(),
{
    if s.len() > 0 && name_lt(entry_key(x), entry_key(s.last())) {
        lemma_insert_longer(s.drop_last(), x, n, d);
    }
}

proof fn lemma_sort_longer(s: Seq<EntryView>, n: int, d: int)
    requires
        all_longer(s, n, d),
    ensures
        all_longer(sort_by_name(s), n, d),
    decreases s.len(),
{
    if s.len() > 0 {
        lemma_sort_longer(s.drop_last(), n, d);
        lemma_insert_longer(sort_by_name(s.drop_last()), s.last(), n, d);
    }
}

/// The entries listed for a directory all lie below it.
proof fn lemma_listing_longer(snap: Seq<ListingView>, path: Seq<char>, depth: int)
    requires
        snapshot_ok(snap),
    ensures
        all_longer(listing(lookup(snap, path), depth), path.len() as int, depth),
{
    lemma_lookup_longer(snap, path);
    let raw = lookup(snap, path);
    lemma_kept_longer(raw, depth, true, path.len() as int);
    lemma_kept_longer(raw, depth, false, path.len() as int);
    lemma_sort_longer(kept(raw, depth, true), path.len() as int, depth);
    lemma_sort_longer(kept(raw, depth, false), path.len() as int, depth);
}

/// Whether each entry's path in `snap` is longer than its directory's, as
/// reading the tree from it asks.
pub fn snapshot_is_ok(snap: &Vec<DirListing>) -> (b: bool)
    ensures
        b == snapshot_ok(snapshot_view(snap@)),
{
    let ghost sv = snapshot_view(snap@);
    for i in 0..snap.len()
        invariant
            sv == snapshot_view(snap@),
            forall|a: int, j: int|
                0 <= a < i && 0 <= j < sv[a].entries.len() ==> #[trigger] sv[a].entries[j].path.len()
                    > sv[a].path.len(),
    {
        let dir_len = chars_of(snap[i].path.as_str()).len();
        let entries = &snap[i].entries;
        assert(sv[i as int].entries == raw_views(entries@));
        for j in 0..entries.len()
            invariant
                sv == snapshot_view(snap@),
                i < snap.len(),
                entries@ == snap@[i as int].entries@,
                dir_len == sv[i as int].path.len(),
                sv[i as int].entries == raw_views(entries@),
                forall|a: int, k: int|
                    0 <= a < i && 0 <= k < sv[a].entries.len() ==> #[trigger] sv[a].entries[k].path.len()
                        > sv[a].path.len(),
                forall|k: int| 0 <= k < j ==> #[trigger] sv[i as int].entries[k].path.len() > dir_len,
        {
            if chars_of(entries[j].path.as_str()).len() <= dir_len {
                assert(sv[i as int].entries[j as int].path.len() <= sv[i as int].path.len());
                return false;
            }
        }
        assert forall|a: int, k: int|
            0 <= a < i + 1 && 0 <= k < sv[a].entries.len() implies #[trigger] sv[a].entries[k].path.len()
            > sv[a].path.len() by {
            if a == i {
                assert(sv[i as int].entries[k].path.len() > dir_len);
            }
        }
    }
    true
}

/// A copy of `e`.
fn copy_entry(e: &FileEntry) -> (r: FileEntry)
    ensures
        r@ == e@,
{
    FileEntry {
        name: e.name.clone(),
        path: e.path.clone(),
        is_dir: e.is_dir,
        depth: e.depth,
        expanded: e.expanded,
    }
}

/// The entries of the first listing of `path` in the snapshot.
fn lookup_listing<'a>(snap: &'a Vec<DirListing>, path: &String) -> (r: Option<&'a Vec<DirEntryInfo>>)
    ensures
        match r {
            None => lookup(snapshot_view(snap@), path@) == Seq::<RawView>::empty(),
            Some(v) => lookup(snapshot_view(snap@), path@) == raw_views(v@),
        },
{
    let ghost sv = snapshot_view(snap@);
    let mut i: usize = 0;
    assert(sv.skip(0) =~= sv);
    while i < snap.len()
        invariant
            sv == snapshot_view(snap@),
            i <= snap.len(),
            lookup(sv, path@) == lookup(sv.skip(i as int), path@),
        decreases snap.len() - i,
    {
        assert(sv.skip(i as int)[0] == snap@[i as int]@);
        if snap[i].path == *path {
            return Some(&snap[i].entries);
        }
        assert(sv.skip(i as int).drop_first() =~= sv.skip(i + 1));
        i = i + 1;
    }
    None
}

/// Whether a directory entry's name marks it hidden.
fn hidden(name: &String) -> (b: bool)
    ensures
        b == is_hidden(name@),
{
    let cs = chars_of(name.as_str());
    cs.len() > 0 && cs[0] == '.'
}

/// `entries` ordered by lowercased name; entries with equal names keep
/// their order.
fn sort_entries(entries: &Vec<FileEntry>) -> (r: Vec<FileEntry>)
    ensures
        entry_views(r@) == sort_by_name(entry_views(entries@)),
{
    let ghost ev = entry_views(entries@);
    let mut keys: Vec<Vec<char>> = Vec::new();
    let mut out: Vec<FileEntry> = Vec::new();
    for i in 0..entries.len()
        invariant
            ev == entry_views(entries@),
            keys.len() == out.len(),
            forall|j: int| 0 <= j < keys.len() ==> #[trigger] keys@[j]@ == entry_key(out@[j]@),
            entry_views(out@) == sort_by_name(ev.take(i as int)),
    {
        let e = copy_entry(&entries[i]);
        let key = chars_of(to_lowercase(e.name.as_str()).as_str());
        let mut j = out.len();
        let ghost sorted = entry_views(out@);
        while j > 0 && name_less(&key, &keys[j - 1])
            invariant
                j <= out.len(),
                keys.len() == out.len(),
                forall|t: int| 0 <= t < keys.len() ==> #[trigger] keys@[t]@ == entry_key(out@[t]@),
                key@ == entry_key(e@),
                sorted == entry_views(out@),
                forall|t: int| j <= t < out.len() ==> name_lt(key@, #[trigger] entry_key(sorted[t])),
            decreases j,
        {
            j = j - 1;
        }
        proof {
            lemma_insert_by_name_at(sorted, e@, j as int);
            assert(ev.take(i + 1).drop_last() =~= ev.take(i as int));
            assert(ev.take(i + 1).last() == e@);
        }
        keys.insert(j, key);
        out.insert(j, e);
        proof {
            assert(entry_views(out@) =~= sorted.take(j as int).push(e@) + sorted.skip(j as int));
        }
    }
    assert(ev.take(entries.len() as int) =~= ev);
    out
}

/// Where the insertion lands: after the last entry whose key is not
/// greater than `x`'s.
proof fn lemma_insert_by_name_at(s: Seq<EntryView>, x: EntryView, j: int)
    requires
        0 <= j <= s.len(),
        forall|t: int| j <= t < s.len() ==> name_lt(entry_key(x), #[trigger] entry_key(s[t])),
        j > 0 ==> !name_lt(entry_key(x), entry_key(s[j - 1])),
    ensures
        insert_by_name(s, x) == s.take(j).push(x) + s.skip(j),
    decreases s.len() - j,
{
    if s.len() == j {
        assert(s.skip(j) =~= Seq::<EntryView>::empty());
        assert(s.take(j) =~= s);
        if s.len() > 0 {
            assert(s.last() == s[j - 1]);
        }
        assert(insert_by_name(s, x) =~= s.take(j).push(x) + s.skip(j));
    } else {
        assert(name_lt(entry_key(x), entry_key(s[s.len() - 1])));
        let t = s.drop_last();
        assert forall|k: int| j <= k < t.len() implies name_lt(entry_key(x), #[trigger] entry_key(t[k])) by {
            assert(t[k] == s[k]);
        }
        if j > 0 {
            assert(t[j - 1] == s[j - 1]);
        }
        lemma_insert_by_name_at(t, x, j);
        assert(insert_by_name(s, x) =~= s.take(j).push(x) + s.skip(j));
    }
}

/// Reads one directory's listing into tree entries at `depth`: hidden
/// entries skipped, directories first, each group ordered by lowercased name.
pub fn read_dir_sorted(raw: &Vec<DirEntryInfo>, depth: usize) -> (r: Vec<FileEntry>)
    ensures
        entry_views(r@) == listing(raw_views(raw@), depth as int),
{
    let ghost rv = raw_views(raw@);
    let mut dirs: Vec<FileEntry> = Vec::new();
    let mut files: Vec<FileEntry> = Vec::new();
    for i in 0..raw.len()
        invariant
            rv == raw_views(raw@),
            entry_views(dirs@) == kept(rv.take(i as int), depth as int, true),
            entry_views(files@) == kept(rv.take(i as int), depth as int, false),
    {
        let e = &raw[i];
        proof {
            assert(rv.take(i + 1).drop_last() =~= rv.take(i as int));
            assert(rv.take(i + 1).last() == e@);
        }
        // Skip hidden files
        if !hidden(&e.name) {
            let file_entry = FileEntry {
                name: e.name.clone(),
                path: e.path.clone(),
                is_dir: e.is_dir,
                depth,
                expanded: false,
            };
            if e.is_dir {
                dirs.push(file_entry);
                assert(entry_views(dirs@) =~= kept(rv.take(i + 1), depth as int, true));
            } else {
                files.push(file_entry);
                assert(entry_views(files@) =~= kept(rv.take(i + 1), depth as int, false));
            }
        }
    }
    assert(rv.take(raw.len() as int) =~= rv);
    let mut sorted = sort_entries(&dirs);
    let mut sorted_files = sort_entries(&files);
    let ghost a = entry_views(sorted@);
    let ghost b = entry_views(sorted_files@);
    sorted.append(&mut sorted_files);
    assert(entry_views(sorted@) =~= a + b);
    sorted
}

/// Whether `paths` holds `p`.
fn contains_path(paths: &Vec<String>, p: &String) -> (b: bool)
    ensures
        b == path_views(paths@).contains(p@),
{
    let ghost ps = path_views(paths@);
    for i in 0..paths.len()
        invariant
            ps == path_views(paths@),
            forall|k: int| 0 <= k < i ==> ps[k] != p@,
    {
        if paths[i] == *p {
            assert(ps[i as int] == p@);
            return true;
        }
    }
    false
}

/// The tree below the directory at `path`: its entries at `depth`, each
/// expanded directory (one whose path `expanded` holds) followed by its own
/// tree one level deeper.
pub fn build_tree(path: &String, depth: usize, expanded: &Vec<String>, snap: &Vec<DirListing>) -> (r: Vec<FileEntry>)
    requires
        snapshot_ok(snapshot_view(snap@)),
        depth <= count_upto(path_views(expanded@), path@.len() as int),
    ensures
        entry_views(r@) == tree(
            snapshot_view(snap@),
            path@,
            depth as int,
            path_views(expanded@),
        ),
    decreases expanded@.len() - count_upto(path_views(expanded@), path@.len() as int),
{
    let ghost ex = path_views(expanded@);
    let ghost sv = snapshot_view(snap@);
    // Each level down enters one more expanded directory, so the depth
    // stays below the number of expanded paths.
    let n_expanded = expanded.len();
    let mut result: Vec<FileEntry> = Vec::new();
    let children = match lookup_listing(snap, path) {
        Some(raw) => read_dir_sorted(raw, depth),
        None => {
            let none: Vec<DirEntryInfo> = Vec::new();
            assert(raw_views(none@) =~= Seq::<RawView>::empty());
            read_dir_sorted(&none, depth)
        },
    };
    proof {
        lemma_listing_longer(sv, path@, depth as int);
        lemma_count_upto(ex, path@.len() as int, path@);
    }
    let ghost cv = entry_views(children@);
    assert(cv == listing(lookup(sv, path@), depth as int));
    for i in 0..children.len()
        invariant
            ex == path_views(expanded@),
            sv == snapshot_view(snap@),
            snapshot_ok(sv),
            cv == entry_views(children@),
            cv == listing(lookup(sv, path@), depth as int),
            all_longer(cv, path@.len() as int, depth as int),
            depth <= count_upto(ex, path@.len() as int),
            count_upto(ex, path@.len() as int) <= ex.len(),
            ex.len() == n_expanded,
            entry_views(result@) == forest(sv, path@.len() as int, cv.take(i as int), depth as int, ex),
    {
        let child = &children[i];
        proof {
            assert(cv.take(i + 1).drop_last() =~= cv.take(i as int));
            assert(cv.take(i + 1).last() == child@);
            assert(cv.len() == children.len());
            lemma_all_longer_at(cv, path@.len() as int, depth as int, i as int);
        }
        if child.is_dir && contains_path(expanded, &child.path) {
            let mut e = copy_entry(child);
            e.expanded = true;
            let ghost before = entry_views(result@);
            result.push(e);
            proof {
                lemma_count_upto(ex, path@.len() as int, child.path@);
                lemma_count_upto(ex, child.path@.len() as int, child.path@);
            }
            let mut subtree = build_tree(&child.path, depth + 1, expanded, snap);
            let ghost sub = entry_views(subtree@);
            result.append(&mut subtree);
            proof {
                assert(entry_views(result@) =~= before.push(e@) + sub);
                assert(e@ == (EntryView { expanded: true, ..child@ }));
                assert(child@.depth == depth);
            }
        } else {
            let ghost before = entry_views(result@);
            result.push(copy_entry(child));
            assert(entry_views(result@) =~= before.push(child@));
        }
    }
    assert(cv.take(children.len() as int) =~= cv);
    result
}

/// The paths of the expanded directories among `entries`.
fn expanded_dirs(entries: &Vec<FileEntry>) -> (r: Vec<String>)
    ensures
        path_views(r@) == expanded_paths(entry_views(entries@)),
{
    let ghost ev = entry_views(entries@);
    let mut out: Vec<String> = Vec::new();
    for i in 0..entries.len()
        invariant
            ev == entry_views(entries@),
            path_views(out@) == expanded_paths(ev.take(i as int)),
    {
        proof {
            assert(ev.take(i + 1).drop_last() =~= ev.take(i as int));
            assert(ev.take(i + 1).last() == entries@[i as int]@);
        }
        let ghost before = path_views(out@);
        if entries[i].is_dir && entries[i].expanded {
            out.push(entries[i].path.clone());
            assert(path_views(out@) =~= before.push(entries@[i as int].path@));
        }
    }
    assert(ev.take(entries.len() as int) =~= ev);
    out
}

impl FileTree {
    /// The tree of the directory at `root`, whose listing `snap` holds,
    /// with nothing expanded and the first entry selected.
    pub fn new(root: String, snap: &Vec<DirListing>) -> (t: FileTree)
        ensures
            t@ == fresh_tree(root@, snapshot_view(snap@)),
    {
        let entries = match lookup_listing(snap, &root) {
            Some(raw) => read_dir_sorted(raw, 0),
            None => {
                let none: Vec<DirEntryInfo> = Vec::new();
                assert(raw_views(none@) =~= Seq::<RawView>::empty());
                read_dir_sorted(&none, 0)
            },
        };
        FileTree { root, entries, selected: 0 }
    }

    /// The entries read again from `snap`, keeping expanded the directories
    /// that were; the selection is kept within the entries.
    pub fn refresh(&mut self, snap: &Vec<DirListing>)
        requires
            snapshot_ok(snapshot_view(snap@)),
        ensures
            final(self)@ == old(self)@.refreshed(snapshot_view(snap@)),
    {
        let expanded_paths = expanded_dirs(&self.entries);
        self.entries = build_tree(&self.root, 0, &expanded_paths, snap);
        if self.selected >= self.entries.len() {
            self.selected = if self.entries.len() > 0 { self.entries.len() - 1 } else { 0 };
        }
    }

    pub fn move_up(&mut self)
        ensures
            final(self)@ == old(self)@.moved_up(),
    {
        self.selected = self.selected.saturating_sub(1);
    }

    pub fn move_down(&mut self)
        ensures
            final(self)@ == old(self)@.moved_down(),
    {
        if !self.entries.is_empty() && self.selected < self.entries.len() - 1 {
            self.selected += 1;
        }
    }

    /// On a selected directory: its expanded flag flips and the tree is
    /// read again from `snap`.
    pub fn toggle_expand(&mut self, snap: &Vec<DirListing>)
        requires
            snapshot_ok(snapshot_view(snap@)),
        ensures
            final(self)@ == old(self)@.toggled(snapshot_view(snap@)),
    {
        if self.selected < self.entries.len() {
            if self.entries[self.selected].is_dir {
                let ghost before = self@;
                let flipped = !self.entries[self.selected].expanded;
                self.entries[self.selected].expanded = flipped;
                assert(self@.entries =~= before.flip_selected().entries);
                self.refresh(snap);
            }
        }
    }

    /// The directories whose listings expanding or collapsing the selected
    /// entry reads: the root, each expanded directory, and the selected
    /// entry when it is a directory.
    pub fn dirs_to_read(&self) -> (r: Vec<String>)
        ensures
            path_views(r@) == self@.dirs_to_read(),
    {
        let mut r: Vec<String> = Vec::new();
        r.push(self.root.clone());
        let mut expanded = expanded_dirs(&self.entries);
        let ghost first = path_views(r@);
        let ghost ex = path_views(expanded@);
        r.append(&mut expanded);
        assert(path_views(r@) =~= first + ex);
        let ghost before = path_views(r@);
        if self.selected < self.entries.len() && self.entries[self.selected].is_dir {
            r.push(self.entries[self.selected].path.clone());
            assert(path_views(r@) =~= before + seq![self@.entries[self.selected as int].path]);
        } else {
            assert(path_views(r@) =~= before + Seq::<Seq<char>>::empty());
        }
        r
    }

    pub fn selected_entry(&self) -> (e: Option<&FileEntry>)
        ensures
            match e {
                None => self.selected >= self.entries.len(),
                Some(x) => self.selected < self.entries.len() && x@ == self@.entries[self.selected as int],
            },
    {
        if self.selected < self.entries.len() {
            Some(&self.entries[self.selected])
        } else {
            None
        }
    }
}

/// The tree of the directory at `root`, nothing expanded, the first entry selected.
pub open spec fn fresh_tree(root: Seq<char>, snap: Seq<ListingView>) -> TreeView {
    TreeView { root: root, entries: listing(lookup(snap, root), 0), selected: 0 }
}

impl TreeView {
    /// The selected entry, if the selection is on one.
    pub open spec fn selected_entry(self) -> Option<EntryView> {
        if 0 <= self.selected < self.entries.len() {
            Some(self.entries[self.selected])
        } else {
            None
        }
    }

    /// The tree read again from `snap`, with the same directories
    /// expanded, and the selection pulled back within the entries.
    pub open spec fn refreshed(self, snap: Seq<ListingView>) -> TreeView {
        let entries = tree(snap, self.root, 0, expanded_paths(self.entries));
        TreeView {
            entries: entries,
            selected: if self.selected >= entries.len() {
                if entries.len() > 0 {
                    entries.len() - 1
                } else {
                    0
                }
            } else {
                self.selected
            },
            ..self
        }
    }

    /// The selection one entry up, stopping at the first.
    pub open spec fn moved_up(self) -> TreeView {
        TreeView { selected: if self.selected > 0 { self.selected - 1 } else { 0 }, ..self }
    }

    /// The selection one entry down, stopping at the last.
    pub open spec fn moved_down(self) -> TreeView {
        TreeView {
            selected: if self.entries.len() > 0 && self.selected < self.entries.len() - 1 {
                self.selected + 1
            } else {
                self.selected
            },
            ..self
        }
    }

    /// The selection is on an entry, or at the top of an empty tree.
    pub open spec fn selection_in_range(self) -> bool {
        (self.entries.len() == 0 && self.selected == 0) || (0 <= self.selected < self.entries.len())
    }

    /// The directories whose listings flipping the selected entry reads:
    /// the root, each expanded directory, and the selected entry when it is
    /// a directory.
    pub open spec fn dirs_to_read(self) -> Seq<Seq<char>> {
        seq![self.root] + expanded_paths(self.entries) + match self.selected_entry() {
            Some(e) => if e.is_dir {
                seq![e.path]
            } else {
                Seq::empty()
            },
            None => Seq::empty(),
        }
    }

    /// The selected entry with its expanded flag flipped.
    pub open spec fn flip_selected(self) -> TreeView {
        TreeView {
            entries: self.entries.update(
                self.selected,
                EntryView { expanded: !self.entries[self.selected].expanded, ..self.entries[self.selected] },
            ),
            ..self
        }
    }

    pub open spec fn toggled(self, snap: Seq<ListingView>) -> TreeView {
        if 0 <= self.selected < self.entries.len() && self.entries[self.selected].is_dir {
            self.flip_selected().refreshed(snap)
        } else {
            self
        }
    }
}

} // verus!
