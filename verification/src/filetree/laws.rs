//! What the tree promises of every directory listing.
use vstd::prelude::*;
use crate::filetree::order::{lemma_name_lt_irreflexive, lemma_name_lt_total, lemma_name_lt_transitive, name_lt};
use crate::filetree::{
    entry_key, entry_of, expanded_paths, forest, fresh_tree, insert_by_name, is_hidden, kept, lemma_count_upto,
    listing, lookup, sort_by_name, tree, EntryView, ListingView, RawView, TreeView,
};

verus! {

/// No entry's name comes, without regard to case, before the name of an
/// entry ahead of it.
pub open spec fn sorted_by_name(s: Seq<EntryView>) -> bool {
    forall|i: int, j: int|
        0 <= i < j < s.len() ==> !name_lt(#[trigger] entry_key(s[j]), #[trigger] entry_key(s[i]))
}

/// The entries of `raw` that are not hidden, in the order read, at `depth`.
pub open spec fn visible(raw: Seq<RawView>, depth: int) -> Seq<EntryView>
    decreases raw.len(),
{
    if raw.len() == 0 {
        Seq::empty()
    } else if is_hidden(raw.last().name) {
        visible(raw.drop_last(), depth)
    } else {
        visible(raw.drop_last(), depth).push(entry_of(raw.last(), depth))
    }
}

/// The shape of a directory's listing at `depth`: every entry visible and at
/// that depth, directories before other entries, and each of the two groups
/// ordered by name.
pub open spec fn listing_shape(l: Seq<EntryView>, depth: int) -> bool {
    &&& forall|i: int| 0 <= i < l.len() ==> !is_hidden(#[trigger] l[i].name) && l[i].depth == depth
    &&& forall|i: int, j: int| 0 <= i < j < l.len() && (#[trigger] l[j]).is_dir ==> (#[trigger] l[i]).is_dir
    &&& forall|i: int, j: int|
        0 <= i < j < l.len() && l[i].is_dir == l[j].is_dir ==> !name_lt(
            #[trigger] entry_key(l[j]),
            #[trigger] entry_key(l[i]),
        )
}

proof fn lemma_insert_multiset(s: Seq<EntryView>, x: EntryView)
    ensures
        insert_by_name(s, x).to_multiset() =~= s.to_multiset().insert(x),
    decreases s.len(),
{
    broadcast use vstd::seq_lib::group_to_multiset_ensures;
    broadcast use vstd::multiset::group_multiset_axioms;

    if s.len() == 0 {
        assert(seq![x] =~= s.push(x));
    } else {
        assert(s =~= s.drop_last().push(s.last()));
        if name_lt(entry_key(x), entry_key(s.last())) {
            lemma_insert_multiset(s.drop_last(), x);
        }
    }
}

proof fn lemma_sort_multiset(s: Seq<EntryView>)
    ensures
        sort_by_name(s).to_multiset() =~= s.to_multiset(),
    decreases s.len(),
{
    broadcast use vstd::seq_lib::group_to_multiset_ensures;
    broadcast use vstd::multiset::group_multiset_axioms;

    if s.len() > 0 {
        lemma_sort_multiset(s.drop_last());
        lemma_insert_multiset(sort_by_name(s.drop_last()), s.last());
        assert(s =~= s.drop_last().push(s.last()));
    }
}

/// What a sort holds, its input held.
proof fn lemma_sort_members(s: Seq<EntryView>, e: EntryView)
    ensures
        sort_by_name(s).contains(e) <==> s.contains(e),
{
    broadcast use vstd::seq_lib::group_to_multiset_ensures;

    lemma_sort_multiset(s);
    assert(sort_by_name(s).to_multiset().count(e) == s.to_multiset().count(e));
}

proof fn lemma_insert_sorted(s: Seq<EntryView>, x: EntryView)
    requires
        sorted_by_name(s),
    ensures
        sorted_by_name(insert_by_name(s, x)),
    decreases s.len(),
{
    broadcast use vstd::seq_lib::group_to_multiset_ensures;
    broadcast use vstd::multiset::group_multiset_axioms;

    if s.len() == 0 {
        return;
    }
    let t = s.drop_last();
    let last = s.last();
    let kl = entry_key(last);
    if name_lt(entry_key(x), kl) {
        assert forall|i: int, j: int| 0 <= i < j < t.len() implies !name_lt(
            #[trigger] entry_key(t[j]),
            #[trigger] entry_key(t[i]),
        ) by {
            assert(t[i] == s[i] && t[j] == s[j]);
        }
        lemma_insert_sorted(t, x);
        let r = insert_by_name(t, x);
        lemma_insert_multiset(t, x);
        // Nothing in `r` comes after `last`.
        assert forall|i: int| 0 <= i < r.len() implies !name_lt(kl, #[trigger] entry_key(r[i])) by {
            assert(r.to_multiset().count(r[i]) > 0);
            if r[i] == x {
                if name_lt(kl, entry_key(x)) {
                    lemma_name_lt_transitive(kl, entry_key(x), kl);
                    lemma_name_lt_irreflexive(kl);
                }
            } else {
                assert(t.contains(r[i]));
                let k = choose|k: int| 0 <= k < t.len() && t[k] == r[i];
                assert(s[k] == t[k]);
                assert(!name_lt(entry_key(s[s.len() - 1]), entry_key(s[k])));
            }
        }
        let rr = r.push(last);
        assert forall|i: int, j: int| 0 <= i < j < rr.len() implies !name_lt(
            #[trigger] entry_key(rr[j]),
            #[trigger] entry_key(rr[i]),
        ) by {
            if j < r.len() {
                assert(rr[i] == r[i] && rr[j] == r[j]);
            } else {
                assert(rr[i] == r[i] && rr[j] == last);
            }
        }
    } else {
        let rr = s.push(x);
        assert forall|i: int, j: int| 0 <= i < j < rr.len() implies !name_lt(
            #[trigger] entry_key(rr[j]),
            #[trigger] entry_key(rr[i]),
        ) by {
            if j < s.len() {
                assert(rr[i] == s[i] && rr[j] == s[j]);
            } else {
                assert(rr[i] == s[i] && rr[j] == x);
                let ki = entry_key(s[i]);
                if name_lt(entry_key(x), ki) {
                    if i < s.len() - 1 {
                        assert(!name_lt(entry_key(s[s.len() - 1]), entry_key(s[i])));
                    }
                    lemma_name_lt_total(ki, kl);
                    if name_lt(ki, kl) {
                        lemma_name_lt_transitive(entry_key(x), ki, kl);
                    }
                }
            }
        }
    }
}

proof fn lemma_sort_sorted(s: Seq<EntryView>)
    ensures
        sorted_by_name(sort_by_name(s)),
    decreases s.len(),
{
    if s.len() > 0 {
        lemma_sort_sorted(s.drop_last());
        lemma_insert_sorted(sort_by_name(s.drop_last()), s.last());
    }
}

/// The kept entries are visible, at `depth`, and directories or not as asked.
proof fn lemma_kept_members(raw: Seq<RawView>, depth: int, dirs: bool)
    ensures
        forall|i: int|
            0 <= i < kept(raw, depth, dirs).len() ==> {
                let e = #[trigger] kept(raw, depth, dirs)[i];
                !is_hidden(e.name) && e.depth == depth && e.is_dir == dirs
            },
    decreases raw.len(),
{
    if raw.len() > 0 {
        lemma_kept_members(raw.drop_last(), depth, dirs);
        let prev = kept(raw.drop_last(), depth, dirs);
        let k = kept(raw, depth, dirs);
        assert forall|i: int| 0 <= i < k.len() implies {
            let e = #[trigger] k[i];
            !is_hidden(e.name) && e.depth == depth && e.is_dir == dirs
        } by {
            if i < prev.len() {
                assert(k[i] == prev[i]);
            }
        }
    }
}

/// The two groups together hold the visible entries.
proof fn lemma_kept_visible(raw: Seq<RawView>, depth: int)
    ensures
        kept(raw, depth, true).to_multiset().add(kept(raw, depth, false).to_multiset())
            =~= visible(raw, depth).to_multiset(),
    decreases raw.len(),
{
    broadcast use vstd::seq_lib::group_to_multiset_ensures;
    broadcast use vstd::multiset::group_multiset_axioms;

    if raw.len() == 0 {
        assert(kept(raw, depth, true).to_multiset() =~= vstd::multiset::Multiset::empty());
        assert(kept(raw, depth, false).to_multiset() =~= vstd::multiset::Multiset::empty());
        assert(visible(raw, depth).to_multiset() =~= vstd::multiset::Multiset::empty());
    } else {
        lemma_kept_visible(raw.drop_last(), depth);
    }
}

/// A group sorted from kept entries has their shape.
proof fn lemma_sorted_group(raw: Seq<RawView>, depth: int, dirs: bool)
    ensures
        sorted_by_name(sort_by_name(kept(raw, depth, dirs))),
        forall|i: int|
            0 <= i < sort_by_name(kept(raw, depth, dirs)).len() ==> {
                let e = #[trigger] sort_by_name(kept(raw, depth, dirs))[i];
                !is_hidden(e.name) && e.depth == depth && e.is_dir == dirs
            },
{
    let k = kept(raw, depth, dirs);
    let s = sort_by_name(k);
    lemma_sort_sorted(k);
    lemma_kept_members(raw, depth, dirs);
    assert forall|i: int| 0 <= i < s.len() implies {
        let e = #[trigger] s[i];
        !is_hidden(e.name) && e.depth == depth && e.is_dir == dirs
    } by {
        lemma_sort_members(k, s[i]);
        assert(s.contains(s[i]));
        let j = choose|j: int| 0 <= j < k.len() && k[j] == s[i];
        assert(k[j] == s[i]);
    }
}

/// A directory's listing holds each of its entries that is not hidden, once,
/// and nothing else; directories come before other entries, and within each
/// of the two groups names run in order without regard to case.
pub proof fn law_listing_order(raw: Seq<RawView>, depth: int)
    ensures
        listing(raw, depth).to_multiset() =~= visible(raw, depth).to_multiset(),
        listing_shape(listing(raw, depth), depth),
{
    broadcast use vstd::seq_lib::group_to_multiset_ensures;

    let a = sort_by_name(kept(raw, depth, true));
    let b = sort_by_name(kept(raw, depth, false));
    let l = listing(raw, depth);
    assert(l == a + b);
    lemma_sort_multiset(kept(raw, depth, true));
    lemma_sort_multiset(kept(raw, depth, false));
    lemma_kept_visible(raw, depth);
    vstd::seq_lib::lemma_multiset_commutative(a, b);
    lemma_sorted_group(raw, depth, true);
    lemma_sorted_group(raw, depth, false);
    assert forall|i: int| 0 <= i < l.len() implies !is_hidden(#[trigger] l[i].name) && l[i].depth == depth by {
        if i < a.len() {
            assert(l[i] == a[i]);
        } else {
            assert(l[i] == b[i - a.len()]);
        }
    }
    assert forall|i: int, j: int| 0 <= i < j < l.len() && (#[trigger] l[j]).is_dir implies (#[trigger] l[i]).is_dir by {
        if j < a.len() {
            assert(l[i] == a[i]);
        } else {
            assert(l[j] == b[j - a.len()]);
        }
    }
    assert forall|i: int, j: int| 0 <= i < j < l.len() && l[i].is_dir == l[j].is_dir implies !name_lt(
        #[trigger] entry_key(l[j]),
        #[trigger] entry_key(l[i]),
    ) by {
        if j < a.len() {
            assert(l[i] == a[i] && l[j] == a[j]);
        } else if i >= a.len() {
            assert(l[i] == b[i - a.len()] && l[j] == b[j - a.len()]);
        } else {
            assert(l[i] == a[i] && l[j] == b[j - a.len()]);
        }
    }
}

/// Reading the tree again puts the selection back on an entry, whatever
/// entries the new reading holds; a fresh tree starts on its first entry.
pub proof fn law_refresh_selects_an_entry(t: TreeView, root: Seq<char>, snap: Seq<ListingView>)
    requires
        t.selected >= 0,
    ensures
        t.refreshed(snap).selection_in_range(),
        fresh_tree(root, snap).selection_in_range(),
{
}

/// Moving up or down, and expanding or collapsing the selected directory,
/// keep a selection that is on an entry on one.
pub proof fn law_selection_stays_in_range(t: TreeView, snap: Seq<ListingView>)
    requires
        t.selection_in_range(),
    ensures
        t.moved_up().selection_in_range(),
        t.moved_down().selection_in_range(),
        t.toggled(snap).selection_in_range(),
{
    law_refresh_selects_an_entry(t.flip_selected(), t.root, snap);
}

/// One step down and one step up come back to the same entry, except at
/// the last entry; one step up and one down, except at the first.
pub proof fn law_up_down_undo(t: TreeView)
    requires
        t.selection_in_range(),
    ensures
        t.selected < t.entries.len() - 1 ==> t.moved_down().moved_up() == t,
        t.selected > 0 ==> t.moved_up().moved_down() == t,
{
}

/// Two snapshots hold the same listings for each directory in `paths`.
pub open spec fn agree_on(s1: Seq<ListingView>, s2: Seq<ListingView>, paths: Seq<Seq<char>>) -> bool {
    forall|p: Seq<char>| paths.contains(p) ==> #[trigger] lookup(s1, p) == lookup(s2, p)
}

proof fn lemma_forest_agree(
    s1: Seq<ListingView>,
    s2: Seq<ListingView>,
    parent_len: int,
    children: Seq<EntryView>,
    depth: int,
    ex: Seq<Seq<char>>,
)
    requires
        agree_on(s1, s2, ex),
    ensures
        forest(s1, parent_len, children, depth, ex) == forest(s2, parent_len, children, depth, ex),
    decreases ex.len() - crate::filetree::count_upto(ex, parent_len), children.len(),
{
    if children.len() > 0 {
        lemma_forest_agree(s1, s2, parent_len, children.drop_last(), depth, ex);
        let c = children.last();
        if c.is_dir && ex.contains(c.path) && c.path.len() > parent_len {
            lemma_count_upto(ex, parent_len, c.path);
            lemma_count_upto(ex, c.path.len() as int, c.path);
            assert(lookup(s1, c.path) == lookup(s2, c.path));
            lemma_forest_agree(
                s1,
                s2,
                c.path.len() as int,
                listing(lookup(s1, c.path), depth + 1),
                depth + 1,
                ex,
            );
        }
    }
}

/// The expanded directories after one entry is replaced are those before,
/// or the new entry's.
proof fn lemma_expanded_after_update(entries: Seq<EntryView>, k: int, e: EntryView, p: Seq<char>)
    requires
        0 <= k < entries.len(),
        expanded_paths(entries.update(k, e)).contains(p),
    ensures
        expanded_paths(entries).contains(p) || p == e.path,
    decreases entries.len(),
{
    let u = entries.update(k, e);
    let before = expanded_paths(entries.drop_last());
    if k == entries.len() - 1 {
        assert(u.drop_last() =~= entries.drop_last());
        if p != e.path {
            assert(before.contains(p));
            let i = choose|i: int| 0 <= i < before.len() && before[i] == p;
            if entries.last().is_dir && entries.last().expanded {
                assert(expanded_paths(entries) == before.push(entries.last().path));
                assert(expanded_paths(entries)[i] == p);
            }
        }
    } else {
        assert(u.drop_last() =~= entries.drop_last().update(k, e));
        assert(u.last() == entries.last());
        let ub = expanded_paths(u.drop_last());
        if ub.contains(p) {
            lemma_expanded_after_update(entries.drop_last(), k, e, p);
            if before.contains(p) {
                let i = choose|i: int| 0 <= i < before.len() && before[i] == p;
                if entries.last().is_dir && entries.last().expanded {
                    assert(expanded_paths(entries)[i] == p);
                }
            }
        } else {
            assert(expanded_paths(entries) == before.push(entries.last().path));
            assert(expanded_paths(entries)[before.len() as int] == p);
        }
    }
}

/// The listings that the library names before expanding or collapsing the
/// selected directory are all that reading the tree again looks at: two
/// snapshots that agree on them give the same tree, toggled or refreshed.
pub proof fn law_dirs_to_read_suffice(t: TreeView, s1: Seq<ListingView>, s2: Seq<ListingView>)
    requires
        agree_on(s1, s2, t.dirs_to_read()),
    ensures
        t.refreshed(s1) == t.refreshed(s2),
        t.toggled(s1) == t.toggled(s2),
{
    let d = t.dirs_to_read();
    let ex = expanded_paths(t.entries);
    let tail = d.skip(1 + ex.len() as int);
    assert(d =~= seq![t.root] + ex + tail);
    assert(d[0] == t.root);
    assert(lookup(s1, t.root) == lookup(s2, t.root));
    assert forall|p: Seq<char>| ex.contains(p) implies #[trigger] lookup(s1, p) == lookup(s2, p) by {
        let i = choose|i: int| 0 <= i < ex.len() && ex[i] == p;
        assert(d[1 + i] == p);
    }
    lemma_forest_agree(s1, s2, t.root.len() as int, listing(lookup(s1, t.root), 0), 0, ex);
    assert(tree(s1, t.root, 0, ex) == tree(s2, t.root, 0, ex));
    if 0 <= t.selected < t.entries.len() && t.entries[t.selected].is_dir {
        let f = t.flip_selected();
        let sel = t.entries[t.selected];
        let fex = expanded_paths(f.entries);
        assert(d[d.len() - 1] == sel.path);
        assert forall|p: Seq<char>| fex.contains(p) implies #[trigger] lookup(s1, p) == lookup(s2, p) by {
            lemma_expanded_after_update(
                t.entries,
                t.selected,
                EntryView { expanded: !sel.expanded, ..sel },
                p,
            );
            if ex.contains(p) {
                let i = choose|i: int| 0 <= i < ex.len() && ex[i] == p;
                assert(d[1 + i] == p);
            }
        }
        lemma_forest_agree(s1, s2, t.root.len() as int, listing(lookup(s1, t.root), 0), 0, fex);
        assert(tree(s1, t.root, 0, fex) == tree(s2, t.root, 0, fex));
    }
}

} // verus!
