use crate::fs::entry::{EntryView, LllDirEntry};
use crate::text::{chars_of, compare_names, lemma_name_le_total_preorder, name_le};
use vstd::prelude::*;

verus! {

/// The key by which a listing is ordered.
#[derive(Clone, Copy, Debug, PartialEq, Eq, Structural)]
pub enum SortType {
    /// By file name, character by character.
    SortAlpha,
    /// By time of last modification, oldest first.
    SortMtime,
}

/// Which entries a listing shows, and in what order.
#[derive(Clone, Copy, Debug, PartialEq, Eq, Structural)]
pub struct SortOption {
    /// Show the entries whose name begins with a dot.
    pub show_hidden: bool,
    /// Put directories before everything else.
    pub directories_first: bool,
    /// Turn the order of the key around.
    pub reverse: bool,
    pub sort_method: SortType,
}

/// Whether the name begins with a dot.
pub open spec fn is_hidden(name: Seq<char>) -> bool {
    name.len() > 0 && name[0] == '.'
}

impl SortOption {
    /// Whether `a` stands at or before `b` by the key alone.
    pub open spec fn key_le(&self, a: EntryView, b: EntryView) -> bool {
        match self.sort_method {
            SortType::SortAlpha => name_le(a.file_name, b.file_name),
            SortType::SortMtime => a.metadata.modified <= b.metadata.modified,
        }
    }

    /// Whether `a` may stand before `b` in a listing.
    pub open spec fn precedes(&self, a: EntryView, b: EntryView) -> bool {
        if self.directories_first && a.metadata.is_dir() != b.metadata.is_dir() {
            a.metadata.is_dir()
        } else if self.reverse {
            self.key_le(b, a)
        } else {
            self.key_le(a, b)
        }
    }

    /// Whether a listing shows `e`.
    pub open spec fn keeps(&self, e: EntryView) -> bool {
        self.show_hidden || !is_hidden(e.file_name)
    }

    /// Whether `s` is in order: no entry stands before one that must
    /// precede it.
    pub open spec fn sorted(&self, s: Seq<EntryView>) -> bool {
        forall|i: int, j: int| 0 <= i < j < s.len() ==> self.precedes(s[i], s[j])
    }

    /// `s` with `x` put behind the last entry that may stand before it.
    pub open spec fn insert_sorted(&self, s: Seq<EntryView>, x: EntryView) -> Seq<EntryView>
        decreases s.len(),
    {
        if s.len() == 0 {
            seq![x]
        } else if self.precedes(s.last(), x) {
            s.push(x)
        } else {
            self.insert_sorted(s.drop_last(), x).push(s.last())
        }
    }

    /// The entries of `s` in order, those that the order does not tell
    /// apart in the order in which `s` has them.
    pub open spec fn sort(&self, s: Seq<EntryView>) -> Seq<EntryView>
        decreases s.len(),
    {
        if s.len() == 0 {
            Seq::empty()
        } else {
            self.insert_sorted(self.sort(s.drop_last()), s.last())
        }
    }

    /// The filter predicate: whether a listing shows `entry`.
    pub fn filter(&self, entry: &LllDirEntry) -> (r: bool)
        ensures
            r == self.keeps(entry@),
    {
        if self.show_hidden {
            return true;
        }
        let name = chars_of(entry.file_name().as_str());
        !(name.len() > 0 && name[0] == '.')
    }

    /// The comparator: whether `a` may stand before `b` in a listing.
    pub fn compare(&self, a: &LllDirEntry, b: &LllDirEntry) -> (r: bool)
        ensures
            r == self.precedes(a@, b@),
    {
        let a_dir = a.metadata().is_dir();
        let b_dir = b.metadata().is_dir();
        if self.directories_first && a_dir != b_dir {
            a_dir
        } else if self.reverse {
            self.compare_keys(b, a)
        } else {
            self.compare_keys(a, b)
        }
    }

    fn compare_keys(&self, a: &LllDirEntry, b: &LllDirEntry) -> (r: bool)
        ensures
            r == self.key_le(a@, b@),
    {
        match self.sort_method {
            SortType::SortAlpha => compare_names(a.file_name().as_str(), b.file_name().as_str()),
            SortType::SortMtime => a.metadata().modified <= b.metadata().modified,
        }
    }
}

/// The order of a listing is total and carries from one pair to the next.
pub proof fn lemma_precedes_total_preorder(
    opt: SortOption,
    a: EntryView,
    b: EntryView,
    c: EntryView,
)
    ensures
        opt.precedes(a, a),
        opt.precedes(a, b) || opt.precedes(b, a),
        opt.precedes(a, b) && opt.precedes(b, c) ==> opt.precedes(a, c),
{
    lemma_name_le_total_preorder(a.file_name, b.file_name, c.file_name);
    lemma_name_le_total_preorder(c.file_name, b.file_name, a.file_name);
    lemma_name_le_total_preorder(b.file_name, a.file_name, c.file_name);
}

/// Putting an entry into an ordered sequence keeps the order, and adds that
/// entry and no other.
pub proof fn lemma_insert_sorted(opt: SortOption, s: Seq<EntryView>, x: EntryView)
    requires
        opt.sorted(s),
    ensures
        opt.sorted(opt.insert_sorted(s, x)),
        opt.insert_sorted(s, x).to_multiset() == s.to_multiset().insert(x),
        opt.insert_sorted(s, x).len() == s.len() + 1,
    decreases s.len(),
{
    broadcast use vstd::seq_lib::group_to_multiset_ensures;

    let r = opt.insert_sorted(s, x);
    if s.len() == 0 {
        assert(s =~= Seq::empty());
        assert(r =~= Seq::<EntryView>::empty().push(x));
    } else if opt.precedes(s.last(), x) {
        assert forall|i: int, j: int| 0 <= i < j < r.len() implies opt.precedes(r[i], r[j]) by {
            if j == s.len() && i < s.len() - 1 {
                lemma_precedes_total_preorder(opt, s[i], s.last(), x);
            }
        }
    } else {
        let front = s.drop_last();
        let inner = opt.insert_sorted(front, x);
        lemma_insert_sorted(opt, front, x);
        lemma_precedes_total_preorder(opt, x, s.last(), x);
        assert(s =~= front.push(s.last()));
        assert forall|i: int, j: int| 0 <= i < j < r.len() implies opt.precedes(r[i], r[j]) by {
            if j == inner.len() {
                // every entry of `inner` is `x` or an entry of `front`
                assert(inner.to_multiset().count(inner[i]) > 0);
                if inner[i] != x {
                    assert(front.to_multiset().count(inner[i]) > 0);
                    assert(front.contains(inner[i]));
                    let k = choose|k: int| 0 <= k < front.len() && front[k] == inner[i];
                    assert(opt.precedes(s[k], s[s.len() - 1]));
                }
            }
        }
    }
}

/// Sorting yields an ordered sequence of the same entries.
pub proof fn lemma_sort(opt: SortOption, s: Seq<EntryView>)
    ensures
        opt.sorted(opt.sort(s)),
        opt.sort(s).to_multiset() == s.to_multiset(),
        opt.sort(s).len() == s.len(),
    decreases s.len(),
{
    broadcast use vstd::seq_lib::group_to_multiset_ensures;

    if s.len() == 0 {
        assert(s =~= Seq::empty());
    } else {
        lemma_sort(opt, s.drop_last());
        lemma_insert_sorted(opt, opt.sort(s.drop_last()), s.last());
        assert(s =~= s.drop_last().push(s.last()));
    }
}

/// The views of the entries of `v`.
pub open spec fn entry_views(v: Seq<LllDirEntry>) -> Seq<EntryView> {
    v.map_values(|e: LllDirEntry| e@)
}

/// Where `insert_sorted` puts `x`: behind the entry at `at - 1`, which may
/// stand before it, and before all later ones, which may not.
proof fn lemma_insert_position(opt: SortOption, s: Seq<EntryView>, x: EntryView, at: int)
    requires
        0 <= at <= s.len(),
        at > 0 ==> opt.precedes(s[at - 1], x),
        forall|k: int| at <= k < s.len() ==> !opt.precedes(s[k], x),
    ensures
        opt.insert_sorted(s, x) == s.insert(at, x),
    decreases s.len(),
{
    if s.len() == 0 {
        assert(s.insert(at, x) =~= seq![x]);
    } else if at == s.len() {
        assert(s.insert(at, x) =~= s.push(x));
    } else {
        lemma_insert_position(opt, s.drop_last(), x, at);
        assert(s.insert(at, x) =~= s.drop_last().insert(at, x).push(s.last()));
    }
}

/// Puts `entries` in the order of `opt`, keeping the order in which they
/// came among those that it does not tell apart.
pub fn sort_entries(entries: Vec<LllDirEntry>, opt: &SortOption) -> (r: Vec<LllDirEntry>)
    ensures
        entry_views(r@) == opt.sort(entry_views(entries@)),
        opt.sorted(entry_views(r@)),
        entry_views(r@).to_multiset() == entry_views(entries@).to_multiset(),
{
    proof {
        lemma_sort(*opt, entry_views(entries@));
    }
    let mut sorted: Vec<LllDirEntry> = Vec::new();
    let ghost all = entry_views(entries@);
    for entry in it: entries.into_iter()
        invariant
            it.seq() == entries@,
            all == entry_views(entries@),
            entry_views(sorted@) == opt.sort(all.take(it.index() as int)),
    {
        let ghost done = entry_views(sorted@);
        let mut at: usize = sorted.len();
        while at > 0 && !opt.compare(&sorted[at - 1], &entry)
            invariant
                at <= sorted.len(),
                done == entry_views(sorted@),
                forall|k: int| at <= k < done.len() ==> !opt.precedes(done[k], entry@),
            decreases at,
        {
            at = at - 1;
        }
        proof {
            lemma_insert_position(*opt, done, entry@, at as int);
            let n = it.index() as int;
            assert(all.take(n + 1).drop_last() =~= all.take(n));
            assert(all.take(n + 1).last() == entry@);
        }
        sorted.insert(at, entry);
        assert(entry_views(sorted@) =~= done.insert(at as int, entry@));
    }
    assert(all.take(entries@.len() as int) =~= all);
    sorted
}

} // verus!
