//! Directory entries: display names (a subdirectory carries a trailing
//! `/`) and sorting by age, youngest first. The sort is pinned to a spec
//! function, `sort_by_age_spec`: a stable insertion sort, so entries of
//! equal age keep their scan order.

use vstd::prelude::*;
use vstd::string::*;
use vstd::seq_lib::group_to_multiset_ensures;
use vstd::multiset::group_multiset_axioms;

verus! {

/// What one directory scan reports of a child, before any processing: the
/// bare entry name, whether the child is itself a directory, and its age in
/// whole seconds since last modification.
pub struct RawEntry {
    /// The child's bare file name.
    pub name: String,
    /// Whether the child is itself a directory.
    pub is_dir: bool,
    /// Whole seconds since the child was last modified.
    pub elapsed: u64,
}

/// One row-to-be of a directory table: the name as it is displayed and the
/// age in whole seconds.
pub struct DirEntry {
    /// The display name: the bare name, with `/` appended for a directory.
    pub display_name: String,
    /// Whole seconds since last modification.
    pub elapsed: u64,
}

impl View for DirEntry {
    type V = (Seq<char>, u64);

    open spec fn view(&self) -> (Seq<char>, u64) {
        (self.display_name@, self.elapsed)
    }
}

/// The display name an entry gets: directories carry a trailing `/`, files
/// keep their bare name.
pub open spec fn display_name_of(name: Seq<char>, is_dir: bool) -> Seq<char> {
    if is_dir {
        name + "/"@
    } else {
        name
    }
}

/// The displayed (name, age) pair of one raw entry.
pub open spec fn display_of(e: RawEntry) -> (Seq<char>, u64) {
    (display_name_of(e.name@, e.is_dir), e.elapsed)
}

/// The displayed (name, age) pairs of a whole scan, in scan order.
pub open spec fn displays_of(raw: Seq<RawEntry>) -> Seq<(Seq<char>, u64)> {
    raw.map_values(|e: RawEntry| display_of(e))
}

/// The (name, age) views of a sequence of entries, in order.
pub open spec fn entry_views(s: Seq<DirEntry>) -> Seq<(Seq<char>, u64)> {
    s.map_values(|e: DirEntry| e@)
}

/// Ages never decrease along the sequence of entries.
pub open spec fn sorted_by_age(s: Seq<DirEntry>) -> bool {
    forall|i: int, j: int| 0 <= i < j < s.len() ==> s[i].elapsed <= s[j].elapsed
}

/// Ages never decrease along the sequence of (name, age) pairs.
pub open spec fn ages_ascending(rows: Seq<(Seq<char>, u64)>) -> bool {
    forall|i: int, j: int| 0 <= i < j < rows.len() ==> rows[i].1 <= rows[j].1
}

/// Where a stable insertion by age puts `e`: after every pair of `s` whose
/// age is at most `e`'s, before every strictly older one. An element of
/// equal age therefore stays in front of `e`.
pub open spec fn insert_by_age(
    e: (Seq<char>, u64),
    s: Seq<(Seq<char>, u64)>,
) -> Seq<(Seq<char>, u64)>
    decreases s.len(),
{
    if s.len() == 0 {
        s.push(e)
    } else if e.1 < s.last().1 {
        insert_by_age(e, s.drop_last()).push(s.last())
    } else {
        s.push(e)
    }
}

/// The stable ascending-by-age sort of `s`: each pair inserted, in order,
/// by `insert_by_age`. This names one permutation exactly; pairs of equal
/// age keep their order in `s`.
pub open spec fn sort_by_age_spec(s: Seq<(Seq<char>, u64)>) -> Seq<(Seq<char>, u64)>
    decreases s.len(),
{
    if s.len() == 0 {
        s
    } else {
        insert_by_age(s.last(), sort_by_age_spec(s.drop_last()))
    }
}

/// Inserting a pair adds it to the multiset and keeps everything else.
pub proof fn lemma_insert_by_age_permutes(e: (Seq<char>, u64), s: Seq<(Seq<char>, u64)>)
    ensures
        insert_by_age(e, s).to_multiset() == s.to_multiset().insert(e),
        insert_by_age(e, s).len() == s.len() + 1,
    decreases s.len(),
{
    broadcast use group_to_multiset_ensures, group_multiset_axioms;

    if s.len() != 0 && e.1 < s.last().1 {
        let d = s.drop_last();
        let l = s.last();
        lemma_insert_by_age_permutes(e, d);
        assert(insert_by_age(e, d).push(l).to_multiset() =~= insert_by_age(
            e,
            d,
        ).to_multiset().insert(l));
        assert(s =~= d.push(l));
        assert(d.push(l).to_multiset() =~= d.to_multiset().insert(l));
        assert(insert_by_age(e, s).to_multiset() =~= s.to_multiset().insert(e));
    } else {
        assert(s.push(e).to_multiset() =~= s.to_multiset().insert(e));
    }
}

/// Inserting into an age-sorted sequence keeps it age-sorted.
pub proof fn lemma_insert_by_age_ascending(e: (Seq<char>, u64), s: Seq<(Seq<char>, u64)>)
    requires
        ages_ascending(s),
    ensures
        ages_ascending(insert_by_age(e, s)),
    decreases s.len(),
{
    broadcast use group_to_multiset_ensures, group_multiset_axioms;

    if s.len() != 0 && e.1 < s.last().1 {
        let d = s.drop_last();
        let l = s.last();
        lemma_insert_by_age_ascending(e, d);
        lemma_insert_by_age_permutes(e, d);
        let r = insert_by_age(e, d);
        assert forall|k: int| 0 <= k < r.len() implies r[k].1 <= l.1 by {
            assert(r.contains(r[k]));
            assert(r.to_multiset().count(r[k]) > 0);
            if d.to_multiset().count(r[k]) > 0 {
                assert(d.contains(r[k]));
                let j = choose|j: int| 0 <= j < d.len() && d[j] == r[k];
                assert(s[j].1 <= l.1);
            } else {
                assert(r[k] == e);
            }
        }
        assert(ages_ascending(r.push(l)));
    } else {
        assert forall|i: int, j: int|
            0 <= i < j < s.push(e).len() implies s.push(e)[i].1 <= s.push(e)[j].1 by {
            if j < s.len() {
                assert(s[i].1 <= s[j].1);
            } else if s.len() != 0 {
                assert(s.last().1 <= e.1);
                if i < s.len() - 1 {
                    assert(s[i].1 <= s.last().1);
                }
            }
        }
    }
}

/// The sorted sequence holds exactly the pairs of the input: a
/// permutation, as a multiset, with the same length.
pub proof fn lemma_sort_by_age_permutes(s: Seq<(Seq<char>, u64)>)
    ensures
        sort_by_age_spec(s).to_multiset() == s.to_multiset(),
        sort_by_age_spec(s).len() == s.len(),
    decreases s.len(),
{
    broadcast use group_to_multiset_ensures, group_multiset_axioms;

    if s.len() != 0 {
        let d = s.drop_last();
        let l = s.last();
        lemma_sort_by_age_permutes(d);
        lemma_insert_by_age_permutes(l, sort_by_age_spec(d));
        assert(s =~= d.push(l));
        assert(d.push(l).to_multiset() =~= d.to_multiset().insert(l));
    }
}

/// The sorted sequence is ascending by age.
pub proof fn lemma_sort_by_age_ascending(s: Seq<(Seq<char>, u64)>)
    ensures
        ages_ascending(sort_by_age_spec(s)),
    decreases s.len(),
{
    if s.len() != 0 {
        lemma_sort_by_age_ascending(s.drop_last());
        lemma_insert_by_age_ascending(s.last(), sort_by_age_spec(s.drop_last()));
    }
}

/// A stable insertion lands at the position that splits the at-most-`e`
/// prefix from the strictly-older suffix.
proof fn lemma_insert_by_age_at(e: (Seq<char>, u64), s: Seq<(Seq<char>, u64)>, p: int)
    requires
        0 <= p <= s.len(),
        forall|k: int| 0 <= k < p ==> s[k].1 <= e.1,
        forall|k: int| p <= k < s.len() ==> s[k].1 > e.1,
    ensures
        insert_by_age(e, s) == s.insert(p, e),
    decreases s.len(),
{
    if p == s.len() {
        assert(s.push(e) =~= s.insert(p, e));
        if s.len() != 0 {
            assert(s.last().1 <= e.1);
        }
    } else {
        assert(e.1 < s.last().1);
        lemma_insert_by_age_at(e, s.drop_last(), p);
        assert(s.drop_last().insert(p, e).push(s.last()) =~= s.insert(p, e));
    }
}

/// Turn one raw entry into its displayed form: append `/` to a
/// subdirectory's name, keep a file's name bare; the age is kept as is.
pub fn to_dir_entry(e: RawEntry) -> (r: DirEntry)
    ensures
        r@ == display_of(e),
{
    if e.is_dir {
        let mut name = e.name;
        name.append("/");
        DirEntry { display_name: name, elapsed: e.elapsed }
    } else {
        DirEntry { display_name: e.name, elapsed: e.elapsed }
    }
}

/// Turn a whole scan into displayed entries, keeping scan order.
pub fn build_entries(raw: Vec<RawEntry>) -> (r: Vec<DirEntry>)
    ensures
        entry_views(r@) == displays_of(raw@),
{
    let ghost orig = raw@;
    let mut raw = raw;
    let mut out: Vec<DirEntry> = Vec::new();
    while raw.len() > 0
        invariant
            out@.len() + raw@.len() == orig.len(),
            raw@ == orig.subrange(out@.len() as int, orig.len() as int),
            forall|k: int| 0 <= k < out@.len() ==> entry_views(out@)[k] == displays_of(orig)[k],
        decreases raw@.len(),
    {
        let e = raw.remove(0);
        proof {
            assert(e == orig[out@.len() as int]);
            assert(raw@ =~= orig.subrange(out@.len() as int + 1, orig.len() as int));
        }
        let d = to_dir_entry(e);
        out.push(d);
    }
    proof {
        assert(entry_views(out@) =~= displays_of(orig));
    }
    out
}

/// Insert one entry into an age-sorted vector, after every entry at most
/// as old and before every strictly older one.
fn insert_entry(out: &mut Vec<DirEntry>, e: DirEntry)
    requires
        sorted_by_age(old(out)@),
    ensures
        sorted_by_age(final(out)@),
        final(out)@.len() == old(out)@.len() + 1,
        entry_views(final(out)@) == insert_by_age(e@, entry_views(old(out)@)),
{
    let mut i: usize = 0;
    while i < out.len() && out[i].elapsed <= e.elapsed
        invariant
            out@ == old(out)@,
            i <= out@.len(),
            forall|k: int| 0 <= k < i ==> out@[k].elapsed <= e.elapsed,
        decreases out@.len() - i,
    {
        i = i + 1;
    }
    proof {
        assert forall|k: int| i <= k < out@.len() implies out@[k].elapsed > e.elapsed by {
            assert(out@[i as int].elapsed > e.elapsed);
            if k > i {
                assert(out@[i as int].elapsed <= out@[k].elapsed);
            }
        }
        lemma_insert_by_age_at(e@, entry_views(out@), i as int);
    }
    let ghost before = out@;
    out.insert(i, e);
    proof {
        assert(entry_views(out@) =~= entry_views(before).insert(i as int, e@));
        assert forall|a: int, b: int|
            0 <= a < b < out@.len() implies out@[a].elapsed <= out@[b].elapsed by {
            if b < i {
                assert(out@[a] == before[a] && out@[b] == before[b]);
            } else if a > i {
                assert(out@[a] == before[a - 1] && out@[b] == before[b - 1]);
            }
        }
    }
}

/// Sort entries by age, ascending (most recently modified first), stably:
/// the result is exactly `sort_by_age_spec` of the input, so entries of
/// equal age keep their order, and nothing is lost or invented.
pub fn sort_entries(entries: Vec<DirEntry>) -> (r: Vec<DirEntry>)
    ensures
        entry_views(r@) == sort_by_age_spec(entry_views(entries@)),
        sorted_by_age(r@),
        entry_views(r@).to_multiset() == entry_views(entries@).to_multiset(),
{
    let ghost orig = entries@;
    let mut rest = entries;
    let mut out: Vec<DirEntry> = Vec::new();
    proof {
        assert(rest@ =~= orig.subrange(0, orig.len() as int));
        assert(entry_views(orig.subrange(0, 0)) =~= entry_views(out@));
    }
    while rest.len() > 0
        invariant
            out@.len() + rest@.len() == orig.len(),
            rest@ == orig.subrange(out@.len() as int, orig.len() as int),
            sorted_by_age(out@),
            entry_views(out@) == sort_by_age_spec(
                entry_views(orig.subrange(0, out@.len() as int)),
            ),
        decreases rest@.len(),
    {
        let ghost k = out@.len() as int;
        let ghost out_before = out@;
        let e = rest.remove(0);
        proof {
            assert(e == orig[k]);
            assert(rest@ =~= orig.subrange(k + 1, orig.len() as int));
        }
        insert_entry(&mut out, e);
        proof {
            let prefix = entry_views(orig.subrange(0, k));
            let prefix1 = entry_views(orig.subrange(0, k + 1));
            assert(orig.subrange(0, k + 1) =~= orig.subrange(0, k).push(orig[k]));
            assert(prefix1 =~= prefix.push(e@));
            assert(prefix1.drop_last() =~= prefix);
            assert(sort_by_age_spec(prefix1) == insert_by_age(e@, sort_by_age_spec(prefix)));
        }
    }
    proof {
        assert(orig.subrange(0, orig.len() as int) =~= orig);
        lemma_sort_by_age_permutes(entry_views(orig));
    }
    out
}

} // verus!
