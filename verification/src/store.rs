//! Model of the catalog store that the sweep works against: entries, their
//! dependent link rows, and the two operations the sweep consumes — querying
//! entries with no remaining links, and atomically deleting a batch of link
//! rows together with their entries.
//!
//! The model keeps the catalog as plain sequences.  An entry is *orphaned*
//! when no link row references it; the query returns the orphaned entries in
//! catalog order, bounded by the caller's limit, and the delete removes
//! exactly the rows for the given identifiers and nothing else.

use vstd::prelude::*;

verus! {

/// A dependent association row (for example a tag association) that
/// references a catalog entry by its identifier.
#[derive(Clone, Copy, PartialEq, Eq, Structural, Debug)]
pub struct LinkRow {
    /// The catalog entry this row references.
    pub entry_id: i64,
    /// The associated resource (for example a tag).
    pub tag_id: i64,
}

/// Whether some link row in `links` references the entry `id`.
pub open spec fn links_reference(links: Seq<LinkRow>, id: i64) -> bool {
    exists|k: int| 0 <= k < links.len() && links[k].entry_id == id
}

/// The entries of `entries` that no row of `links` references, in catalog
/// order.
pub open spec fn orphan_seq(entries: Seq<i64>, links: Seq<LinkRow>) -> Seq<i64>
    decreases entries.len(),
{
    if entries.len() == 0 {
        Seq::empty()
    } else {
        let rest = orphan_seq(entries.drop_last(), links);
        if links_reference(links, entries.last()) {
            rest
        } else {
            rest.push(entries.last())
        }
    }
}

/// The catalog: entry identifiers and the link rows that reference them.
#[derive(Clone, PartialEq, Eq, Debug)]
pub struct CatalogStore {
    /// The catalog entries, by identifier, each listed once.
    pub entries: Vec<i64>,
    /// The dependent link rows.
    pub links: Vec<LinkRow>,
}

impl CatalogStore {
    /// Well-formedness: each entry identifier occurs at most once.
    pub open spec fn wf(self) -> bool {
        self.entries@.no_duplicates()
    }

    /// The orphaned entries, in catalog order.
    pub open spec fn orphans(self) -> Seq<i64> {
        orphan_seq(self.entries@, self.links@)
    }

    /// An empty catalog.
    pub fn new() -> (s: Self)
        ensures
            s.wf(),
            s.entries@ == Seq::<i64>::empty(),
            s.links@ == Seq::<LinkRow>::empty(),
    {
        CatalogStore { entries: Vec::new(), links: Vec::new() }
    }

    /// Adds an entry, rejecting a duplicate identifier.
    pub fn add_entry(&mut self, id: i64) -> (added: bool)
        requires
            old(self).wf(),
        ensures
            final(self).wf(),
            added == !old(self).entries@.contains(id),
            added ==> final(self).entries@ == old(self).entries@.push(id),
            !added ==> *final(self) == *old(self),
            final(self).links@ == old(self).links@,
    {
        if contains_id(&self.entries, id) {
            false
        } else {
            let ghost before = self.entries@;
            self.entries.push(id);
            proof {
                assert forall|i: int, j: int|
                    0 <= i < self.entries@.len() && 0 <= j < self.entries@.len() && i
                    != j implies self.entries@[i] != self.entries@[j] by {
                    if i < before.len() && j < before.len() {
                        assert(before[i] != before[j]);
                    } else if i < before.len() {
                        assert(!before.contains(id));
                    } else if j < before.len() {
                        assert(!before.contains(id));
                    }
                }
            }
            true
        }
    }

    /// Adds a link row referencing an entry.
    pub fn add_link(&mut self, entry_id: i64, tag_id: i64)
        requires
            old(self).wf(),
        ensures
            final(self).wf(),
            final(self).links@ == old(self).links@.push(LinkRow { entry_id, tag_id }),
            final(self).entries@ == old(self).entries@,
    {
        self.links.push(LinkRow { entry_id, tag_id });
    }

    /// Queries up to `limit` entries that no link row references: the store
    /// half of one fetch round-trip.  Returns the first `limit` orphans in
    /// catalog order; fewer only when fewer exist.
    pub fn find_entries_without_links(&self, limit: u32) -> (r: Vec<i64>)
        ensures
            r@ == self.orphans().take(
                vstd::math::min(limit as int, self.orphans().len() as int),
            ),
    {
        let lim: usize = limit as usize;
        let mut out: Vec<i64> = Vec::new();
        let mut i: usize = 0;
        proof {
            assert(self.entries@.take(0) =~= Seq::<i64>::empty());
        }
        while i < self.entries.len() && out.len() < lim
            invariant
                i <= self.entries@.len(),
                out@.len() <= lim,
                out@ == orphan_seq(self.entries@.take(i as int), self.links@),
            decreases self.entries@.len() - i,
        {
            let id = self.entries[i];
            let ghost prefix = self.entries@.take(i as int);
            let ghost next = self.entries@.take(i as int + 1);
            proof {
                assert(next.drop_last() =~= prefix);
                assert(next.last() == self.entries@[i as int]);
            }
            if !references_entry(&self.links, id) {
                out.push(id);
            }
            i = i + 1;
        }
        proof {
            lemma_orphan_prefix(self.entries@, self.links@, i as int);
            let full = self.orphans();
            let part = orphan_seq(self.entries@.take(i as int), self.links@);
            if i == self.entries@.len() {
                assert(self.entries@.take(i as int) =~= self.entries@);
                assert(out@ =~= full.take(vstd::math::min(lim as int, full.len() as int)));
            } else {
                assert(out@.len() == lim);
                assert(part =~= full.subrange(0, part.len() as int));
                assert(out@ =~= full.take(vstd::math::min(lim as int, full.len() as int)));
            }
        }
        out
    }

    /// Deletes, atomically from the caller's standpoint, every link row that
    /// references one of `ids` and then the entries themselves: the store half
    /// of one delete round-trip.  Nothing else is touched.
    pub fn delete_links_and_entries(&mut self, ids: &Vec<i64>)
        requires
            old(self).wf(),
        ensures
            final(self).wf(),
            final(self).entries@ == old(self).entries@.filter(|e: i64| !ids@.contains(e)),
            final(self).links@ == old(self).links@.filter(
                |l: LinkRow| !ids@.contains(l.entry_id),
            ),
    {
        let new_entries = retain_entries(&self.entries, ids);
        let new_links = retain_links(&self.links, ids);
        proof {
            lemma_filter_no_duplicates(self.entries@, |e: i64| !ids@.contains(e));
        }
        self.entries = new_entries;
        self.links = new_links;
    }
}

/// Whether `ids` holds `id`, by linear scan.
fn contains_id(ids: &Vec<i64>, id: i64) -> (r: bool)
    ensures
        r == ids@.contains(id),
{
    let mut i: usize = 0;
    while i < ids.len()
        invariant
            i <= ids@.len(),
            forall|k: int| 0 <= k < i ==> ids@[k] != id,
        decreases ids@.len() - i,
    {
        if ids[i] == id {
            return true;
        }
        i = i + 1;
    }
    false
}

/// Whether some row of `links` references the entry `id`, by linear scan.
fn references_entry(links: &Vec<LinkRow>, id: i64) -> (r: bool)
    ensures
        r == links_reference(links@, id),
{
    let mut i: usize = 0;
    while i < links.len()
        invariant
            i <= links@.len(),
            forall|k: int| 0 <= k < i ==> links@[k].entry_id != id,
        decreases links@.len() - i,
    {
        if links[i].entry_id == id {
            return true;
        }
        i = i + 1;
    }
    false
}

/// The entries of `entries` that are not listed in `ids`, in order.
fn retain_entries(entries: &Vec<i64>, ids: &Vec<i64>) -> (r: Vec<i64>)
    ensures
        r@ == entries@.filter(|e: i64| !ids@.contains(e)),
{
    let ghost pred = |e: i64| !ids@.contains(e);
    let mut out: Vec<i64> = Vec::new();
    let mut i: usize = 0;
    proof {
        assert(entries@.take(0) =~= Seq::<i64>::empty());
    }
    while i < entries.len()
        invariant
            i <= entries@.len(),
            pred == (|e: i64| !ids@.contains(e)),
            out@ == entries@.take(i as int).filter(pred),
        decreases entries@.len() - i,
    {
        let e = entries[i];
        proof {
            lemma_filter_push(entries@.take(i as int), pred, entries@[i as int]);
            assert(entries@.take(i as int).push(entries@[i as int]) =~= entries@.take(
                i as int + 1,
            ));
        }
        if !contains_id(ids, e) {
            out.push(e);
        }
        i = i + 1;
    }
    proof {
        assert(entries@.take(i as int) =~= entries@);
    }
    out
}

/// The rows of `links` whose entry is not listed in `ids`, in order.
fn retain_links(links: &Vec<LinkRow>, ids: &Vec<i64>) -> (r: Vec<LinkRow>)
    ensures
        r@ == links@.filter(|l: LinkRow| !ids@.contains(l.entry_id)),
{
    let ghost pred = |l: LinkRow| !ids@.contains(l.entry_id);
    let mut out: Vec<LinkRow> = Vec::new();
    let mut i: usize = 0;
    proof {
        assert(links@.take(0) =~= Seq::<LinkRow>::empty());
    }
    while i < links.len()
        invariant
            i <= links@.len(),
            pred == (|l: LinkRow| !ids@.contains(l.entry_id)),
            out@ == links@.take(i as int).filter(pred),
        decreases links@.len() - i,
    {
        let l = links[i];
        proof {
            lemma_filter_push(links@.take(i as int), pred, links@[i as int]);
            assert(links@.take(i as int).push(links@[i as int]) =~= links@.take(i as int + 1));
        }
        if !contains_id(ids, l.entry_id) {
            out.push(l);
        }
        i = i + 1;
    }
    proof {
        assert(links@.take(i as int) =~= links@);
    }
    out
}

/// Filtering commutes with appending one element.
pub proof fn lemma_filter_push<A>(s: Seq<A>, pred: spec_fn(A) -> bool, x: A)
    ensures
        s.push(x).filter(pred) == (if pred(x) {
            s.filter(pred).push(x)
        } else {
            s.filter(pred)
        }),
{
    reveal_with_fuel(Seq::filter, 2);
    let p = s.push(x);
    assert(p.last() == x);
    assert(p.drop_last() =~= s);
}

/// An element of a filtered sequence is an element of the original that
/// satisfies the predicate, and conversely.
pub proof fn lemma_filter_membership<A>(s: Seq<A>, pred: spec_fn(A) -> bool)
    ensures
        forall|x: A| #[trigger] s.filter(pred).contains(x) <==> s.contains(x) && pred(x),
    decreases s.len(),
{
    reveal_with_fuel(Seq::filter, 2);
    if s.len() == 0 {
    } else {
        let d = s.drop_last();
        lemma_filter_membership(d, pred);
        assert(s.filter(pred) == (if pred(s.last()) {
            d.filter(pred).push(s.last())
        } else {
            d.filter(pred)
        }));
        assert forall|x: A| #[trigger] s.filter(pred).contains(x) implies s.contains(x) && pred(
            x,
        ) by {
            if pred(s.last()) && x == s.last() {
                assert(s[s.len() - 1] == x);
            } else {
                if s.filter(pred).contains(x) {
                    if pred(s.last()) {
                        let j = choose|j: int|
                            0 <= j < s.filter(pred).len() && s.filter(pred)[j] == x;
                        if j < d.filter(pred).len() {
                            assert(d.filter(pred).contains(x));
                        } else {
                            assert(x == s.last());
                        }
                    } else {
                        assert(d.filter(pred).contains(x));
                    }
                    if d.contains(x) {
                        let j = choose|j: int| 0 <= j < d.len() && d[j] == x;
                        assert(s[j] == x);
                    }
                }
            }
        }
        assert forall|x: A| s.contains(x) && pred(x) implies #[trigger] s.filter(pred).contains(
            x,
        ) by {
            let j = choose|j: int| 0 <= j < s.len() && s[j] == x;
            if j < s.len() - 1 {
                assert(d[j] == x);
                assert(d.contains(x));
                assert(d.filter(pred).contains(x));
                if pred(s.last()) {
                    let k = choose|k: int|
                        0 <= k < d.filter(pred).len() && d.filter(pred)[k] == x;
                    assert(s.filter(pred)[k] == x);
                }
            } else {
                assert(x == s.last());
                assert(s.filter(pred).last() == x);
            }
        }
    }
}

/// Filtering keeps a duplicate-free sequence duplicate-free.
pub proof fn lemma_filter_no_duplicates<A>(s: Seq<A>, pred: spec_fn(A) -> bool)
    requires
        s.no_duplicates(),
    ensures
        s.filter(pred).no_duplicates(),
    decreases s.len(),
{
    reveal_with_fuel(Seq::filter, 2);
    if s.len() == 0 {
    } else {
        let d = s.drop_last();
        assert(d.no_duplicates());
        lemma_filter_no_duplicates(d, pred);
        if pred(s.last()) {
            lemma_filter_membership(d, pred);
            assert(!d.contains(s.last())) by {
                if d.contains(s.last()) {
                    let j = choose|j: int| 0 <= j < d.len() && d[j] == s.last();
                    assert(s[j] == s[s.len() - 1]);
                }
            }
            assert(!d.filter(pred).contains(s.last()));
            assert(s.filter(pred) == d.filter(pred).push(s.last()));
            let f = s.filter(pred);
            assert forall|i: int, j: int|
                0 <= i < f.len() && 0 <= j < f.len() && i != j implies f[i] != f[j] by {
                let df = d.filter(pred);
                if i < df.len() && j < df.len() {
                } else if i == df.len() {
                    assert(f[i] == s.last());
                    if f[j] == s.last() {
                        assert(df.contains(s.last()));
                    }
                } else {
                    assert(f[j] == s.last());
                    if f[i] == s.last() {
                        assert(df.contains(s.last()));
                    }
                }
            }
        } else {
            assert(s.filter(pred) == d.filter(pred));
        }
    }
}

/// Composing two filters filters by the conjunction.
pub proof fn lemma_filter_compose<A>(s: Seq<A>, p: spec_fn(A) -> bool, q: spec_fn(A) -> bool)
    ensures
        s.filter(p).filter(q) == s.filter(|x: A| p(x) && q(x)),
    decreases s.len(),
{
    reveal_with_fuel(Seq::filter, 2);
    let pq = |x: A| p(x) && q(x);
    if s.len() == 0 {
        assert(s.filter(p).filter(q) =~= Seq::<A>::empty());
        assert(s.filter(pq) =~= Seq::<A>::empty());
    } else {
        let d = s.drop_last();
        let e = s.last();
        lemma_filter_compose(d, p, q);
        if p(e) {
            assert(s.filter(p) == d.filter(p).push(e));
            lemma_filter_push(d.filter(p), q, e);
        } else {
            assert(s.filter(p) == d.filter(p));
        }
    }
}

/// Every element of a sequence of orphans is an entry.
pub proof fn lemma_orphan_seq_subset(entries: Seq<i64>, links: Seq<LinkRow>)
    ensures
        forall|x: i64| #[trigger] orphan_seq(entries, links).contains(x) ==> entries.contains(x),
    decreases entries.len(),
{
    if entries.len() > 0 {
        let d = entries.drop_last();
        lemma_orphan_seq_subset(d, links);
        assert forall|x: i64| #[trigger]
            orphan_seq(entries, links).contains(x) implies entries.contains(x) by {
            let o = orphan_seq(entries, links);
            let rest = orphan_seq(d, links);
            if !links_reference(links, entries.last()) {
                let j = choose|j: int| 0 <= j < o.len() && o[j] == x;
                if j < rest.len() {
                    assert(rest.contains(x));
                } else {
                    assert(x == entries.last());
                    assert(entries[entries.len() - 1] == x);
                }
            }
            if rest.contains(x) {
                let k = choose|k: int| 0 <= k < d.len() && d[k] == x;
                assert(entries[k] == x);
            }
        }
    }
}

/// A duplicate-free catalog yields a duplicate-free orphan sequence.
pub proof fn lemma_orphan_seq_no_duplicates(entries: Seq<i64>, links: Seq<LinkRow>)
    requires
        entries.no_duplicates(),
    ensures
        orphan_seq(entries, links).no_duplicates(),
    decreases entries.len(),
{
    if entries.len() > 0 {
        let d = entries.drop_last();
        assert(d.no_duplicates());
        lemma_orphan_seq_no_duplicates(d, links);
        if !links_reference(links, entries.last()) {
            let rest = orphan_seq(d, links);
            assert(!rest.contains(entries.last())) by {
                lemma_orphan_seq_subset(d, links);
                if d.contains(entries.last()) {
                    let j = choose|j: int| 0 <= j < d.len() && d[j] == entries.last();
                    assert(entries[j] == entries[entries.len() - 1]);
                }
            }
            let o = orphan_seq(entries, links);
            assert forall|i: int, j: int|
                0 <= i < o.len() && 0 <= j < o.len() && i != j implies o[i] != o[j] by {
                if i < rest.len() && j < rest.len() {
                } else if i == rest.len() {
                    if o[j] == entries.last() {
                        assert(rest.contains(entries.last()));
                    }
                } else {
                    if o[i] == entries.last() {
                        assert(rest.contains(entries.last()));
                    }
                }
            }
        }
    }
}

/// The orphans of a catalog prefix are a prefix of the catalog's orphans.
pub proof fn lemma_orphan_prefix(entries: Seq<i64>, links: Seq<LinkRow>, i: int)
    requires
        0 <= i <= entries.len(),
    ensures
        orphan_seq(entries.take(i), links).is_prefix_of(orphan_seq(entries, links)),
    decreases entries.len() - i,
{
    if i == entries.len() {
        assert(entries.take(i) =~= entries);
        let o = orphan_seq(entries, links);
        assert(o =~= o.subrange(0, o.len() as int));
    } else {
        lemma_orphan_prefix(entries, links, i + 1);
        let a = orphan_seq(entries.take(i), links);
        let b = orphan_seq(entries.take(i + 1), links);
        let c = orphan_seq(entries, links);
        assert(entries.take(i + 1).drop_last() =~= entries.take(i));
        assert(entries.take(i + 1).last() == entries[i]);
        assert(a.is_prefix_of(b)) by {
            if !links_reference(links, entries[i]) {
                assert(b == a.push(entries[i]));
                assert(a =~= b.subrange(0, a.len() as int));
            } else {
                assert(b == a);
                assert(a =~= b.subrange(0, a.len() as int));
            }
        }
        assert(a =~= c.subrange(0, a.len() as int)) by {
            assert(b =~= c.subrange(0, b.len() as int));
            assert forall|k: int| 0 <= k < a.len() implies a[k] == c.subrange(
                0,
                a.len() as int,
            )[k] by {
                assert(a[k] == b[k]);
                assert(b[k] == c[k]);
            }
        }
    }
}

/// Removing exactly the first `k` orphans from a duplicate-free sequence
/// leaves its remainder.
pub proof fn lemma_filter_out_prefix(s: Seq<i64>, ids: Seq<i64>, k: int)
    requires
        0 <= k <= s.len(),
        ids == s.take(k),
        s.no_duplicates(),
    ensures
        s.filter(|e: i64| !ids.contains(e)) == s.skip(k),
    decreases s.len(),
{
    reveal_with_fuel(Seq::filter, 2);
    let pred = |e: i64| !ids.contains(e);
    if s.len() == k {
        assert(s.take(k) =~= s);
        assert forall|i: int| 0 <= i < s.len() implies ids.contains(s[i]) by {
            assert(s.contains(s[i]));
        }
        lemma_filter_all_excluded(s, ids);
        assert(s.skip(k) =~= Seq::<i64>::empty());
    } else {
        let d = s.drop_last();
        let e = s.last();
        assert(d.no_duplicates());
        assert(d.take(k) =~= s.take(k));
        lemma_filter_out_prefix(d, ids, k);
        assert(!ids.contains(e)) by {
            if ids.contains(e) {
                let j = choose|j: int| 0 <= j < ids.len() && ids[j] == e;
                assert(s[j] == s[s.len() - 1]);
            }
        }
        assert(s.filter(pred) == d.filter(pred).push(e));
        assert(s.skip(k) =~= d.skip(k).push(e));
    }
}

/// Filtering out a superset of a sequence's elements leaves nothing.
pub proof fn lemma_filter_all_excluded(s: Seq<i64>, ids: Seq<i64>)
    requires
        forall|i: int| 0 <= i < s.len() ==> ids.contains(#[trigger] s[i]),
    ensures
        s.filter(|e: i64| !ids.contains(e)) == Seq::<i64>::empty(),
    decreases s.len(),
{
    reveal_with_fuel(Seq::filter, 2);
    if s.len() > 0 {
        let d = s.drop_last();
        assert forall|i: int| 0 <= i < d.len() implies ids.contains(#[trigger] d[i]) by {
            assert(d[i] == s[i]);
        }
        lemma_filter_all_excluded(d, ids);
        assert(ids.contains(s.last())) by {
            assert(ids.contains(s[s.len() - 1]));
        }
    }
}

/// After deleting the rows for `ids`, the orphans are exactly the former
/// orphans outside `ids`: survivors keep their links, so none changes status.
pub proof fn lemma_orphans_after_delete(entries: Seq<i64>, links: Seq<LinkRow>, ids: Seq<i64>)
    ensures
        orphan_seq(
            entries.filter(|e: i64| !ids.contains(e)),
            links.filter(|l: LinkRow| !ids.contains(l.entry_id)),
        ) == orphan_seq(entries, links).filter(|e: i64| !ids.contains(e)),
    decreases entries.len(),
{
    reveal_with_fuel(Seq::filter, 2);
    let q = |e: i64| !ids.contains(e);
    let ql = |l: LinkRow| !ids.contains(l.entry_id);
    let lf = links.filter(ql);
    if entries.len() == 0 {
        assert(entries.filter(q) =~= Seq::<i64>::empty());
        assert(orphan_seq(entries, links).filter(q) =~= Seq::<i64>::empty());
    } else {
        let d = entries.drop_last();
        let e = entries.last();
        lemma_orphans_after_delete(d, links, ids);
        let rest = orphan_seq(d, links);
        if ids.contains(e) {
            assert(entries.filter(q) == d.filter(q));
            if links_reference(links, e) {
                assert(orphan_seq(entries, links) == rest);
            } else {
                assert(orphan_seq(entries, links) == rest.push(e));
                lemma_filter_push(rest, q, e);
            }
        } else {
            assert(entries.filter(q) == d.filter(q).push(e));
            assert(entries.filter(q).drop_last() =~= d.filter(q));
            assert(entries.filter(q).last() == e);
            lemma_links_reference_filter(links, ids, e);
            if links_reference(links, e) {
                assert(orphan_seq(entries, links) == rest);
                assert(orphan_seq(entries.filter(q), lf) == orphan_seq(d.filter(q), lf));
            } else {
                assert(orphan_seq(entries, links) == rest.push(e));
                lemma_filter_push(rest, q, e);
                assert(orphan_seq(entries.filter(q), lf) == orphan_seq(d.filter(q), lf).push(e));
            }
        }
    }
}

/// An entry outside `ids` is referenced after the delete exactly when it was
/// referenced before: only rows for `ids` are removed.
pub proof fn lemma_links_reference_filter(links: Seq<LinkRow>, ids: Seq<i64>, e: i64)
    requires
        !ids.contains(e),
    ensures
        links_reference(links.filter(|l: LinkRow| !ids.contains(l.entry_id)), e)
            == links_reference(links, e),
{
    reveal_with_fuel(Seq::filter, 2);
    let ql = |l: LinkRow| !ids.contains(l.entry_id);
    let lf = links.filter(ql);
    lemma_filter_membership(links, ql);
    if links_reference(links, e) {
        let k = choose|k: int| 0 <= k < links.len() && links[k].entry_id == e;
        let row = links[k];
        assert(links.contains(row));
        assert(ql(row));
        assert(lf.contains(row));
        let j = choose|j: int| 0 <= j < lf.len() && lf[j] == row;
        assert(lf[j].entry_id == e);
    }
    if links_reference(lf, e) {
        let k = choose|k: int| 0 <= k < lf.len() && lf[k].entry_id == e;
        let row = lf[k];
        assert(lf.contains(row));
        assert(links.contains(row));
        let j = choose|j: int| 0 <= j < links.len() && links[j] == row;
        assert(links[j].entry_id == e);
    }
}


/// A filter whose predicate holds of every element keeps the sequence intact.
pub proof fn lemma_filter_all_kept<A>(s: Seq<A>, pred: spec_fn(A) -> bool)
    requires
        forall|i: int| 0 <= i < s.len() ==> pred(#[trigger] s[i]),
    ensures
        s.filter(pred) == s,
    decreases s.len(),
{
    reveal_with_fuel(Seq::filter, 2);
    if s.len() > 0 {
        let d = s.drop_last();
        assert forall|i: int| 0 <= i < d.len() implies pred(#[trigger] d[i]) by {
            assert(d[i] == s[i]);
        }
        lemma_filter_all_kept(d, pred);
        assert(pred(s[s.len() - 1]));
        assert(d.push(s.last()) =~= s);
    } else {
        assert(s.filter(pred) =~= s);
    }
}

/// Filters by pointwise-equal predicates agree.
pub proof fn lemma_filter_equiv<A>(s: Seq<A>, p: spec_fn(A) -> bool, q: spec_fn(A) -> bool)
    requires
        forall|x: A| #[trigger] p(x) == q(x),
    ensures
        s.filter(p) == s.filter(q),
    decreases s.len(),
{
    reveal_with_fuel(Seq::filter, 2);
    if s.len() > 0 {
        lemma_filter_equiv(s.drop_last(), p, q);
    }
}

/// There are no more orphans than entries.
pub proof fn lemma_orphan_seq_len(entries: Seq<i64>, links: Seq<LinkRow>)
    ensures
        orphan_seq(entries, links).len() <= entries.len(),
    decreases entries.len(),
{
    if entries.len() > 0 {
        lemma_orphan_seq_len(entries.drop_last(), links);
    }
}

/// Membership in a longer prefix splits into membership in a shorter prefix
/// or in the stretch between the two.
pub proof fn lemma_take_split_contains(s: Seq<i64>, a: int, b: int, e: i64)
    requires
        0 <= a <= b <= s.len(),
    ensures
        s.take(b).contains(e) <==> s.take(a).contains(e) || s.subrange(a, b).contains(e),
{
    if s.take(b).contains(e) {
        let j = choose|j: int| 0 <= j < b && s.take(b)[j] == e;
        if j < a {
            assert(s.take(a)[j] == e);
        } else {
            assert(s.subrange(a, b)[j - a] == e);
        }
    }
    if s.take(a).contains(e) {
        let j = choose|j: int| 0 <= j < a && s.take(a)[j] == e;
        assert(s.take(b)[j] == e);
    }
    if s.subrange(a, b).contains(e) {
        let j = choose|j: int| 0 <= j < b - a && s.subrange(a, b)[j] == e;
        assert(s.take(b)[j + a] == e);
    }
}

} // verus!
