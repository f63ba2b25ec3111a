//! Range covers: which indices along one tensor axis are known to hold zero.
//!
//! A cover is a boolean bitmap over `0..n`: `true` at position `i` means index
//! `i` is proven to hold the additive identity.  Positions past the end of the
//! bitmap carry no information and count as `false`.

use vstd::prelude::*;
use vstd::pervasive::VecAdditionalExecFns;

verus! {

/// The bitmap of length `n` that carries no information.
pub open spec fn all_false(n: int) -> Seq<bool> {
    Seq::new(n as nat, |i: int| false)
}

/// `s` extended with `false` to length `n`; unchanged if already that long.
pub open spec fn grown(s: Seq<bool>, n: int) -> Seq<bool> {
    if n > s.len() {
        s + all_false(n - s.len())
    } else {
        s
    }
}

/// The bitmap after `[lo, hi)` is marked: it grows to length `hi` if it was
/// shorter, and every position in `[lo, hi)` becomes `true`.
pub open spec fn with_range_added(s: Seq<bool>, lo: int, hi: int) -> Seq<bool> {
    Seq::new(
        (if hi > s.len() {
            hi
        } else {
            s.len() as int
        }) as nat,
        |i: int| (lo <= i < hi) || (0 <= i < s.len() && s[i]),
    )
}

/// Whether every index of `[lo, hi)` is marked.  A query that reaches past the
/// end of the bitmap is not covered, since missing positions are unknown.
pub open spec fn range_covered(s: Seq<bool>, lo: int, hi: int) -> bool {
    hi <= s.len() && forall|i: int| lo <= i < hi ==> #[trigger] s[i]
}

/// The bitmap after `k` fresh `false` positions are spliced in at `at`,
/// shifting the tail right; a bitmap shorter than `at` is first extended.
pub open spec fn with_elements_inserted(s: Seq<bool>, at: int, k: int) -> Seq<bool> {
    Seq::new(
        ((if at > s.len() {
            at
        } else {
            s.len() as int
        }) + k) as nat,
        |i: int|
            if i < at {
                0 <= i < s.len() && s[i]
            } else if i < at + k {
                false
            } else {
                0 <= i - k < s.len() && s[i - k]
            },
    )
}

/// The bitmap after the `k` positions starting at `at` are spliced out.
pub open spec fn with_elements_removed(s: Seq<bool>, at: int, k: int) -> Seq<bool> {
    Seq::new(
        (s.len() - k) as nat,
        |i: int|
            if i < at {
                s[i]
            } else {
                s[i + k]
            },
    )
}

/// Operations of a cover over `0..n`, specified against the bitmap it stands
/// for.  Ranges are half-open.
pub trait RangeSet2 {
    /// The bitmap this cover stands for.
    spec fn model(&self) -> Seq<bool>;

    /// Inserts elements, shifting existing ranges as needed.
    fn insert_elements(&mut self, index: usize, num_elements_inserted: usize)
        requires
            old(self).model().len() + num_elements_inserted <= usize::MAX,
            index + num_elements_inserted <= usize::MAX,
        ensures
            final(self).model() == with_elements_inserted(
                old(self).model(),
                index as int,
                num_elements_inserted as int,
            ),
    ;

    /// Updates ranges as if `num_elements_removed` elements were removed at
    /// `index`.
    fn remove_elements(&mut self, index: usize, num_elements_removed: usize)
        requires
            index + num_elements_removed <= old(self).model().len(),
        ensures
            final(self).model() == with_elements_removed(
                old(self).model(),
                index as int,
                num_elements_removed as int,
            ),
    ;

    /// Checks whether `range` is covered by the ranges in this set.
    fn covered(&self, range: (usize, usize)) -> (r: bool)
        requires
            range.0 <= range.1,
        ensures
            r == range_covered(self.model(), range.0 as int, range.1 as int),
    ;

    /// Adds a range.
    fn add_range(&mut self, range: (usize, usize))
        ensures
            final(self).model() == with_range_added(
                old(self).model(),
                range.0 as int,
                range.1 as int,
            ),
    ;
}

/// A cover stored directly as its bitmap.
#[derive(Debug, Clone)]
pub struct BoolVecRangeSet {
    pub bits: Vec<bool>,
}

impl Default for BoolVecRangeSet {
    /// The empty cover: no index is known to be zero.
    fn default() -> (result: Self)
        ensures
            result.bits@ == Seq::<bool>::empty(),
    {
        BoolVecRangeSet { bits: Vec::new() }
    }
}

impl BoolVecRangeSet {
    /// Extends the bitmap with `false` until it has length `n`.
    fn grow_to(&mut self, n: usize)
        ensures
            final(self).bits@ == grown(old(self).bits@, n as int),
    {
        while self.bits.len() < n
            invariant
                old(self).bits@.len() <= self.bits@.len(),
                self.bits@.len() <= (if n > old(self).bits@.len() {
                    n as int
                } else {
                    old(self).bits@.len() as int
                }),
                self.bits@ == old(self).bits@ + all_false(
                    self.bits@.len() - old(self).bits@.len(),
                ),
            decreases n - self.bits.len(),
        {
            self.bits.push(false);
            proof {
                assert(self.bits@ =~= old(self).bits@ + all_false(
                    self.bits@.len() - old(self).bits@.len(),
                ));
            }
        }
        proof {
            assert(self.bits@ =~= grown(old(self).bits@, n as int));
        }
    }
}

impl RangeSet2 for BoolVecRangeSet {
    open spec fn model(&self) -> Seq<bool> {
        self.bits@
    }

    fn insert_elements(&mut self, index: usize, num_elements_inserted: usize) {
        if index >= self.bits.len() {
            self.grow_to(index);
        }
        let ghost base: Seq<bool> = self.bits@;
        let mut j: usize = 0;
        while j < num_elements_inserted
            invariant
                j <= num_elements_inserted,
                index <= base.len(),
                base.len() + num_elements_inserted <= usize::MAX,
                self.bits@.len() == base.len() + j,
                self.bits@ == base.take(index as int) + all_false(j as int) + base.skip(
                    index as int,
                ),
            decreases num_elements_inserted - j,
        {
            self.bits.insert(index, false);
            j = j + 1;
            proof {
                assert(self.bits@ =~= base.take(index as int) + all_false(j as int) + base.skip(
                    index as int,
                ));
            }
        }
        proof {
            assert(self.bits@ =~= with_elements_inserted(
                old(self).bits@,
                index as int,
                num_elements_inserted as int,
            ));
        }
    }

    fn remove_elements(&mut self, index: usize, num_elements_removed: usize) {
        let mut j: usize = 0;
        while j < num_elements_removed
            invariant
                j <= num_elements_removed,
                index + num_elements_removed <= old(self).bits@.len(),
                self.bits@.len() == old(self).bits@.len() - j,
                forall|m: int|
                    0 <= m < self.bits@.len() ==> #[trigger] self.bits@[m] == (if m < index {
                        old(self).bits@[m]
                    } else {
                        old(self).bits@[m + j]
                    }),
            decreases num_elements_removed - j,
        {
            self.bits.remove(index);
            j = j + 1;
        }
        proof {
            assert(self.bits@ =~= with_elements_removed(
                old(self).bits@,
                index as int,
                num_elements_removed as int,
            ));
        }
    }

    fn covered(&self, range: (usize, usize)) -> (r: bool) {
        if range.1 > self.bits.len() {
            return false;
        }
        let mut i: usize = range.0;
        while i < range.1
            invariant
                range.0 <= i,
                range.1 <= self.bits@.len(),
                forall|m: int| range.0 <= m < i ==> #[trigger] self.bits@[m],
            decreases range.1 - i,
        {
            if !self.bits[i] {
                return false;
            }
            i = i + 1;
        }
        true
    }

    fn add_range(&mut self, range: (usize, usize)) {
        if range.1 > self.bits.len() {
            self.grow_to(range.1);
        }
        let ghost base: Seq<bool> = self.bits@;
        let mut i: usize = range.0;
        while i < range.1
            invariant
                range.0 <= i,
                i <= range.1 || i == range.0,
                range.1 <= base.len(),
                base == grown(old(self).bits@, range.1 as int),
                self.bits@.len() == base.len(),
                forall|m: int|
                    0 <= m < self.bits@.len() ==> #[trigger] self.bits@[m] == ((range.0 <= m < i)
                        || base[m]),
            decreases range.1 - i,
        {
            self.bits.set(i, true);
            i = i + 1;
        }
        proof {
            assert(self.bits@ =~= with_range_added(
                old(self).bits@,
                range.0 as int,
                range.1 as int,
            ));
        }
    }
}

/// Whether index `i` is marked after `[lo, hi)` is added to `s`: either it
/// falls inside the added range, or it was already marked.
pub open spec fn marked_after_add(s: Seq<bool>, lo: int, hi: int, i: int) -> bool {
    (lo <= i < hi) || (0 <= i < s.len() && s[i])
}

/// After `[lo, hi)` is added to a cover, a query `[lo2, hi2)` is covered
/// exactly when it lies within the grown bitmap and every index it contains
/// either falls inside the added range or was already marked.
pub proof fn lemma_add_range_covered(s: Seq<bool>, lo: int, hi: int, lo2: int, hi2: int)
    requires
        0 <= lo2,
    ensures
        range_covered(with_range_added(s, lo, hi), lo2, hi2) <==> ({
            &&& hi2 <= (if hi > s.len() {
                hi
            } else {
                s.len() as int
            })
            &&& forall|i: int| lo2 <= i < hi2 ==> #[trigger] marked_after_add(s, lo, hi, i)
        }),
{
    let added = with_range_added(s, lo, hi);
    let len2 = if hi > s.len() {
        hi
    } else {
        s.len() as int
    };
    assert(added.len() == len2);
    if hi2 <= len2 {
        if forall|i: int| lo2 <= i < hi2 ==> #[trigger] marked_after_add(s, lo, hi, i) {
            assert forall|i: int| lo2 <= i < hi2 implies #[trigger] added[i] by {
                assert(marked_after_add(s, lo, hi, i));
            }
        }
        if range_covered(added, lo2, hi2) {
            assert forall|i: int| lo2 <= i < hi2 implies #[trigger] marked_after_add(
                s,
                lo,
                hi,
                i,
            ) by {
                assert(added[i]);
            }
        }
    }
}

/// How inserted elements interact with a stored range that straddles the
/// insertion point.
#[derive(Debug, Clone, Copy)]
pub enum RangeInsertStrategy {
    /// If elements are inserted in the middle of a range, the range gets split
    /// in two.
    BreakRanges,
    /// If elements are inserted in the middle of a range, they get folded into
    /// the range.
    PreserveRanges,
}

/// Whether index `i` lies in some range of `m`.
pub open spec fn index_in_ranges(m: Set<(usize, usize)>, i: int) -> bool {
    exists|r: (usize, usize)| #[trigger] m.contains(r) && r.0 <= i < r.1
}

/// The ranges that a stored range `r` contributes after `k` elements are
/// inserted at `at`: whether candidate `p` is one of them.
pub open spec fn insert_piece(
    r: (usize, usize),
    strategy: RangeInsertStrategy,
    at: int,
    k: int,
    p: (usize, usize),
) -> bool {
    match strategy {
        RangeInsertStrategy::BreakRanges => {
            if at <= r.0 {
                p.0 == r.0 + k && p.1 == r.1 + k
            } else if at < r.1 {
                (p.0 == r.0 && p.1 == at) || (p.0 == at + k && p.1 == r.1 + k)
            } else {
                p == r
            }
        },
        RangeInsertStrategy::PreserveRanges => {
            if at < r.0 {
                p.0 == r.0 + k && p.1 == r.1 + k
            } else if at <= r.1 {
                p.0 == r.0 && p.1 == r.1 + k
            } else {
                p == r
            }
        },
    }
}

/// The range that a stored range `r` shrinks to after the `k` elements at
/// `at` are removed; the range is kept only if it stays nonempty.
pub open spec fn removed_low(r: (usize, usize), at: int, k: int) -> int {
    if r.0 <= at {
        r.0 as int
    } else if r.0 - at < k {
        at
    } else {
        r.0 - k
    }
}

pub open spec fn removed_high(r: (usize, usize), at: int, k: int) -> int {
    if at >= r.1 {
        r.1 as int
    } else if r.1 - at < k {
        at
    } else {
        r.1 - k
    }
}

pub open spec fn remove_piece(r: (usize, usize), at: int, k: int, p: (usize, usize)) -> bool {
    p.0 == removed_low(r, at, k) && p.1 == removed_high(r, at, k) && p.0 < p.1
}

/// Operations of a set of half-open ranges over `0..n`.
pub trait RangeSet {
    /// The set of ranges stored.
    spec fn model(&self) -> Set<(usize, usize)>;

    /// The representation invariant.
    spec fn inv(&self) -> bool;

    /// Updates ranges as if `num_elements_inserted` elements were inserted at
    /// `index`, according to `strategy`.
    fn insert_elements(
        &mut self,
        strategy: RangeInsertStrategy,
        index: usize,
        num_elements_inserted: usize,
    )
        requires
            old(self).inv(),
            forall|r: (usize, usize)| #[trigger] old(self).model().contains(r) ==> r.0 <= r.1,
            forall|r: (usize, usize)|
                #[trigger] old(self).model().contains(r) ==> r.1 + num_elements_inserted
                    <= usize::MAX,
            index + num_elements_inserted <= usize::MAX,
        ensures
            final(self).inv(),
            forall|p: (usize, usize)|
                #[trigger] final(self).model().contains(p) <==> exists|r: (usize, usize)|
                    #[trigger] old(self).model().contains(r) && insert_piece(
                        r,
                        strategy,
                        index as int,
                        num_elements_inserted as int,
                        p,
                    ),
    ;

    /// Updates ranges as if `num_elements_removed` elements were removed at
    /// `index`.
    fn remove_elements(&mut self, index: usize, num_elements_removed: usize)
        requires
            old(self).inv(),
        ensures
            final(self).inv(),
            forall|p: (usize, usize)|
                #[trigger] final(self).model().contains(p) <==> exists|r: (usize, usize)|
                    #[trigger] old(self).model().contains(r) && remove_piece(
                        r,
                        index as int,
                        num_elements_removed as int,
                        p,
                    ),
    ;

    /// Checks whether `range` is covered by the ranges in this set.
    fn covered(&self, range: (usize, usize)) -> (res: bool)
        ensures
            res == (forall|i: int|
                range.0 <= i < range.1 ==> index_in_ranges(self.model(), i)),
    ;

    /// Adds a range.
    fn add_range(&mut self, range: (usize, usize))
        requires
            old(self).inv(),
        ensures
            final(self).inv(),
            final(self).model() == old(self).model().insert(range),
    ;
}

/// A set of half-open ranges, stored without duplicates.
#[derive(Debug, Clone)]
pub struct RangeHashSet {
    pub ranges: Vec<(usize, usize)>,
}

impl Default for RangeHashSet {
    /// The empty set of ranges.
    fn default() -> (result: Self)
        ensures
            result.ranges@ == Seq::<(usize, usize)>::empty(),
    {
        RangeHashSet { ranges: Vec::new() }
    }
}

impl RangeHashSet {
    /// How many distinct ranges are stored.
    pub fn len(&self) -> (n: usize)
        requires
            self.inv(),
        ensures
            n == self.model().len(),
    {
        proof {
            self.ranges@.unique_seq_to_set();
        }
        self.ranges.len()
    }

    /// Whether `range` is one of the stored ranges.
    pub fn contains(&self, range: &(usize, usize)) -> (res: bool)
        ensures
            res == self.model().contains(*range),
    {
        let mut j: usize = 0;
        let mut found = false;
        while j < self.ranges.len()
            invariant
                j <= self.ranges@.len(),
                found == exists|m: int| 0 <= m < j && self.ranges@[m] == *range,
            decreases self.ranges@.len() - j,
        {
            if self.ranges[j].0 == range.0 && self.ranges[j].1 == range.1 {
                found = true;
            }
            j = j + 1;
        }
        proof {
            assert(self.model().contains(*range) == self.ranges@.contains(*range));
        }
        found
    }

    /// Appends `p` unless it is already stored, keeping ranges distinct.
    fn push_unique(&mut self, p: (usize, usize))
        requires
            old(self).inv(),
        ensures
            final(self).inv(),
            final(self).model() == old(self).model().insert(p),
    {
        if !self.contains(&p) {
            let ghost before: Seq<(usize, usize)> = self.ranges@;
            self.ranges.push(p);
            proof {
                assert(self.ranges@.drop_last() == before);
                assert forall|q: (usize, usize)| #[trigger]
                    self.model().contains(q) == old(self).model().insert(p).contains(q) by {
                    if self.ranges@.contains(q) {
                        let m = choose|m: int| 0 <= m < self.ranges@.len() && self.ranges@[m] == q;
                        if m < before.len() {
                            assert(before[m] == q);
                        }
                    }
                    if before.contains(q) {
                        let m = choose|m: int| 0 <= m < before.len() && before[m] == q;
                        assert(self.ranges@[m] == q);
                    }
                    if q == p {
                        assert(self.ranges@.last() == p);
                    }
                }
                assert(final(self).model() =~= old(self).model().insert(p));
            }
        } else {
            proof {
                assert(final(self).model() =~= old(self).model().insert(p));
            }
        }
    }
}

impl RangeSet for RangeHashSet {
    open spec fn model(&self) -> Set<(usize, usize)> {
        self.ranges@.to_set()
    }

    open spec fn inv(&self) -> bool {
        self.ranges@.no_duplicates()
    }

    fn insert_elements(
        &mut self,
        strategy: RangeInsertStrategy,
        index: usize,
        num_elements_inserted: usize,
    ) {
        let ghost at = index as int;
        let ghost k = num_elements_inserted as int;
        let mut new_set = RangeHashSet { ranges: Vec::new() };
        let mut j: usize = 0;
        while j < self.ranges.len()
            invariant
                j <= self.ranges@.len(),
                self == old(self),
                old(self).inv(),
                at == index as int,
                k == num_elements_inserted as int,
                forall|r: (usize, usize)| #[trigger]
                    old(self).model().contains(r) ==> r.0 <= r.1,
                forall|r: (usize, usize)| #[trigger]
                    old(self).model().contains(r) ==> r.1 + k <= usize::MAX,
                index + num_elements_inserted <= usize::MAX,
                new_set.inv(),
                forall|p: (usize, usize)| #[trigger]
                    new_set.model().contains(p) <==> exists|m: int|
                        0 <= m < j && insert_piece(#[trigger] self.ranges@[m], strategy, at, k, p),
            decreases self.ranges@.len() - j,
        {
            let r = self.ranges[j];
            let ghost pre = new_set;
            proof {
                assert(self.ranges@.contains(r));
                assert(old(self).model().contains(r));
            }
            match strategy {
                RangeInsertStrategy::PreserveRanges => {
                    if index < r.0 {
                        new_set.push_unique((r.0 + num_elements_inserted, r.1
                            + num_elements_inserted));
                    } else if index <= r.1 {
                        new_set.push_unique((r.0, r.1 + num_elements_inserted));
                    } else {
                        new_set.push_unique(r);
                    }
                },
                RangeInsertStrategy::BreakRanges => {
                    if index <= r.0 {
                        new_set.push_unique((r.0 + num_elements_inserted, r.1
                            + num_elements_inserted));
                    } else if index < r.1 {
                        new_set.push_unique((r.0, index));
                        new_set.push_unique((index + num_elements_inserted, r.1
                            + num_elements_inserted));
                    } else {
                        new_set.push_unique(r);
                    }
                },
            }
            j = j + 1;
            proof {
                assert forall|p: (usize, usize)|
                    #[trigger] new_set.model().contains(p) == (exists|m: int|
                    0 <= m < j && insert_piece(
                        #[trigger] self.ranges@[m],
                        strategy,
                        at,
                        k,
                        p,
                    )) by {
                    if new_set.model().contains(p) {
                        if pre.model().contains(p) {
                            let m = choose|m: int|
                                0 <= m < j - 1 && insert_piece(
                                    #[trigger] self.ranges@[m],
                                    strategy,
                                    at,
                                    k,
                                    p,
                                );
                            assert(insert_piece(self.ranges@[m], strategy, at, k, p));
                        } else {
                            assert(insert_piece(self.ranges@[j - 1], strategy, at, k, p));
                        }
                    }
                    if exists|m: int|
                        0 <= m < j && insert_piece(#[trigger] self.ranges@[m], strategy, at, k, p) {
                        let m = choose|m: int|
                            0 <= m < j && insert_piece(
                                #[trigger] self.ranges@[m],
                                strategy,
                                at,
                                k,
                                p,
                            );
                        if m < j - 1 {
                            assert(pre.model().contains(p));
                            assert(new_set.model().contains(p));
                        } else {
                            assert(insert_piece(r, strategy, at, k, p));
                            assert(new_set.model().contains(p));
                        }
                    }
                }
            }
        }
        proof {
            assert forall|p: (usize, usize)| #[trigger]
                new_set.model().contains(p) == (exists|r: (usize, usize)|
                #[trigger] old(self).model().contains(r) && insert_piece(
                    r,
                    strategy,
                    at,
                    k,
                    p,
                )) by {
                if new_set.model().contains(p) {
                    let m = choose|m: int|
                        0 <= m < self.ranges@.len() && insert_piece(
                            self.ranges@[m],
                            strategy,
                            at,
                            k,
                            p,
                        );
                    assert(self.ranges@.contains(self.ranges@[m]));
                    assert(old(self).model().contains(self.ranges@[m]));
                }
                if exists|r: (usize, usize)|
                    #[trigger] old(self).model().contains(r) && insert_piece(r, strategy, at, k, p) {
                    let r = choose|r: (usize, usize)|
                        #[trigger] old(self).model().contains(r) && insert_piece(
                            r,
                            strategy,
                            at,
                            k,
                            p,
                        );
                    let m = choose|m: int| 0 <= m < self.ranges@.len() && self.ranges@[m] == r;
                    assert(insert_piece(self.ranges@[m], strategy, at, k, p));
                }
            }
        }
        self.ranges = new_set.ranges;
    }

    fn remove_elements(&mut self, index: usize, num_elements_removed: usize) {
        let ghost at = index as int;
        let ghost k = num_elements_removed as int;
        let mut new_set = RangeHashSet { ranges: Vec::new() };
        let mut j: usize = 0;
        while j < self.ranges.len()
            invariant
                j <= self.ranges@.len(),
                self == old(self),
                old(self).inv(),
                at == index as int,
                k == num_elements_removed as int,
                new_set.inv(),
                forall|p: (usize, usize)| #[trigger]
                    new_set.model().contains(p) <==> exists|m: int|
                        0 <= m < j && remove_piece(#[trigger] self.ranges@[m], at, k, p),
            decreases self.ranges@.len() - j,
        {
            let r = self.ranges[j];
            let ghost pre = new_set;
            proof {
                assert(self.ranges@.contains(r));
            }
            let new_low = if r.0 <= index {
                r.0
            } else if r.0 - index < num_elements_removed {
                index
            } else {
                r.0 - num_elements_removed
            };
            let new_high = if index >= r.1 {
                r.1
            } else if r.1 - index < num_elements_removed {
                index
            } else {
                r.1 - num_elements_removed
            };
            if new_low < new_high {
                new_set.push_unique((new_low, new_high));
            }
            j = j + 1;
            proof {
                assert forall|p: (usize, usize)|
                    #[trigger] new_set.model().contains(p) == (exists|m: int|
                    0 <= m < j && remove_piece(#[trigger] self.ranges@[m], at, k, p)) by {
                    if new_set.model().contains(p) {
                        if pre.model().contains(p) {
                            let m = choose|m: int|
                                0 <= m < j - 1 && remove_piece(#[trigger] self.ranges@[m], at, k, p);
                            assert(remove_piece(self.ranges@[m], at, k, p));
                        } else {
                            assert(p == (new_low, new_high));
                            assert(remove_piece(self.ranges@[j - 1], at, k, p));
                        }
                    }
                    if exists|m: int|
                        0 <= m < j && remove_piece(#[trigger] self.ranges@[m], at, k, p) {
                        let m = choose|m: int|
                            0 <= m < j && remove_piece(#[trigger] self.ranges@[m], at, k, p);
                        if m < j - 1 {
                            assert(pre.model().contains(p));
                            assert(new_set.model().contains(p));
                        } else {
                            assert(remove_piece(r, at, k, p));
                            assert(p.0 == new_low && p.1 == new_high);
                            assert(new_set.model().contains(p));
                        }
                    }
                }
            }
        }
        proof {
            assert forall|p: (usize, usize)| #[trigger]
                new_set.model().contains(p) == (exists|r: (usize, usize)|
                #[trigger] old(self).model().contains(r) && remove_piece(r, at, k, p)) by {
                if new_set.model().contains(p) {
                    let m = choose|m: int|
                        0 <= m < self.ranges@.len() && remove_piece(self.ranges@[m], at, k, p);
                    assert(self.ranges@.contains(self.ranges@[m]));
                    assert(old(self).model().contains(self.ranges@[m]));
                }
                if exists|r: (usize, usize)|
                    #[trigger] old(self).model().contains(r) && remove_piece(r, at, k, p) {
                    let r = choose|r: (usize, usize)|
                        #[trigger] old(self).model().contains(r) && remove_piece(r, at, k, p);
                    let m = choose|m: int| 0 <= m < self.ranges@.len() && self.ranges@[m] == r;
                    assert(remove_piece(self.ranges@[m], at, k, p));
                }
            }
        }
        self.ranges = new_set.ranges;
    }

    fn covered(&self, range: (usize, usize)) -> (res: bool) {
        let mut i: usize = range.0;
        while i < range.1
            invariant
                range.0 <= i,
                i <= range.1 || i == range.0,
                forall|m: int| range.0 <= m < i ==> index_in_ranges(self.model(), m),
            decreases range.1 - i,
        {
            let mut j: usize = 0;
            let mut found = false;
            while j < self.ranges.len()
                invariant
                    j <= self.ranges@.len(),
                    found == exists|m: int|
                        0 <= m < j && (#[trigger] self.ranges@[m]).0 <= i < self.ranges@[m].1,
                decreases self.ranges@.len() - j,
            {
                if self.ranges[j].0 <= i && i < self.ranges[j].1 {
                    found = true;
                }
                j = j + 1;
            }
            if !found {
                proof {
                    if index_in_ranges(self.model(), i as int) {
                        let r = choose|r: (usize, usize)|
                            #[trigger] self.model().contains(r) && r.0 <= i < r.1;
                        let m = choose|m: int|
                            0 <= m < self.ranges@.len() && self.ranges@[m] == r;
                        assert(self.ranges@[m].0 <= i < self.ranges@[m].1);
                    }
                }
                return false;
            }
            proof {
                let m = choose|m: int|
                    0 <= m < self.ranges@.len() && (#[trigger] self.ranges@[m]).0 <= i
                        < self.ranges@[m].1;
                assert(self.ranges@.contains(self.ranges@[m]));
                assert(self.model().contains(self.ranges@[m]));
                assert(index_in_ranges(self.model(), i as int));
            }
            i = i + 1;
        }
        true
    }

    fn add_range(&mut self, range: (usize, usize)) {
        self.push_unique(range);
    }
}

} // verus!
