//! Sets of `u64` values stored as sorted runs.
use vstd::prelude::*;

verus! {

/// The values `a <= v < b`
pub open spec fn spec_interval(a: u64, b: u64) -> Set<u64> {
    Set::new(|v: u64| a <= v && v < b)
}

/// Whether `v` lies in one of the ranges of `s`
pub open spec fn spec_in_ranges(s: Seq<(u64, u64)>, v: u64) -> bool {
    exists|i: int| 0 <= i < s.len() && #[trigger] s[i].0 <= v && v < s[i].1
}

/// The values covered by the ranges of `s`
pub open spec fn spec_covered(s: Seq<(u64, u64)>) -> Set<u64> {
    Set::new(|v: u64| spec_in_ranges(s, v))
}

/// Ranges that are non-empty, sorted, and separated by gaps (no two overlap or touch)
pub open spec fn spec_ranges_wf(s: Seq<(u64, u64)>) -> bool {
    &&& forall|i: int| 0 <= i < s.len() ==> #[trigger] s[i].0 < s[i].1
    &&& forall|i: int, j: int| 0 <= i < j < s.len() ==> #[trigger] s[i].1 < #[trigger] s[j].0
}

/// Removing the `i`th range leaves the values of the others
pub proof fn lemma_covered_remove(s: Seq<(u64, u64)>, i: int)
    requires
        0 <= i < s.len(),
    ensures
        spec_covered(s) == spec_covered(s.remove(i)).union(spec_interval(s[i].0, s[i].1)),
{
    let r = s.remove(i);
    assert forall|v: u64| spec_covered(s).contains(v) implies spec_covered(r).union(
        spec_interval(s[i].0, s[i].1),
    ).contains(v) by {
        let k = choose|k: int| 0 <= k < s.len() && #[trigger] s[k].0 <= v && v < s[k].1;
        if k < i {
            assert(r[k] == s[k]);
        } else if k > i {
            assert(r[k - 1] == s[k]);
        }
    }
    assert forall|v: u64| spec_covered(r).union(spec_interval(s[i].0, s[i].1)).contains(
        v,
    ) implies spec_covered(s).contains(v) by {
        if spec_covered(r).contains(v) {
            let k = choose|k: int| 0 <= k < r.len() && #[trigger] r[k].0 <= v && v < r[k].1;
            if k < i {
                assert(s[k] == r[k]);
            } else {
                assert(s[k + 1] == r[k]);
            }
        } else {
            assert(s[i].0 <= v && v < s[i].1);
        }
    }
    assert(spec_covered(s) =~= spec_covered(r).union(spec_interval(s[i].0, s[i].1)));
}

/// Inserting a range at `i` adds its values
pub proof fn lemma_covered_insert(s: Seq<(u64, u64)>, i: int, e: (u64, u64))
    requires
        0 <= i <= s.len(),
    ensures
        spec_covered(s.insert(i, e)) == spec_covered(s).union(spec_interval(e.0, e.1)),
{
    let t = s.insert(i, e);
    assert(t.remove(i) =~= s);
    lemma_covered_remove(t, i);
}

/// In well-formed ranges, the `i`th range holds no value below its start that a later range
/// holds, and values between the end of one range and the start of the next are not covered
pub proof fn lemma_wf_not_covered(s: Seq<(u64, u64)>, v: u64, k: int)
    requires
        spec_ranges_wf(s),
        -1 <= k < s.len(),
        k >= 0 ==> s[k].1 <= v,
        k + 1 < s.len() ==> v < s[k + 1].0,
    ensures
        !spec_in_ranges(s, v),
{
    if spec_in_ranges(s, v) {
        let j = choose|j: int| 0 <= j < s.len() && #[trigger] s[j].0 <= v && v < s[j].1;
        if j <= k {
            if j < k {
                assert(s[j].1 < s[k].0);
            }
        } else if j > k + 1 {
            assert(s[k + 1].1 < s[j].0);
        }
    }
}

/// The first run of a set: `a..b` lies in `set`, nothing below `a` does, and `b` does not
pub open spec fn spec_is_first_run(set: Set<u64>, a: u64, b: u64) -> bool {
    &&& a < b
    &&& forall|v: u64| a <= v < b ==> set.contains(v)
    &&& forall|v: u64| v < a ==> !set.contains(v)
    &&& !set.contains(b)
}

/// The first of well-formed ranges is the first run of the values they cover
pub proof fn lemma_first_run(s: Seq<(u64, u64)>)
    requires
        spec_ranges_wf(s),
        s.len() > 0,
    ensures
        spec_is_first_run(spec_covered(s), s[0].0, s[0].1),
{
    assert forall|v: u64| s[0].0 <= v < s[0].1 implies spec_covered(s).contains(v) by {
        assert(spec_in_ranges(s, v));
    }
    assert forall|v: u64| v < s[0].0 implies !spec_covered(s).contains(v) by {
        lemma_wf_not_covered(s, v, -1);
    }
    lemma_wf_not_covered(s, s[0].1, 0);
}

/// A set of u64 values optimized for long runs and random insert/delete/contains
#[derive(Debug)]
pub struct RangeSet {
    ranges: Vec<(u64, u64)>,
}

/// A half-open range of `u64` values, as returned by [`RangeSet`]
pub type U64Range = std::ops::Range<u64>;

impl View for RangeSet {
    type V = Set<u64>;

    open spec fn view(&self) -> Set<u64> {
        spec_covered(self.spec_ranges())
    }
}

impl RangeSet {
    /// The runs of the set, in increasing order
    pub closed spec fn spec_ranges(&self) -> Seq<(u64, u64)> {
        self.ranges@
    }

    #[verifier::type_invariant]
    closed spec fn inv(self) -> bool {
        spec_ranges_wf(self.ranges@)
    }

    /// The runs of the set are non-empty, sorted and separated by gaps
    pub fn runs_wf(&self)
        ensures
            spec_ranges_wf(self.spec_ranges()),
    {
        proof {
            use_type_invariant(self);
        }
    }

    /// An empty set
    pub fn new() -> (r: RangeSet)
        ensures
            r@ == Set::<u64>::empty(),
            r.spec_ranges().len() == 0,
    {
        let r = RangeSet { ranges: Vec::new() };
        assert(r@ =~= Set::<u64>::empty());
        r
    }

    /// Whether the set holds no value
    pub fn is_empty(&self) -> (r: bool)
        ensures
            r == (self@ == Set::<u64>::empty()),
            r == (self.spec_ranges().len() == 0),
    {
        proof {
            use_type_invariant(self);
            if self.ranges@.len() > 0 {
                let v = self.ranges@[0].0;
                assert(spec_in_ranges(self.ranges@, v));
                assert(self@.contains(v));
            } else {
                assert(self@ =~= Set::<u64>::empty());
            }
        }
        self.ranges.len() == 0
    }
}


impl RangeSet {
    /// The first run of the set, if any
    pub fn peek_min(&self) -> (r: Option<U64Range>)
        ensures
            r is None <==> self@ == Set::<u64>::empty(),
            r is None <==> self.spec_ranges().len() == 0,
            r matches Some(x) ==> spec_is_first_run(self@, x.start, x.end),
            r matches Some(x) ==> x.start == self.spec_ranges()[0].0 && x.end
                == self.spec_ranges()[0].1,
    {
        proof {
            use_type_invariant(self);
        }
        if self.is_empty() {
            return None;
        }
        let (start, end) = self.ranges[0];
        proof {
            lemma_first_run(self.ranges@);
        }
        Some(start..end)
    }

    /// The smallest value of the set, if any
    pub fn min(&self) -> (r: Option<u64>)
        ensures
            r is None <==> self@ == Set::<u64>::empty(),
            r matches Some(m) ==> self@.contains(m) && forall|v: u64| v < m ==> !self@.contains(v),
    {
        match self.peek_min() {
            Some(x) => Some(x.start),
            None => None,
        }
    }

    /// Remove and return the first run of the set, if any
    pub fn pop_min(&mut self) -> (r: Option<U64Range>)
        ensures
            r is None <==> old(self)@ == Set::<u64>::empty(),
            r is None ==> final(self)@ == old(self)@,
            r matches Some(x) ==> spec_is_first_run(old(self)@, x.start, x.end) && final(self)@
                == old(self)@.difference(spec_interval(x.start, x.end)),
    {
        let result = match self.peek_min() {
            Some(x) => x,
            None => return None,
        };
        proof {
            use_type_invariant(&*self);
        }
        let mut r: Vec<(u64, u64)> = Vec::new();
        std::mem::swap(&mut r, &mut self.ranges);
        let ghost old_r = r@;
        r.remove(0);
        proof {
            lemma_covered_remove(old_r, 0);
            assert(r@ == old_r.remove(0));
            assert forall|i: int, j: int| 0 <= i < j < r@.len() implies #[trigger] r@[i].1
                < #[trigger] r@[j].0 by {
                assert(old_r[i + 1].1 < old_r[j + 1].0);
            }
            assert forall|v: u64| spec_covered(r@).contains(v) implies !spec_interval(
                result.start,
                result.end,
            ).contains(v) by {
                let k = choose|k: int| 0 <= k < r@.len() && #[trigger] r@[k].0 <= v && v < r@[k].1;
                assert(old_r[0].1 < old_r[k + 1].0);
            }
            assert(spec_covered(r@) =~= spec_covered(old_r).difference(
                spec_interval(result.start, result.end),
            ));
        }
        self.ranges = r;
        Some(result)
    }

    /// The runs of the set, in increasing order
    pub fn iter(&self) -> (r: Vec<U64Range>)
        ensures
            r@.len() == self.spec_ranges().len(),
            forall|i: int|
                0 <= i < r@.len() ==> #[trigger] r@[i].start == self.spec_ranges()[i].0 && r@[i].end
                    == self.spec_ranges()[i].1,
    {
        let mut out: Vec<U64Range> = Vec::new();
        let mut i: usize = 0;
        while i < self.ranges.len()
            invariant
                i <= self.ranges@.len(),
                out@.len() == i,
                forall|k: int|
                    0 <= k < i ==> #[trigger] out@[k].start == self.ranges@[k].0 && out@[k].end
                        == self.ranges@[k].1,
            decreases self.ranges@.len() - i,
        {
            let (a, b) = self.ranges[i];
            out.push(a..b);
            i = i + 1;
        }
        out
    }

    /// Index of the first run that begins after `x`; all runs before it begin at or before `x`
    fn succ_index(&self, x: u64) -> (r: usize)
        ensures
            r <= self.spec_ranges().len(),
            forall|k: int| 0 <= k < r ==> #[trigger] self.spec_ranges()[k].0 <= x,
            forall|k: int| r <= k < self.spec_ranges().len() ==> #[trigger] self.spec_ranges()[k].0
                > x,
    {
        proof {
            use_type_invariant(self);
        }
        let mut i: usize = 0;
        while i < self.ranges.len()
            invariant
                spec_ranges_wf(self.ranges@),
                i <= self.ranges@.len(),
                forall|k: int| 0 <= k < i ==> #[trigger] self.ranges@[k].0 <= x,
            decreases self.ranges@.len() - i,
        {
            if self.ranges[i].0 > x {
                assert forall|k: int| i <= k < self.ranges@.len() implies #[trigger] self.ranges@[k].0
                    > x by {
                    if k > i {
                        assert(self.ranges@[i as int].1 < self.ranges@[k].0);
                    }
                }
                return i;
            }
            i = i + 1;
        }
        i
    }

    /// Find the closest run to `x` that begins at or before it
    pub fn pred(&self, x: u64) -> (r: Option<(u64, u64)>)
        ensures
            r is None ==> forall|k: int|
                0 <= k < self.spec_ranges().len() ==> #[trigger] self.spec_ranges()[k].0 > x,
            r matches Some(p) ==> exists|k: int|
                0 <= k < self.spec_ranges().len() && #[trigger] self.spec_ranges()[k] == p && p.0 <= x && (k + 1
                    == self.spec_ranges().len() || self.spec_ranges()[k + 1].0 > x),
    {
        let i = self.succ_index(x);
        if i == 0 {
            None
        } else {
            let p = self.ranges[i - 1];
            assert(self.spec_ranges()[i - 1] == p);
            Some(p)
        }
    }

    /// Find the closest run to `x` that begins after it
    pub fn succ(&self, x: u64) -> (r: Option<(u64, u64)>)
        ensures
            r is None ==> forall|k: int|
                0 <= k < self.spec_ranges().len() ==> #[trigger] self.spec_ranges()[k].0 <= x,
            r matches Some(p) ==> exists|k: int|
                0 <= k < self.spec_ranges().len() && #[trigger] self.spec_ranges()[k] == p && p.0 > x && (k == 0
                    || self.spec_ranges()[k - 1].0 <= x),
    {
        let i = self.succ_index(x);
        if i == self.ranges.len() {
            None
        } else {
            let p = self.ranges[i];
            assert(self.spec_ranges()[i as int] == p);
            Some(p)
        }
    }
}


/// Two adjoining or overlapping intervals cover the interval that spans both
pub proof fn lemma_interval_join(a: u64, b: u64, c: u64, d: u64)
    requires
        a <= c <= b,
    ensures
        spec_interval(a, b).union(spec_interval(c, d)) == spec_interval(
            a,
            if b >= d {
                b
            } else {
                d
            },
        ),
{
    assert(spec_interval(a, b).union(spec_interval(c, d)) =~= spec_interval(
        a,
        if b >= d {
            b
        } else {
            d
        },
    ));
}

impl RangeSet {
    /// Add the values `x.start..x.end` to the set
    ///
    /// Returns whether any of them was not in the set already.
    pub fn insert(&mut self, x: U64Range) -> (r: bool)
        ensures
            final(self)@ == old(self)@.union(spec_interval(x.start, x.end)),
            r == (x.start < x.end && !spec_interval(x.start, x.end).subset_of(old(self)@)),
    {
        if x.start >= x.end {
            assert(old(self)@.union(spec_interval(x.start, x.end)) =~= old(self)@);
            return false;
        }
        proof {
            use_type_invariant(&*self);
        }
        let ghost s = self.ranges@;
        let mut i = self.succ_index(x.start);
        let mut start = x.start;
        let mut end = x.end;
        let mut r: Vec<(u64, u64)> = Vec::new();
        std::mem::swap(&mut r, &mut self.ranges);
        assert(r@ == s);
        if i > 0 {
            let (ps, pe) = r[i - 1];
            if pe >= x.end {
                proof {
                    assert forall|v: u64| spec_interval(x.start, x.end).contains(v) implies spec_covered(
                        s,
                    ).contains(v) by {
                        assert(s[i - 1].0 <= v && v < s[i - 1].1);
                    }
                    assert(spec_covered(s).union(spec_interval(x.start, x.end)) =~= spec_covered(s));
                }
                self.ranges = r;
                return false;
            } else if pe >= x.start {
                proof {
                    lemma_wf_not_covered(s, pe, i - 1);
                    assert(spec_interval(x.start, x.end).contains(pe));
                    lemma_covered_remove(s, i - 1);
                    lemma_interval_join(ps, pe, x.start, x.end);
                    assert(spec_interval(ps, pe).union(spec_interval(x.start, x.end)) =~= spec_interval(
                        ps,
                        x.end,
                    ));
                }
                r.remove(i - 1);
                start = ps;
                i = i - 1;
                proof {
                    assert forall|a: int, b: int| 0 <= a < b < r@.len() implies #[trigger] r@[a].1
                        < #[trigger] r@[b].0 by {
                        if a >= i {
                            assert(s[a + 1].1 < s[b + 1].0);
                        } else if b >= i {
                            assert(s[a].1 < s[b + 1].0);
                        } else {
                            assert(s[a].1 < s[b].0);
                        }
                    }
                    assert forall|k: int| 0 <= k < i implies #[trigger] r@[k].1 < start by {
                        assert(s[k].1 < s[i as int].0);
                    }
                    assert(spec_covered(r@).union(spec_interval(start, end)) =~= spec_covered(
                        s,
                    ).union(spec_interval(x.start, x.end)));
                }
            } else {
                proof {
                    lemma_wf_not_covered(s, x.start, i - 1);
                    assert(spec_interval(x.start, x.end).contains(x.start));
                    assert forall|k: int| 0 <= k < i implies #[trigger] r@[k].1 < start by {
                        if k < i - 1 {
                            assert(s[k].1 < s[i - 1].0);
                        }
                    }
                }
            }
        } else {
            proof {
                lemma_wf_not_covered(s, x.start, -1);
                assert(spec_interval(x.start, x.end).contains(x.start));
            }
        }
        while i < r.len() && r[i].0 <= end
            invariant
                spec_ranges_wf(r@),
                i <= r@.len(),
                start < end,
                forall|k: int| 0 <= k < i ==> #[trigger] r@[k].1 < start,
                forall|k: int| i <= k < r@.len() ==> #[trigger] r@[k].0 > start,
                spec_covered(r@).union(spec_interval(start, end)) == spec_covered(s).union(
                    spec_interval(x.start, x.end),
                ),
            decreases r@.len() - i,
        {
            let (ns, ne) = r[i];
            let ghost before = r@;
            proof {
                lemma_covered_remove(before, i as int);
                lemma_interval_join(start, end, ns, ne);
            }
            r.remove(i);
            if ne > end {
                end = ne;
            }
            proof {
                assert forall|a: int, b: int| 0 <= a < b < r@.len() implies #[trigger] r@[a].1
                    < #[trigger] r@[b].0 by {
                    if a >= i {
                        assert(before[a + 1].1 < before[b + 1].0);
                    } else if b >= i {
                        assert(before[a].1 < before[b + 1].0);
                    } else {
                        assert(before[a].1 < before[b].0);
                    }
                }
                assert forall|k: int| i <= k < r@.len() implies #[trigger] r@[k].0 > start by {
                    assert(before[k + 1].0 > start);
                }
                assert(spec_covered(r@).union(spec_interval(start, end)) =~= spec_covered(
                    before,
                ).union(spec_interval(start, end)));
            }
        }
        let ghost before = r@;
        r.insert(i, (start, end));
        proof {
            lemma_covered_insert(before, i as int, (start, end));
            assert forall|a: int, b: int| 0 <= a < b < r@.len() implies #[trigger] r@[a].1
                < #[trigger] r@[b].0 by {
                if a > i {
                    assert(before[a - 1].1 < before[b - 1].0);
                } else if a == i {
                    if b - 1 > i {
                        assert(before[i as int].1 < before[b - 1].0);
                    }
                } else if b == i {
                } else if b > i {
                    assert(before[a].1 < start);
                } else {
                    assert(before[a].1 < before[b].0);
                }
            }
        }
        self.ranges = r;
        true
    }
}


/// The bounds of each range of `v`
pub open spec fn spec_range_pairs(v: Seq<U64Range>) -> Seq<(u64, u64)> {
    v.map_values(|r: U64Range| (r.start, r.end))
}

/// The values covered by the first `i + 1` ranges are those of the first `i` and of the `i`th
pub proof fn lemma_covered_take(s: Seq<(u64, u64)>, i: int)
    requires
        0 <= i < s.len(),
    ensures
        spec_covered(s.take(i + 1)) == spec_covered(s.take(i)).union(spec_interval(s[i].0, s[i].1)),
{
    assert(s.take(i + 1).remove(i) =~= s.take(i));
    lemma_covered_remove(s.take(i + 1), i);
}

impl RangeSet {
    /// Add a range to the set, returning the intersection of current ranges with the new one
    ///
    /// The intersection is returned as runs in increasing order.
    pub fn replace(&mut self, range: U64Range) -> (r: Replace)
        ensures
            final(self)@ == old(self)@.union(spec_interval(range.start, range.end)),
            spec_ranges_wf(spec_range_pairs(r.rest())),
            spec_covered(spec_range_pairs(r.rest())) == old(self)@.intersect(
                spec_interval(range.start, range.end),
            ),
    {
        let pieces = self.replace_pieces(range);
        let r = Replace { pieces, pos: 0 };
        assert(r.rest() =~= pieces@);
        r
    }

    /// The pieces of `replace`, as a vector
    fn replace_pieces(&mut self, range: U64Range) -> (r: Vec<U64Range>)
        ensures
            final(self)@ == old(self)@.union(spec_interval(range.start, range.end)),
            spec_ranges_wf(spec_range_pairs(r@)),
            spec_covered(spec_range_pairs(r@)) == old(self)@.intersect(
                spec_interval(range.start, range.end),
            ),
    {
        proof {
            use_type_invariant(&*self);
        }
        let ghost s = self.ranges@;
        let mut pieces: Vec<U64Range> = Vec::new();
        let mut i: usize = 0;
        let n = self.ranges.len();
        proof {
            assert(s.take(0) =~= Seq::<(u64, u64)>::empty());
            assert(spec_covered(Seq::<(u64, u64)>::empty()) =~= Set::<u64>::empty());
            assert(spec_range_pairs(pieces@) =~= Seq::<(u64, u64)>::empty());
        }
        while i < n
            invariant
                n == s.len(),
                s == self.ranges@,
                spec_ranges_wf(s),
                i <= n,
                spec_ranges_wf(spec_range_pairs(pieces@)),
                forall|k: int|
                    0 <= k < pieces@.len() ==> i > 0 && #[trigger] pieces@[k].end <= s[i - 1].1,
                spec_covered(spec_range_pairs(pieces@)) == spec_covered(s.take(i as int)).intersect(
                    spec_interval(range.start, range.end),
                ),
            decreases n - i,
        {
            let (a, b) = self.ranges[i];
            let lo = if a > range.start {
                a
            } else {
                range.start
            };
            let hi = if b < range.end {
                b
            } else {
                range.end
            };
            let ghost before = pieces@;
            proof {
                lemma_covered_take(s, i as int);
            }
            if lo < hi {
                pieces.push(lo..hi);
                proof {
                    let pb = spec_range_pairs(before);
                    let pa = spec_range_pairs(pieces@);
                    assert(pa =~= pb.push((lo, hi)));
                    assert forall|x: int, y: int| 0 <= x < y < pa.len() implies #[trigger] pa[x].1
                        < #[trigger] pa[y].0 by {
                        if y < pb.len() {
                            assert(pb[x].1 < pb[y].0);
                        } else {
                            assert(before[x].end <= s[i - 1].1);
                            assert(s[i - 1].1 < s[i as int].0);
                        }
                    }
                    assert(pa.len() == pb.len() + 1);
                    assert(spec_covered(pa) =~= spec_covered(pb).union(spec_interval(lo, hi))) by {
                        assert(pa.remove(pb.len() as int) =~= pb);
                        lemma_covered_remove(pa, pb.len() as int);
                    }
                    assert(spec_covered(pa) =~= spec_covered(s.take(i + 1)).intersect(
                        spec_interval(range.start, range.end),
                    ));
                }
            } else {
                proof {
                    assert(spec_covered(s.take(i + 1)).intersect(
                        spec_interval(range.start, range.end),
                    ) =~= spec_covered(s.take(i as int)).intersect(
                        spec_interval(range.start, range.end),
                    ));
                }
            }
            i = i + 1;
            proof {
                assert forall|k: int| 0 <= k < pieces@.len() implies #[trigger] pieces@[k].end
                    <= s[i - 1].1 by {
                    if k < before.len() {
                        assert(before[k].end <= s[i - 2].1);
                        assert(s[i - 2].1 < s[i - 1].0);
                    }
                }
            }
        }
        proof {
            assert(s.take(n as int) =~= s);
        }
        self.insert(range);
        pieces
    }
}

/// The runs of the intersection found by `RangeSet::replace`, in increasing order
pub struct Replace {
    pieces: Vec<U64Range>,
    pos: usize,
}

impl Replace {
    #[verifier::type_invariant]
    closed spec fn inv(self) -> bool {
        self.pos <= self.pieces@.len()
    }

    /// The runs not yet returned
    pub closed spec fn rest(self) -> Seq<U64Range> {
        self.pieces@.subrange(self.pos as int, self.pieces@.len() as int)
    }

    /// The next run, if any
    pub fn next(&mut self) -> (r: Option<U64Range>)
        ensures
            old(self).rest().len() == 0 ==> r is None && final(self).rest() == old(self).rest(),
            old(self).rest().len() > 0 ==> r == Some(old(self).rest()[0]) && final(self).rest()
                == old(self).rest().drop_first(),
    {
        proof {
            use_type_invariant(&*self);
        }
        if self.pos >= self.pieces.len() {
            return None;
        }
        let x = U64Range { start: self.pieces[self.pos].start, end: self.pieces[self.pos].end };
        self.pos = self.pos + 1;
        assert(self.rest() =~= old(self).rest().drop_first());
        Some(x)
    }
}

} // verus!
