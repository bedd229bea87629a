//! Which render thread a render state belongs to, and its share of a
//! block.

use vstd::prelude::*;
use vstd::arithmetic::div_mod::lemma_fundamental_div_mod;

verus! {

/// A count of render threads as libbela spells it: zero is another way
/// of saying one.
pub open spec fn spec_effective_count(count: nat) -> nat {
    if count == 0 { 1 } else { count }
}

/// The first frame of the `thread`th of `count` contiguous parts of
/// `len` frames, with a count of zero read as one. A thread outside the
/// count starts (and ends) at `len`.
pub open spec fn spec_part_start(len: nat, thread: nat, count: nat) -> nat {
    let count = spec_effective_count(count);
    if thread >= count { len } else { (len * thread / count) as nat }
}

/// One past the last frame of that part.
pub open spec fn spec_part_end(len: nat, thread: nat, count: nat) -> nat {
    let count = spec_effective_count(count);
    if thread >= count { len } else { (len * (thread + 1) / count) as nat }
}

/// Bounds of `a / c` for a positive divisor, as a product.
proof fn lemma_div_bounds(a: int, c: int)
    requires
        0 <= a,
        0 < c,
    ensures
        c * (a / c) <= a < c * (a / c) + c,
        0 <= a / c,
{
    lemma_fundamental_div_mod(a, c);
    assert(0 <= a % c < c);
    assert(0 <= a / c) by (nonlinear_arith)
        requires 0 <= a, 0 < c, a == c * (a / c) + a % c, 0 <= a % c < c;
}

/// `(a + len) / c - a / c` is `len / c` or one more.
proof fn lemma_div_step(a: int, len: int, c: int)
    requires
        0 <= a,
        0 <= len,
        0 < c,
    ensures
        len / c <= (a + len) / c - a / c <= len / c + 1,
{
    lemma_div_bounds(a, c);
    lemma_div_bounds(a + len, c);
    lemma_div_bounds(len, c);
    let fa = a / c;
    let fb = (a + len) / c;
    let q = len / c;
    assert(c * (fb - fa) > c * (q - 1)) by (nonlinear_arith)
        requires
            c * fb <= a + len, a + len < c * fb + c,
            c * fa <= a, a < c * fa + c,
            c * q <= len, len < c * q + c;
    assert(c * (fb - fa) < c * (q + 2)) by (nonlinear_arith)
        requires
            c * fb <= a + len, a + len < c * fb + c,
            c * fa <= a, a < c * fa + c,
            c * q <= len, len < c * q + c;
    assert(fb - fa > q - 1) by (nonlinear_arith)
        requires c * (fb - fa) > c * (q - 1), 0 < c;
    assert(fb - fa < q + 2) by (nonlinear_arith)
        requires c * (fb - fa) < c * (q + 2), 0 < c;
}

/// The size of one thread's part of the block.
pub open spec fn spec_part_len(len: nat, thread: nat, count: nat) -> int {
    spec_part_end(len, thread, count) - spec_part_start(len, thread, count)
}

/// The parts tile the block: the first starts at frame 0, each one
/// starts where the one before it ended, the last ends at `len`, none
/// runs backwards, and a thread outside the count gets an empty part at
/// the end of the block.
pub proof fn lemma_parts_tile_the_block(len: nat, count: nat)
    ensures
        spec_part_start(len, 0, count) == 0,
        spec_part_end(len, (spec_effective_count(count) - 1) as nat, count) == len,
        forall|t: nat| #![trigger spec_part_end(len, t, count)]
            t + 1 < spec_effective_count(count)
                ==> spec_part_end(len, t, count) == spec_part_start(len, t + 1, count),
        forall|t: nat| #![trigger spec_part_start(len, t, count)]
            spec_part_start(len, t, count) <= spec_part_end(len, t, count) <= len,
        forall|t: nat| #![trigger spec_part_start(len, t, count)]
            t >= spec_effective_count(count)
                ==> spec_part_start(len, t, count) == len && spec_part_end(len, t, count) == len,
{
    let c: int = spec_effective_count(count) as int;
    let l: int = len as int;
    assert(l * 0 == 0);
    assert((l * c) / c == l) by {
        assert(0 <= l * c) by (nonlinear_arith) requires 0 <= l, 0 < c;
        lemma_div_bounds(l * c, c);
        let f = (l * c) / c;
        assert(f == l) by (nonlinear_arith)
            requires c * f <= l * c, l * c < c * f + c, 0 < c;
    }
    assert(l * ((c - 1) + 1) == l * c);
    assert forall|t: nat| #![trigger spec_part_start(len, t, count)]
        spec_part_start(len, t, count) <= spec_part_end(len, t, count) <= len by {
        if t < c {
            let ti: int = t as int;
            assert(l * (ti + 1) == l * ti + l) by (nonlinear_arith);
            assert(0 <= l * ti) by (nonlinear_arith) requires 0 <= l, 0 <= ti;
            lemma_div_step(l * ti, l, c);
            assert(l * (ti + 1) <= l * c) by (nonlinear_arith)
                requires ti < c, 0 <= l;
            assert(0 <= l * (ti + 1)) by (nonlinear_arith) requires 0 <= l, 0 <= ti;
            lemma_div_bounds(l * (ti + 1), c);
            let e = l * (ti + 1) / c;
            assert(e <= l) by (nonlinear_arith)
                requires c * e <= l * (ti + 1), l * (ti + 1) <= l * c, 0 < c;
        }
    }
}

/// Two threads' parts differ in size by at most one frame: each is the
/// block divided by the count, rounded down or up.
pub proof fn lemma_parts_differ_by_at_most_one(len: nat, count: nat, i: nat, j: nat)
    requires
        i < spec_effective_count(count),
        j < spec_effective_count(count),
    ensures
        spec_part_len(len, i, count) - spec_part_len(len, j, count) <= 1,
        len / spec_effective_count(count) <= spec_part_len(len, i, count)
            <= len / spec_effective_count(count) + 1,
{
    let c: int = spec_effective_count(count) as int;
    let l: int = len as int;
    let ii: int = i as int;
    let jj: int = j as int;
    assert(l * (ii + 1) == l * ii + l) by (nonlinear_arith);
    assert(l * (jj + 1) == l * jj + l) by (nonlinear_arith);
    assert(0 <= l * ii) by (nonlinear_arith) requires 0 <= l, 0 <= ii;
    assert(0 <= l * jj) by (nonlinear_arith) requires 0 <= l, 0 <= jj;
    lemma_div_step(l * ii, l, c);
    lemma_div_step(l * jj, l, c);
}

/// The `thread`th of `count` contiguous parts of `len` frames.
///
/// A count of zero is read as one, the way a `BelaContext` can spell
/// "one render thread", and a thread outside the count is given the
/// empty range at the end of the block.
pub fn partition(len: usize, thread: usize, count: usize) -> (range: core::ops::Range<usize>)
    requires
        thread < spec_effective_count(count as nat) ==> len * (thread + 1) <= usize::MAX,
    ensures
        range.start == spec_part_start(len as nat, thread as nat, count as nat),
        range.end == spec_part_end(len as nat, thread as nat, count as nat),
{
    let count = if count == 0 { 1 } else { count };
    if thread >= count {
        return len..len;
    }
    proof {
        assert(len * thread <= len * (thread + 1)) by (nonlinear_arith);
    }
    let start = len * thread / count;
    let end = len * (thread + 1) / count;
    start..end
}

/// Which render thread a render state is being made for.
#[derive(Debug, Clone, Copy, PartialEq, Eq, Hash)]
pub struct ThreadInfo {
    index: usize,
    count: usize,
}

impl ThreadInfo {
    /// Thread `index` of `count`.
    pub fn new(index: usize, count: usize) -> (info: Self)
        ensures
            info.spec_index() == index,
            info.spec_count() == count,
            info == Self::spec_new(index, count),
    {
        Self { index, count }
    }

    /// Thread `index` of `count`, as a specification writes it.
    pub closed spec fn spec_new(index: usize, count: usize) -> Self {
        Self { index, count }
    }

    /// Which thread this is.
    pub closed spec fn spec_index(self) -> usize {
        self.index
    }

    /// How many render threads there are.
    pub closed spec fn spec_count(self) -> usize {
        self.count
    }

    /// Which thread this is, in `0..count()`.
    pub fn index(&self) -> (index: usize)
        ensures
            index == self.spec_index(),
    {
        self.index
    }

    /// How many render threads there are in total.
    pub fn count(&self) -> (count: usize)
        ensures
            count == self.spec_count(),
    {
        self.count
    }

    /// Whether this is the only render thread.
    pub fn is_only(&self) -> (only: bool)
        ensures
            only == (self.spec_count() == 1),
    {
        self.count == 1
    }

    /// This thread's share of `frames`, split the way a render context
    /// splits a block: over the indices of one count, these shares tile
    /// the block ([`lemma_parts_tile_the_block`]).
    pub fn frame_range(&self, frames: usize) -> (range: core::ops::Range<usize>)
        requires
            self.spec_index() < spec_effective_count(self.spec_count() as nat) ==> frames * (
            self.spec_index() + 1) <= usize::MAX,
        ensures
            range.start == spec_part_start(frames as nat, self.spec_index() as nat, self.spec_count() as nat),
            range.end == spec_part_end(frames as nat, self.spec_index() as nat, self.spec_count() as nat),
    {
        partition(frames, self.index, self.count)
    }
}

} // verus!
