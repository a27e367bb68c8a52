//! Frame differencing: finding the changed runs between two equal-length
//! cell grids, and clustering equal-style runs next to each other so that a
//! style activation escape is shared by as many runs as possible.

use crate::color::Colorize;
use vstd::prelude::*;
use vstd::seq_lib::group_to_multiset_ensures;
use vstd::seq_lib::to_multiset_build;
use vstd::seq_lib::to_multiset_insert;

verus! {

/// One cell's worth of raw render state: an RGB triple plus one extra byte.
///
/// The extra byte `x` carries the glyph chosen for the cell (foreground
/// strategies) or whatever the frame source put there (background strategies,
/// which render every cell as a space). Equality is exact on all four bytes.
#[derive(Clone, Copy, PartialEq, Eq, Structural, Debug)]
pub struct Pixel {
    pub r: u8,
    pub g: u8,
    pub b: u8,
    pub x: u8,
}

/// Scans two equal-length grids and yields maximal runs of changed cells
/// that share one value in the current grid.
///
/// A run `[start, end)` satisfies: every covered cell differs from the same
/// cell of the previous grid, and every covered cell of the current grid
/// equals `current[start]`. The run is extended as long as the *current*
/// value stays constant, not merely as long as adjacent cells changed: long
/// single-style runs cost fewer escapes than exact change bounds.
pub struct BufferDiffIter<'a> {
    pub current: &'a [Pixel],
    pub prev: &'a [Pixel],
    pub idx: usize,
}

impl<'a> BufferDiffIter<'a> {
    pub open spec fn wf(&self) -> bool {
        &&& self.current@.len() == self.prev@.len()
        &&& self.idx <= self.current@.len()
    }

    pub fn new(current: &'a [Pixel], prev: &'a [Pixel]) -> (it: Self)
        requires
            current@.len() == prev@.len(),
        ensures
            it.wf(),
            it.current@ == current@,
            it.prev@ == prev@,
            it.idx == 0,
    {
        BufferDiffIter { current, prev, idx: 0 }
    }

    /// Yields the next changed run at or after `self.idx`, or `None` when
    /// every remaining cell is unchanged.
    pub fn next(&mut self) -> (r: Option<(usize, usize, Pixel)>)
        requires
            old(self).wf(),
        ensures
            final(self).wf(),
            final(self).current@ == old(self).current@,
            final(self).prev@ == old(self).prev@,
            old(self).idx <= final(self).idx,
            match r {
                None => {
                    &&& forall|k: int|
                        old(self).idx <= k < old(self).current@.len()
                            ==> old(self).current@[k] == old(self).prev@[k]
                },
                Some((start, end, item)) => {
                    &&& old(self).idx <= start < end <= old(self).current@.len()
                    &&& final(self).idx == end
                    &&& item == old(self).current@[start as int]
                    &&& forall|k: int|
                        old(self).idx <= k < start ==> old(self).current@[k] == old(self).prev@[k]
                    &&& forall|k: int|
                        start <= k < end
                            ==> old(self).current@[k] == item && old(self).current@[k]
                                != old(self).prev@[k]
                    &&& (end == old(self).current@.len() || old(self).current@[end as int] != item
                        || old(self).current@[end as int] == old(self).prev@[end as int])
                },
            },
    {
        let len = self.current.len();
        let ghost start_idx = self.idx as int;
        while self.idx < len && self.current[self.idx] == self.prev[self.idx]
            invariant
                self.wf(),
                self.current@ == old(self).current@,
                self.prev@ == old(self).prev@,
                len == self.current@.len(),
                start_idx <= self.idx,
                forall|k: int| start_idx <= k < self.idx ==> self.current@[k] == self.prev@[k],
            decreases len - self.idx,
        {
            self.idx = self.idx + 1;
        }
        if self.idx == len {
            return None;
        }
        let start = self.idx;
        let item = self.current[start];
        self.idx = self.idx + 1;
        while self.idx < len && self.current[self.idx] == item && self.current[self.idx]
            != self.prev[self.idx]
            invariant
                self.wf(),
                self.current@ == old(self).current@,
                self.prev@ == old(self).prev@,
                len == self.current@.len(),
                start < self.idx <= len,
                item == self.current@[start as int],
                forall|k: int|
                    start <= k < self.idx
                        ==> self.current@[k] == item && self.current@[k] != self.prev@[k],
            decreases len - self.idx,
        {
            self.idx = self.idx + 1;
        }
        Some((start, self.idx, item))
    }
}

/// One maximal changed span: the half-open cell interval `[start, end)`,
/// the colour token shared by every covered cell, and the glyph byte.
#[derive(Clone, Copy)]
pub struct Run<C: Colorize> {
    pub start: usize,
    pub end: usize,
    pub color: C,
    pub glyph: u8,
}

/// Two runs have one style exactly when colour token and glyph both match.
pub open spec fn same_style<C: Colorize>(a: Run<C>, b: Run<C>) -> bool {
    a.color == b.color && a.glyph == b.glyph
}

/// Equal-style runs stand next to each other: no third style interrupts them.
pub open spec fn grouped<C: Colorize>(s: Seq<Run<C>>) -> bool {
    forall|i: int, j: int, k: int|
        #![trigger s[i], s[j], s[k]]
        0 <= i < j < k < s.len() && same_style(s[i], s[k]) ==> same_style(s[i], s[j])
}

/// The cell intervals of `a` and `b` do not overlap.
pub open spec fn disjoint_pair<C: Colorize>(a: Run<C>, b: Run<C>) -> bool {
    a.end <= b.start || b.end <= a.start
}

/// All runs cover pairwise disjoint cell intervals.
pub open spec fn runs_disjoint<C: Colorize>(s: Seq<Run<C>>) -> bool {
    forall|i: int, j: int|
        #![trigger s[i], s[j]]
        0 <= i < s.len() && 0 <= j < s.len() && i != j ==> disjoint_pair(s[i], s[j])
}

/// Where the run after the last style-matching element of `out` belongs:
/// directly after that element, or at the end when no style matches.
fn find_insert_pos<C: Colorize>(out: &Vec<Run<C>>, r: &Run<C>) -> (pos: usize)
    ensures
        pos <= out@.len(),
        forall|m: int| pos <= m < out@.len() ==> !same_style(out@[m], *r),
        (exists|m: int| 0 <= m < out@.len() && same_style(out@[m], *r)) ==> pos > 0
            && same_style(out@[pos - 1], *r),
        (forall|m: int| 0 <= m < out@.len() ==> !same_style(out@[m], *r)) ==> pos == out@.len(),
{
    let mut j = out.len();
    while j > 0
        invariant
            j <= out@.len(),
            forall|m: int| j <= m < out@.len() ==> !same_style(out@[m], *r),
        decreases j,
    {
        if out[j - 1].color.eq_color(&r.color) && out[j - 1].glyph == r.glyph {
            return j;
        }
        j = j - 1;
    }
    out.len()
}

proof fn lemma_grouped_insert<C: Colorize>(out: Seq<Run<C>>, pos: int, r: Run<C>)
    requires
        0 <= pos <= out.len(),
        grouped(out),
        forall|m: int| pos <= m < out.len() ==> !same_style(out[m], r),
        (exists|m: int| 0 <= m < out.len() && same_style(out[m], r)) ==> pos > 0 && same_style(
            out[pos - 1],
            r,
        ),
        (forall|m: int| 0 <= m < out.len() ==> !same_style(out[m], r)) ==> pos == out.len(),
    ensures
        grouped(out.insert(pos, r)),
{
    let t = out.insert(pos, r);
    assert forall|x: int, y: int, z: int|
        #![trigger t[x], t[y], t[z]]
        0 <= x < y < z < t.len() && same_style(t[x], t[z]) implies same_style(t[x], t[y]) by {
        if x == pos {
            assert(t[z] == out[z - 1]);
            assert(!same_style(out[z - 1], r));
            assert(false);
        } else if y == pos {
            assert(t[x] == out[x]);
            assert(t[z] == out[z - 1]);
            if forall|m: int| 0 <= m < out.len() ==> !same_style(out[m], r) {
                assert(pos == out.len());
                assert(z <= out.len());
                assert(false);
            }
            assert(same_style(out[pos - 1], r));
            if x == pos - 1 {
                assert(same_style(out[x], r));
            } else {
                assert(0 <= x < pos - 1 < z - 1 < out.len());
                assert(same_style(out[x], out[pos - 1]));
                assert(same_style(out[x], r));
            }
        } else if z == pos {
            assert(t[x] == out[x]);
            assert(t[y] == out[y]);
            assert(same_style(out[x], r));
            assert(same_style(out[pos - 1], r));
            if y == pos - 1 {
                assert(same_style(out[x], out[y]));
            } else {
                assert(0 <= x < y < pos - 1 < out.len());
                assert(same_style(out[x], out[pos - 1]));
                assert(same_style(out[x], out[y]));
            }
        } else {
            let ox = if x < pos { x } else { x - 1 };
            let oy = if y < pos { y } else { y - 1 };
            let oz = if z < pos { z } else { z - 1 };
            assert(t[x] == out[ox]);
            assert(t[y] == out[oy]);
            assert(t[z] == out[oz]);
            assert(0 <= ox < oy < oz < out.len());
            assert(same_style(out[ox], out[oy]));
        }
    }
}

proof fn lemma_disjoint_insert<C: Colorize>(
    out: Seq<Run<C>>,
    input: Seq<Run<C>>,
    i: int,
    pos: int,
)
    requires
        0 <= i < input.len(),
        0 <= pos <= out.len(),
        runs_disjoint(input),
        runs_disjoint(out),
        out.to_multiset() == input.take(i).to_multiset(),
    ensures
        runs_disjoint(out.insert(pos, input[i])),
{
    broadcast use group_to_multiset_ensures;

    let r = input[i];
    let t = out.insert(pos, r);
    assert forall|a: int, b: int|
        #![trigger t[a], t[b]]
        0 <= a < t.len() && 0 <= b < t.len() && a != b implies disjoint_pair(t[a], t[b]) by {
        if a == pos || b == pos {
            let m = if a == pos {
                b
            } else {
                a
            };
            let om = if m < pos {
                m
            } else {
                m - 1
            };
            assert(t[m] == out[om]);
            assert(out.contains(out[om]));
            assert(out.to_multiset().count(out[om]) > 0);
            assert(input.take(i).contains(out[om]));
            let p = choose|p: int| 0 <= p < input.take(i).len() && input.take(i)[p] == out[om];
            assert(input[p] == out[om]);
            assert(disjoint_pair(input[p], input[i]));
        } else {
            let oa = if a < pos {
                a
            } else {
                a - 1
            };
            let ob = if b < pos {
                b
            } else {
                b - 1
            };
            assert(t[a] == out[oa]);
            assert(t[b] == out[ob]);
            assert(disjoint_pair(out[oa], out[ob]));
        }
    }
}

/// Reorders `runs` so that equal-style runs stand next to each other.
///
/// The pass only moves runs: the multiset of runs is unchanged, no run is
/// created, destroyed or mutated. No order among distinct styles is promised.
/// Disjoint non-empty runs stay disjoint.
pub fn group_runs<C: Colorize>(runs: &mut Vec<Run<C>>)
    ensures
        final(runs)@.to_multiset() == old(runs)@.to_multiset(),
        grouped(final(runs)@),
        runs_disjoint(old(runs)@) ==> runs_disjoint(final(runs)@),
{
    let ghost input = runs@;
    let mut out: Vec<Run<C>> = Vec::new();
    let mut i: usize = 0;
    proof {
        assert(out@ =~= input.take(0));
    }
    while i < runs.len()
        invariant
            runs@ == input,
            i <= input.len(),
            out@.to_multiset() == input.take(i as int).to_multiset(),
            grouped(out@),
            runs_disjoint(input) ==> runs_disjoint(out@),
        decreases runs.len() - i,
    {
        let r = runs[i];
        let pos = find_insert_pos(&out, &r);
        let ghost old_out = out@;
        out.insert(pos, r);
        proof {
            broadcast use group_to_multiset_ensures;

            to_multiset_insert(old_out, pos as int, r);
            assert(input.take(i + 1) =~= input.take(i as int).push(input[i as int]));
            to_multiset_build(input.take(i as int), input[i as int]);
            assert(out@.to_multiset() == input.take(i + 1).to_multiset());
            lemma_grouped_insert(old_out, pos as int, r);
            if runs_disjoint(input) {
                lemma_disjoint_insert(old_out, input, i as int, pos as int);
            }
        }
        i = i + 1;
    }
    proof {
        assert(input.take(input.len() as int) =~= input);
    }
    *runs = out;
}

/// `run` is a truthful changed span of `curr` against `prev`: non-empty, in
/// bounds, every covered cell changed, every covered cell holds one value,
/// and colour and glyph are derived from that value.
pub open spec fn run_matches<C: Colorize>(run: Run<C>, curr: Seq<Pixel>, prev: Seq<Pixel>) -> bool {
    &&& run.start < run.end <= curr.len()
    &&& run.color == C::spec_from_rgb(
        curr[run.start as int].r,
        curr[run.start as int].g,
        curr[run.start as int].b,
    )
    &&& run.glyph == curr[run.start as int].x
    &&& forall|k: int|
        run.start <= k < run.end ==> curr[k] == curr[run.start as int] && curr[k] != prev[k]
}

/// `run` cannot be extended in either direction: the cell after its end
/// leaves the run's value or is unchanged, and the cell before its start is
/// unchanged or holds a different current value.
pub open spec fn run_maximal<C: Colorize>(run: Run<C>, curr: Seq<Pixel>, prev: Seq<Pixel>) -> bool {
    &&& (run.end == curr.len() || curr[run.end as int] != curr[run.start as int] || curr[
        run.end as int
    ] == prev[run.end as int])
    &&& (run.start == 0 || curr[run.start - 1] == prev[run.start - 1] || curr[run.start - 1]
        != curr[run.start as int])
}

/// Some run of `runs` covers the cell index `idx`.
pub open spec fn covered_by<C: Colorize>(runs: Seq<Run<C>>, idx: int) -> bool {
    exists|j: int| 0 <= j < runs.len() && (#[trigger] runs[j]).start <= idx < runs[j].end
}

/// The full diff contract: every run is a truthful, maximal changed span,
/// runs are pairwise disjoint, and every changed cell is covered — so every
/// changed cell is covered by exactly one run, and unchanged cells by none.
pub open spec fn diff_post<C: Colorize>(runs: Seq<Run<C>>, curr: Seq<Pixel>, prev: Seq<Pixel>) -> bool {
    &&& forall|j: int| 0 <= j < runs.len() ==> run_matches(#[trigger] runs[j], curr, prev)
    &&& forall|j: int| 0 <= j < runs.len() ==> run_maximal(#[trigger] runs[j], curr, prev)
    &&& runs_disjoint(runs)
    &&& forall|idx: int|
        0 <= idx < curr.len() && curr[idx] != prev[idx] ==> covered_by(runs, idx)
}

proof fn lemma_runs_transfer<C: Colorize>(
    a: Seq<Run<C>>,
    b: Seq<Run<C>>,
    curr: Seq<Pixel>,
    prev: Seq<Pixel>,
)
    requires
        a.to_multiset() == b.to_multiset(),
        forall|j: int| 0 <= j < a.len() ==> run_matches(#[trigger] a[j], curr, prev),
        forall|j: int| 0 <= j < a.len() ==> run_maximal(#[trigger] a[j], curr, prev),
        forall|idx: int| 0 <= idx < curr.len() && curr[idx] != prev[idx] ==> covered_by(a, idx),
    ensures
        forall|j: int| 0 <= j < b.len() ==> run_matches(#[trigger] b[j], curr, prev),
        forall|j: int| 0 <= j < b.len() ==> run_maximal(#[trigger] b[j], curr, prev),
        forall|idx: int| 0 <= idx < curr.len() && curr[idx] != prev[idx] ==> covered_by(b, idx),
{
    broadcast use group_to_multiset_ensures;

    assert forall|j: int|
        0 <= j < b.len() implies run_matches(#[trigger] b[j], curr, prev) && run_maximal(
        b[j],
        curr,
        prev,
    ) by {
        assert(b.contains(b[j]));
        assert(a.to_multiset().count(b[j]) > 0);
        assert(a.contains(b[j]));
        let p = choose|p: int| 0 <= p < a.len() && a[p] == b[j];
        assert(run_matches(a[p], curr, prev));
        assert(run_maximal(a[p], curr, prev));
    }
    assert forall|idx: int|
        0 <= idx < curr.len() && curr[idx] != prev[idx] implies covered_by(b, idx) by {
        assert(covered_by(a, idx));
        let j = choose|j: int| 0 <= j < a.len() && (#[trigger] a[j]).start <= idx < a[j].end;
        assert(a.contains(a[j]));
        assert(b.to_multiset().count(a[j]) > 0);
        assert(b.contains(a[j]));
        let m = choose|m: int| 0 <= m < b.len() && b[m] == a[j];
        assert(b[m].start <= idx < b[m].end);
    }
}

/// The per-frame diff state: the ordered runs of the current frame's edit
/// script, rebuilt from scratch by every `assign_diff` call.
pub struct Differ<C: Colorize> {
    data: Vec<Run<C>>,
}

impl<C: Colorize> View for Differ<C> {
    type V = Seq<Run<C>>;

    closed spec fn view(&self) -> Seq<Run<C>> {
        self.data@
    }
}

impl<C: Colorize> Differ<C> {
    /// An empty diff state with room for the worst case of one run per cell.
    pub fn new(width: u32, height: u32) -> (d: Self)
        requires
            (width as int) * (height as int) <= usize::MAX as int,
        ensures
            d@ == Seq::<Run<C>>::empty(),
    {
        Differ { data: Vec::with_capacity(width as usize * height as usize) }
    }

    /// Rebuilds the edit script for `curr` against `prev`: the maximal
    /// changed runs of the scan, clustered so equal styles are adjacent.
    #[verifier::rlimit(60)]
    pub fn assign_diff(&mut self, curr: &[Pixel], prev: &[Pixel])
        requires
            curr@.len() == prev@.len(),
        ensures
            diff_post(final(self)@, curr@, prev@),
            grouped(final(self)@),
    {
        self.data.clear();
        let mut it = BufferDiffIter::new(curr, prev);
        loop
            invariant_except_break
                self.data@.len() == 0 ==> it.idx == 0,
                self.data@.len() > 0 ==> self.data@[self.data@.len() - 1].end == it.idx,
            invariant
                it.wf(),
                it.current@ == curr@,
                it.prev@ == prev@,
                curr@.len() == prev@.len(),
                forall|j: int|
                    0 <= j < self.data@.len() ==> run_matches(
                        #[trigger] self.data@[j],
                        curr@,
                        prev@,
                    ),
                forall|j: int| 0 <= j < self.data@.len() ==> #[trigger] self.data@[j].end <= it.idx,
                forall|j: int|
                    0 <= j < self.data@.len() ==> run_maximal(
                        #[trigger] self.data@[j],
                        curr@,
                        prev@,
                    ),
                forall|p: int, q: int|
                    0 <= p < q < self.data@.len() ==> #[trigger] self.data@[p].end
                        <= #[trigger] self.data@[q].start,
                forall|k: int|
                    0 <= k < it.idx && curr@[k] != prev@[k] ==> covered_by(self.data@, k),
            ensures
                forall|j: int|
                    0 <= j < self.data@.len() ==> run_matches(
                        #[trigger] self.data@[j],
                        curr@,
                        prev@,
                    ),
                forall|j: int|
                    0 <= j < self.data@.len() ==> run_maximal(
                        #[trigger] self.data@[j],
                        curr@,
                        prev@,
                    ),
                forall|p: int, q: int|
                    0 <= p < q < self.data@.len() ==> #[trigger] self.data@[p].end
                        <= #[trigger] self.data@[q].start,
                forall|k: int|
                    0 <= k < curr@.len() && curr@[k] != prev@[k] ==> covered_by(self.data@, k),
            decreases curr@.len() - it.idx,
        {
            let ghost pre_idx = it.idx as int;
            let ghost pre_data = self.data@;
            match it.next() {
                None => {
                    break ;
                },
                Some((s, e, item)) => {
                    let color = C::from_rgb(item.r, item.g, item.b);
                    self.data.push(Run { start: s, end: e, color, glyph: item.x });
                    proof {
                        let nd = self.data@;
                        let ni = nd.len() - 1;
                        assert(nd[ni].start == s && nd[ni].end == e);
                        assert(run_matches(nd[ni], curr@, prev@));
                        if s > 0 {
                            if s > pre_idx {
                                assert(curr@[s - 1] == prev@[s - 1]);
                            } else {
                                let lp = pre_data[pre_data.len() - 1];
                                assert(run_matches(lp, curr@, prev@));
                                assert(run_maximal(lp, curr@, prev@));
                                assert(lp.end == s);
                                assert(curr@[s - 1] == curr@[lp.start as int]);
                                assert(curr@[s as int] != prev@[s as int]);
                                assert(curr@[s as int] != curr@[lp.start as int]);
                                assert(curr@[s - 1] != curr@[s as int]);
                            }
                        }
                        assert(run_maximal(nd[ni], curr@, prev@));
                        assert forall|k: int|
                            0 <= k < it.idx && curr@[k] != prev@[k] implies covered_by(
                            self.data@,
                            k,
                        ) by {
                            if k < pre_idx {
                                let j = choose|j: int|
                                    0 <= j < pre_data.len() && (#[trigger] pre_data[j]).start <= k
                                        < pre_data[j].end;
                                assert(nd[j].start <= k < nd[j].end);
                            } else if k < s {
                                assert(curr@[k] == prev@[k]);
                            } else {
                                assert(nd[ni].start <= k < nd[ni].end);
                            }
                        }
                    }
                },
            }
        }
        proof {
            assert forall|p: int, q: int|
                0 <= p < self.data@.len() && 0 <= q < self.data@.len() && p
                    != q implies disjoint_pair(self.data@[p], self.data@[q]) by {
                if p < q {
                    assert(self.data@[p].end <= self.data@[q].start);
                } else {
                    assert(self.data@[q].end <= self.data@[p].start);
                }
            }
        }
        let ghost scanned = self.data@;
        group_runs(&mut self.data);
        proof {
            lemma_runs_transfer(scanned, self.data@, curr@, prev@);
        }
    }

    /// The runs of the most recent `assign_diff`, in output order.
    pub fn data(&self) -> (r: &Vec<Run<C>>)
        ensures
            r@ == self@,
    {
        &self.data
    }
}

/// Diffing a grid against itself yields an empty edit script: any run would
/// have to cover a changed cell, and there is none.
pub proof fn lemma_diff_identical<C: Colorize>(runs: Seq<Run<C>>, grid: Seq<Pixel>)
    requires
        diff_post(runs, grid, grid),
    ensures
        runs.len() == 0,
{
    if runs.len() > 0 {
        let r = runs[0];
        assert(run_matches(r, grid, grid));
        assert(grid[r.start as int] != grid[r.start as int]);
    }
}

/// When the grids differ at exactly one cell, the edit script is exactly one
/// run of length one at that cell, carrying the new value's colour and glyph.
pub proof fn lemma_diff_single_change<C: Colorize>(
    runs: Seq<Run<C>>,
    curr: Seq<Pixel>,
    prev: Seq<Pixel>,
    i: int,
)
    requires
        curr.len() == prev.len(),
        0 <= i < curr.len(),
        curr[i] != prev[i],
        forall|k: int| 0 <= k < curr.len() && k != i ==> curr[k] == prev[k],
        diff_post(runs, curr, prev),
    ensures
        runs.len() == 1,
        runs[0].start == i,
        runs[0].end == i + 1,
        runs[0].color == C::spec_from_rgb(curr[i].r, curr[i].g, curr[i].b),
        runs[0].glyph == curr[i].x,
{
    assert(covered_by(runs, i));
    let j = choose|j: int| 0 <= j < runs.len() && (#[trigger] runs[j]).start <= i < runs[j].end;
    assert(run_matches(runs[j], curr, prev));
    if runs[j].start < i {
        let s = runs[j].start as int;
        assert(curr[s] != prev[s]);
        assert(false);
    }
    if runs[j].end > i + 1 {
        assert(curr[i + 1] != prev[i + 1]);
        assert(false);
    }
    assert(runs[j].start == i && runs[j].end == i + 1);
    if runs.len() >= 2 {
        let m = if j == 0 { 1int } else { 0int };
        assert(run_matches(runs[m], curr, prev));
        let s = runs[m].start as int;
        assert(curr[s] != prev[s]);
        assert(s == i);
        assert(disjoint_pair(runs[m], runs[j]));
        assert(false);
    }
    assert(runs.len() == 1 && j == 0);
}

/// Each changed cell is covered by exactly one run of the edit script, and
/// each unchanged cell by none.
pub proof fn lemma_diff_exact_cover<C: Colorize>(
    runs: Seq<Run<C>>,
    curr: Seq<Pixel>,
    prev: Seq<Pixel>,
    idx: int,
)
    requires
        diff_post(runs, curr, prev),
        0 <= idx < curr.len(),
    ensures
        curr[idx] != prev[idx] ==> covered_by(runs, idx),
        forall|i: int, j: int|
            0 <= i < runs.len() && 0 <= j < runs.len() && (#[trigger] runs[i]).start <= idx
                < runs[i].end && (#[trigger] runs[j]).start <= idx < runs[j].end ==> i == j,
        curr[idx] == prev[idx] ==> forall|j: int|
            0 <= j < runs.len() ==> !((#[trigger] runs[j]).start <= idx < runs[j].end),
{
    assert forall|i: int, j: int|
        0 <= i < runs.len() && 0 <= j < runs.len() && (#[trigger] runs[i]).start <= idx
            < runs[i].end && (#[trigger] runs[j]).start <= idx < runs[j].end implies i == j by {
        if i != j {
            assert(disjoint_pair(runs[i], runs[j]));
        }
    }
    if curr[idx] == prev[idx] {
        assert forall|j: int|
            0 <= j < runs.len() implies !((#[trigger] runs[j]).start <= idx < runs[j].end) by {
            if runs[j].start <= idx < runs[j].end {
                assert(run_matches(runs[j], curr, prev));
                assert(curr[idx] != prev[idx]);
            }
        }
    }
}

} // verus!
