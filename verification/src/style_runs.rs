//! Runs of formatting over ranges of positions, kept sorted and disjoint, and
//! the operations on them that the styled document needs.

use vstd::prelude::*;

verus! {

/// A format that runs can carry: it knows which of its values is the plain one.
pub trait RunFormat: Copy + Sized {
    /// Whether this format differs from the plain one.
    spec fn spec_styled(self) -> bool;

    /// The plain (default) format.
    spec fn spec_plain() -> Self;

    fn styled(&self) -> (r: bool)
        ensures
            r == self.spec_styled(),
    ;

    fn same(&self, other: &Self) -> (r: bool)
        ensures
            r == (*self == *other),
    ;

    fn plain() -> (r: Self)
        ensures
            r == Self::spec_plain(),
    ;

    /// A format is unstyled exactly when it is the plain one.
    proof fn lemma_unstyled_is_plain(f: Self)
        ensures
            !f.spec_styled() <==> f == Self::spec_plain(),
    ;
}

/// A run of positions `range.start..range.end` that carries one format.
#[derive(Debug)]
pub struct StyleRun<F> {
    /// The positions this run covers (start..end).
    pub range: std::ops::Range<usize>,
    /// The format applied to these positions.
    pub format: F,
}

/// Whether run `r` covers position `p`.
pub open spec fn covers<F>(r: StyleRun<F>, p: int) -> bool {
    r.range.start <= p < r.range.end
}

/// Whether some run of `rs` covers `p`.
pub open spec fn any_covers<F>(rs: Seq<StyleRun<F>>, p: int) -> bool {
    exists|i: int| 0 <= i < rs.len() && covers(#[trigger] rs[i], p)
}

/// The format at position `p`: that of the last run covering it, else the plain one.
/// (For disjoint runs there is at most one such run.)
pub open spec fn format_in<F: RunFormat>(rs: Seq<StyleRun<F>>, p: int) -> F
    decreases rs.len(),
{
    if rs.len() == 0 {
        F::spec_plain()
    } else if covers(rs.last(), p) {
        rs.last().format
    } else {
        format_in(rs.drop_last(), p)
    }
}

/// The format of the run whose inside holds `p` with positions on both sides
/// (`start < p < end`), else the plain one.
pub open spec fn spanning_format<F: RunFormat>(rs: Seq<StyleRun<F>>, p: int) -> F
    decreases rs.len(),
{
    if rs.len() == 0 {
        F::spec_plain()
    } else if rs.last().range.start < p < rs.last().range.end {
        rs.last().format
    } else {
        spanning_format(rs.drop_last(), p)
    }
}

/// Runs are non-empty, styled, sorted by position and pairwise disjoint.
pub open spec fn runs_wf<F: RunFormat>(rs: Seq<StyleRun<F>>) -> bool {
    &&& forall|i: int|
        0 <= i < rs.len() ==> (#[trigger] rs[i]).range.start < rs[i].range.end
            && rs[i].format.spec_styled()
    &&& forall|i: int, j: int|
        0 <= i < j < rs.len() ==> (#[trigger] rs[i]).range.end <= (#[trigger] rs[j]).range.start
}

/// No two neighbouring runs touch and carry the same format.
pub open spec fn runs_merged<F: RunFormat>(rs: Seq<StyleRun<F>>) -> bool {
    forall|i: int|
        0 <= i < rs.len() - 1 ==> !((#[trigger] rs[i]).range.end == rs[i + 1].range.start
            && rs[i].format == rs[i + 1].format)
}

/// The largest end of any run (0 for none).
pub open spec fn max_end<F>(rs: Seq<StyleRun<F>>) -> int
    decreases rs.len(),
{
    if rs.len() == 0 {
        0
    } else {
        let m = max_end(rs.drop_last());
        if rs.last().range.end > m {
            rs.last().range.end as int
        } else {
            m
        }
    }
}

impl<F: RunFormat> StyleRun<F> {
    /// Create a new run.
    pub fn new(range: std::ops::Range<usize>, format: F) -> (r: Self)
        ensures
            r.range == range,
            r.format == format,
    {
        StyleRun { range, format }
    }

    /// A run over `start..end` carrying `format`.
    pub fn span(start: usize, end: usize, format: F) -> (r: Self)
        ensures
            r.range.start == start,
            r.range.end == end,
            r.format == format,
    {
        StyleRun { range: std::ops::Range { start, end }, format }
    }

    /// A copy of this run.
    pub fn copy_run(&self) -> (r: Self)
        ensures
            r == *self,
    {
        let r = StyleRun { range: std::ops::Range { start: self.range.start, end: self.range.end }, format: self.format };
        assert(r.range == self.range);
        r
    }

    /// Check if this run is empty.
    pub fn is_empty(&self) -> (r: bool)
        ensures
            r == !(self.range.start < self.range.end),
    {
        !(self.range.start < self.range.end)
    }

    /// The number of positions in this run (0 when empty).
    pub fn len(&self) -> (r: usize)
        ensures
            r == (if self.range.start < self.range.end {
                self.range.end - self.range.start
            } else {
                0
            }),
    {
        if self.range.start < self.range.end {
            self.range.end - self.range.start
        } else {
            0
        }
    }

    /// Check if this run overlaps the positions `range`.
    pub fn overlaps(&self, range: &std::ops::Range<usize>) -> (r: bool)
        ensures
            r == (self.range.start < range.end && range.start < self.range.end),
    {
        self.range.start < range.end && range.start < self.range.end
    }

    /// Check if this run contains position `pos`.
    pub fn contains(&self, pos: usize) -> (r: bool)
        ensures
            r == covers(*self, pos as int),
    {
        self.range.start <= pos && pos < self.range.end
    }
}

pub proof fn lemma_format_in_push<F: RunFormat>(rs: Seq<StyleRun<F>>, r: StyleRun<F>, p: int)
    ensures
        format_in(rs.push(r), p) == (if covers(r, p) {
            r.format
        } else {
            format_in(rs, p)
        }),
        spanning_format(rs.push(r), p) == (if r.range.start < p < r.range.end {
            r.format
        } else {
            spanning_format(rs, p)
        }),
{
    assert(rs.push(r).drop_last() =~= rs);
}

pub proof fn lemma_max_end_push<F>(rs: Seq<StyleRun<F>>, r: StyleRun<F>)
    ensures
        max_end(rs.push(r)) == (if r.range.end > max_end(rs) {
            r.range.end as int
        } else {
            max_end(rs)
        }),
{
    assert(rs.push(r).drop_last() =~= rs);
}

pub proof fn lemma_max_end_bounds<F>(rs: Seq<StyleRun<F>>, i: int)
    requires
        0 <= i < rs.len(),
    ensures
        rs[i].range.end <= max_end(rs),
        max_end(rs) >= 0,
    decreases rs.len(),
{
    if i < rs.len() - 1 {
        lemma_max_end_bounds(rs.drop_last(), i);
    }
}

pub proof fn lemma_max_end_le<F>(rs: Seq<StyleRun<F>>, bound: int)
    requires
        bound >= 0,
        forall|k: int| 0 <= k < rs.len() ==> (#[trigger] rs[k]).range.end <= bound,
    ensures
        max_end(rs) <= bound,
    decreases rs.len(),
{
    if rs.len() > 0 {
        assert forall|k: int| 0 <= k < rs.drop_last().len() implies (#[trigger] rs.drop_last()[k]).range.end
            <= bound by {
            assert(rs.drop_last()[k] == rs[k]);
        }
        lemma_max_end_le(rs.drop_last(), bound);
    }
}

pub proof fn lemma_max_end_nonneg<F>(rs: Seq<StyleRun<F>>)
    ensures
        max_end(rs) >= 0,
    decreases rs.len(),
{
    if rs.len() > 0 {
        lemma_max_end_nonneg(rs.drop_last());
    }
}

/// In well-formed runs, the format at a position covered by run `i` is run `i`'s.
pub proof fn lemma_format_in_covered<F: RunFormat>(rs: Seq<StyleRun<F>>, i: int, p: int)
    requires
        runs_wf(rs),
        0 <= i < rs.len(),
        covers(rs[i], p),
    ensures
        format_in(rs, p) == rs[i].format,
    decreases rs.len(),
{
    if i < rs.len() - 1 {
        assert(rs[i].range.end <= rs[rs.len() - 1].range.start);
        assert(!covers(rs.last(), p));
        assert(rs.drop_last()[i] == rs[i]);
        lemma_format_in_covered(rs.drop_last(), i, p);
    }
}

/// A position no run covers has the plain format.
pub proof fn lemma_format_in_uncovered<F: RunFormat>(rs: Seq<StyleRun<F>>, p: int)
    requires
        !any_covers(rs, p),
    ensures
        format_in(rs, p) == F::spec_plain(),
    decreases rs.len(),
{
    if rs.len() > 0 {
        assert(!covers(rs[rs.len() - 1], p));
        assert forall|i: int| 0 <= i < rs.drop_last().len() implies !covers(
            #[trigger] rs.drop_last()[i],
            p,
        ) by {
            assert(rs.drop_last()[i] == rs[i]);
        }
        lemma_format_in_uncovered(rs.drop_last(), p);
    }
}

/// The format at `p`, found by scanning the runs in order.
pub fn format_at_pos<F: RunFormat>(runs: &Vec<StyleRun<F>>, pos: usize) -> (r: F)
    requires
        runs_wf(runs@),
    ensures
        r == format_in(runs@, pos as int),
{
    let mut i: usize = 0;
    while i < runs.len()
        invariant
            runs_wf(runs@),
            i <= runs.len(),
            forall|k: int| 0 <= k < i ==> !covers(#[trigger] runs@[k], pos as int),
            forall|k: int| 0 <= k < i ==> (#[trigger] runs@[k]).range.start <= pos,
        decreases runs.len() - i,
    {
        if runs[i].contains(pos) {
            proof {
                lemma_format_in_covered(runs@, i as int, pos as int);
            }
            return runs[i].format;
        }
        if runs[i].range.start > pos {
            proof {
                assert forall|k: int| 0 <= k < runs@.len() implies !covers(
                    #[trigger] runs@[k],
                    pos as int,
                ) by {
                    if k > i {
                        assert(runs@[i as int].range.end <= runs@[k].range.start);
                    }
                }
                lemma_format_in_uncovered(runs@, pos as int);
            }
            return F::plain();
        }
        i = i + 1;
    }
    proof {
        lemma_format_in_uncovered(runs@, pos as int);
    }
    F::plain()
}

/// Merge neighbouring runs that touch and carry the same format.
pub fn merge_touching<F: RunFormat>(runs: Vec<StyleRun<F>>) -> (out: Vec<StyleRun<F>>)
    requires
        runs_wf(runs@),
    ensures
        runs_wf(out@),
        runs_merged(out@),
        forall|p: int| format_in(out@, p) == format_in(runs@, p),
        max_end(out@) == max_end(runs@),
{
    let mut out: Vec<StyleRun<F>> = Vec::new();
    let mut i: usize = 0;
    while i < runs.len()
        invariant
            runs_wf(runs@),
            i <= runs.len(),
            runs_wf(out@),
            runs_merged(out@),
            forall|p: int| format_in(out@, p) == format_in(runs@.take(i as int), p),
            max_end(out@) == max_end(runs@.take(i as int)),
            i > 0 ==> out@.len() > 0 && out@.last().range.end == runs@[i - 1].range.end,
            i == 0 ==> out@.len() == 0,
        decreases runs.len() - i,
    {
        let r = runs[i].copy_run();
        let ghost old_out = out@;
        proof {
            assert(runs@.take(i as int + 1) =~= runs@.take(i as int).push(r));
            assert forall|p: int| #[trigger] format_in(runs@.take(i as int + 1), p) == (if covers(r, p) {
                r.format
            } else {
                format_in(runs@.take(i as int), p)
            }) by {
                lemma_format_in_push(runs@.take(i as int), r, p);
            }
            lemma_max_end_push(runs@.take(i as int), r);
            if i > 0 {
                assert(runs@[i - 1].range.end <= runs@[i as int].range.start);
            }
        }
        let n = out.len();
        if n > 0 && out[n - 1].range.end == r.range.start && out[n - 1].format.same(&r.format) {
            let merged = StyleRun::span(out[n - 1].range.start, r.range.end, r.format);
            let ghost last = out@[n - 1];
            out.pop();
            let ghost base = out@;
            out.push(merged);
            proof {
                assert(old_out =~= base.push(last));
                assert(out@ =~= base.push(merged));
                assert forall|p: int| format_in(out@, p) == format_in(runs@.take(i as int + 1), p) by {
                    lemma_format_in_push(base, merged, p);
                    lemma_format_in_push(base, last, p);
                }
                lemma_max_end_push(base, merged);
                lemma_max_end_push(base, last);
                assert forall|a: int, b: int| 0 <= a < b < out@.len() implies (#[trigger] out@[a]).range.end
                    <= (#[trigger] out@[b]).range.start by {
                    if b == out@.len() - 1 {
                        assert(old_out[a].range.end <= old_out[b].range.start);
                    } else {
                        assert(old_out[a].range.end <= old_out[b].range.start);
                    }
                }
                assert forall|a: int| 0 <= a < out@.len() - 1 implies !((#[trigger] out@[a]).range.end
                    == out@[a + 1].range.start && out@[a].format == out@[a + 1].format) by {
                    assert(old_out[a] == out@[a]);
                    if a + 1 < out@.len() - 1 {
                        assert(old_out[a + 1] == out@[a + 1]);
                    }
                }
            }
        } else {
            out.push(r);
            proof {
                assert(out@ =~= old_out.push(r));
                assert forall|p: int| format_in(out@, p) == format_in(runs@.take(i as int + 1), p) by {
                    lemma_format_in_push(old_out, r, p);
                }
                lemma_max_end_push(old_out, r);
                assert forall|a: int, b: int| 0 <= a < b < out@.len() implies (#[trigger] out@[a]).range.end
                    <= (#[trigger] out@[b]).range.start by {
                    if b == out@.len() - 1 && a < b {
                        assert(old_out[a] == out@[a]);
                        if a < old_out.len() - 1 {
                            assert(old_out[a].range.end <= old_out[old_out.len() - 1].range.start);
                        }
                    } else {
                        assert(old_out[a] == out@[a]);
                        assert(old_out[b] == out@[b]);
                    }
                }
                assert forall|a: int| 0 <= a < out@.len() - 1 implies !((#[trigger] out@[a]).range.end
                    == out@[a + 1].range.start && out@[a].format == out@[a + 1].format) by {
                    assert(old_out[a] == out@[a]);
                    if a + 1 < out@.len() - 1 {
                        assert(old_out[a + 1] == out@[a + 1]);
                    }
                }
            }
        }
        i = i + 1;
    }
    assert(runs@.take(runs@.len() as int) =~= runs@);
    out
}

/// The runs with positions `start..end` given format `f` and every other position kept.
pub fn set_range<F: RunFormat>(runs: &Vec<StyleRun<F>>, start: usize, end: usize, f: F) -> (out: Vec<
    StyleRun<F>,
>)
    requires
        runs_wf(runs@),
        start < end,
    ensures
        runs_wf(out@),
        runs_merged(out@),
        forall|p: int|
            #![trigger format_in(out@, p)]
            format_in(out@, p) == (if start <= p < end {
                f
            } else {
                format_in(runs@, p)
            }),
        max_end(out@) <= (if end > max_end(runs@) {
            end as int
        } else {
            max_end(runs@)
        }),
{
    let mut out: Vec<StyleRun<F>> = Vec::new();
    let ghost mut prev_end: int = 0;
    // Parts of runs before `start`.
    let mut i: usize = 0;
    while i < runs.len()
        invariant
            runs_wf(runs@),
            start < end,
            i <= runs.len(),
            runs_wf(out@),
            forall|k: int| 0 <= k < out@.len() ==> (#[trigger] out@[k]).range.end <= prev_end,
            forall|k: int| 0 <= k < out@.len() ==> (#[trigger] out@[k]).range.end <= start,
            i > 0 ==> prev_end == runs@[i - 1].range.end,
            i == 0 ==> prev_end == 0,
            forall|p: int|
                #![trigger format_in(out@, p)]
                format_in(out@, p) == (if p < start {
                    format_in(runs@.take(i as int), p)
                } else {
                    F::spec_plain()
                }),
            max_end(out@) <= max_end(runs@.take(i as int)),
        decreases runs.len() - i,
    {
        let r = runs[i].copy_run();
        let ghost old_out = out@;
        proof {
            assert(runs@.take(i as int + 1) =~= runs@.take(i as int).push(r));
            assert forall|p: int| #[trigger] format_in(runs@.take(i as int + 1), p) == (if covers(r, p) {
                r.format
            } else {
                format_in(runs@.take(i as int), p)
            }) by {
                lemma_format_in_push(runs@.take(i as int), r, p);
            }
            lemma_max_end_push(runs@.take(i as int), r);
            if i > 0 {
                assert(runs@[i - 1].range.end <= runs@[i as int].range.start);
            }
        }
        if r.range.start < start {
            let e = if r.range.end < start {
                r.range.end
            } else {
                start
            };
            let c = StyleRun::span(r.range.start, e, r.format);
            out.push(c);
            proof {
                assert(out@ =~= old_out.push(c));
                assert forall|p: int| #[trigger] format_in(out@, p) == (if p < start {
                    format_in(runs@.take(i as int + 1), p)
                } else {
                    F::spec_plain()
                }) by {
                    lemma_format_in_push(old_out, c, p);
                }
                lemma_max_end_push(old_out, c);
                assert forall|a: int, b: int| 0 <= a < b < out@.len() implies (#[trigger] out@[a]).range.end
                    <= (#[trigger] out@[b]).range.start by {
                    assert(old_out[a] == out@[a]);
                    if b < out@.len() - 1 {
                        assert(old_out[b] == out@[b]);
                    }
                }
            }
        }
        proof {
            prev_end = r.range.end as int;
        }
        i = i + 1;
    }
    assert(runs@.take(runs@.len() as int) =~= runs@);
    let ghost before = out@;
    // The new run.
    if f.styled() {
        let n = StyleRun::span(start, end, f);
        out.push(n);
        proof {
            assert forall|p: int| #[trigger] format_in(out@, p) == (if start <= p < end {
                f
            } else if p < start {
                format_in(runs@, p)
            } else {
                F::spec_plain()
            }) by {
                lemma_format_in_push(before, n, p);
            }
            lemma_max_end_push(before, n);
            assert forall|a: int, b: int| 0 <= a < b < out@.len() implies (#[trigger] out@[a]).range.end
                <= (#[trigger] out@[b]).range.start by {
                assert(before[a] == out@[a]);
                if b < out@.len() - 1 {
                    assert(before[b] == out@[b]);
                }
            }
        }
    } else {
        proof {
            F::lemma_unstyled_is_plain(f);
        }
    }
    assert(forall|p: int|
        #![trigger format_in(out@, p)]
        format_in(out@, p) == (if start <= p < end {
            f
        } else if p < start {
            format_in(runs@, p)
        } else {
            F::spec_plain()
        }));
    assert(forall|k: int| 0 <= k < out@.len() ==> (#[trigger] out@[k]).range.end <= end);
    let ghost middle = out@;
    proof {
        lemma_max_end_le(middle, end as int);
    }
    // Parts of runs after `end`.
    let mut j: usize = 0;
    proof {
        prev_end = 0;
    }
    while j < runs.len()
        invariant
            runs_wf(runs@),
            start < end,
            j <= runs.len(),
            runs_wf(out@),
            out@.len() >= middle.len(),
            forall|k: int| 0 <= k < middle.len() ==> out@[k] == middle[k],
            forall|k: int| 0 <= k < out@.len() ==> (#[trigger] out@[k]).range.end <= (if prev_end > end {
                prev_end
            } else {
                end as int
            }),
            j > 0 ==> prev_end == runs@[j - 1].range.end,
            j == 0 ==> prev_end == 0,
            forall|p: int|
                #![trigger format_in(out@, p)]
                format_in(out@, p) == (if p < end {
                    format_in(middle, p)
                } else {
                    format_in(runs@.take(j as int), p)
                }),
            max_end(out@) <= (if end > max_end(runs@.take(j as int)) {
                end as int
            } else {
                max_end(runs@.take(j as int))
            }),
        decreases runs.len() - j,
    {
        let r = runs[j].copy_run();
        let ghost old_out = out@;
        proof {
            assert(runs@.take(j as int + 1) =~= runs@.take(j as int).push(r));
            assert forall|p: int| #[trigger] format_in(runs@.take(j as int + 1), p) == (if covers(r, p) {
                r.format
            } else {
                format_in(runs@.take(j as int), p)
            }) by {
                lemma_format_in_push(runs@.take(j as int), r, p);
            }
            lemma_max_end_push(runs@.take(j as int), r);
            if j > 0 {
                assert(runs@[j - 1].range.end <= runs@[j as int].range.start);
            }
        }
        if r.range.end > end {
            let b = if r.range.start > end {
                r.range.start
            } else {
                end
            };
            let c = StyleRun::span(b, r.range.end, r.format);
            out.push(c);
            proof {
                assert(out@ =~= old_out.push(c));
                assert forall|p: int| #[trigger] format_in(out@, p) == (if p < end {
                    format_in(middle, p)
                } else {
                    format_in(runs@.take(j as int + 1), p)
                }) by {
                    lemma_format_in_push(old_out, c, p);
                }
                lemma_max_end_push(old_out, c);
                assert forall|a: int, b2: int| 0 <= a < b2 < out@.len() implies (#[trigger] out@[a]).range.end
                    <= (#[trigger] out@[b2]).range.start by {
                    assert(old_out[a] == out@[a]);
                    if b2 < out@.len() - 1 {
                        assert(old_out[b2] == out@[b2]);
                    }
                }
            }
        }
        proof {
            prev_end = r.range.end as int;
        }
        j = j + 1;
    }
    proof {
        assert forall|p: int| #[trigger] format_in(out@, p) == (if start <= p < end {
            f
        } else {
            format_in(runs@, p)
        }) by {
            if p < end {
            } else {
            }
        }
    }
    let ghost pre_merge = out@;
    let merged = merge_touching(out);
    merged
}

/// Where position `x` lands when positions `start..end` are removed.
pub open spec fn cut_pos(x: int, start: int, end: int) -> int {
    if x <= start {
        x
    } else if x <= end {
        start
    } else {
        x - (end - start)
    }
}

/// The runs after `len` positions are inserted at `pos`: runs from `pos` on move up by `len`,
/// and a run that holds positions on both sides of `pos` stretches over the inserted ones.
pub fn shift_for_insert<F: RunFormat>(runs: &Vec<StyleRun<F>>, pos: usize, len: usize) -> (out: Vec<
    StyleRun<F>,
>)
    requires
        runs_wf(runs@),
        max_end(runs@) + len <= usize::MAX,
    ensures
        runs_wf(out@),
        forall|p: int|
            #![trigger format_in(out@, p)]
            format_in(out@, p) == (if p < pos {
                format_in(runs@, p)
            } else if p < pos + len {
                spanning_format(runs@, pos as int)
            } else {
                format_in(runs@, p - len)
            }),
        max_end(out@) <= max_end(runs@) + len,
{
    let mut out: Vec<StyleRun<F>> = Vec::new();
    let mut i: usize = 0;
    while i < runs.len()
        invariant
            runs_wf(runs@),
            max_end(runs@) + len <= usize::MAX,
            i <= runs.len(),
            out@.len() == i,
            runs_wf(out@),
            forall|k: int|
                0 <= k < i ==> (#[trigger] out@[k]).range.end == (if runs@[k].range.end > pos {
                    runs@[k].range.end + len
                } else {
                    runs@[k].range.end as int
                }),
            forall|p: int|
                #![trigger format_in(out@, p)]
                format_in(out@, p) == (if p < pos {
                    format_in(runs@.take(i as int), p)
                } else if p < pos + len {
                    spanning_format(runs@.take(i as int), pos as int)
                } else {
                    format_in(runs@.take(i as int), p - len)
                }),
            max_end(out@) <= max_end(runs@.take(i as int)) + len,
        decreases runs.len() - i,
    {
        let r = runs[i].copy_run();
        let ghost old_out = out@;
        proof {
            lemma_max_end_bounds(runs@, i as int);
            assert(runs@.take(i as int + 1) =~= runs@.take(i as int).push(r));
            assert forall|p: int| #[trigger] format_in(runs@.take(i as int + 1), p) == (if covers(r, p) {
                r.format
            } else {
                format_in(runs@.take(i as int), p)
            }) by {
                lemma_format_in_push(runs@.take(i as int), r, p);
            }
            lemma_format_in_push(runs@.take(i as int), r, pos as int);
            lemma_max_end_push(runs@.take(i as int), r);
            lemma_max_end_nonneg(runs@.take(i as int));
        }
        let c = if r.range.start >= pos {
            StyleRun::span(r.range.start + len, r.range.end + len, r.format)
        } else if r.range.end > pos {
            StyleRun::span(r.range.start, r.range.end + len, r.format)
        } else {
            r
        };
        out.push(c);
        proof {
            assert(out@ =~= old_out.push(c));
            assert forall|p: int| #[trigger] format_in(out@, p) == (if p < pos {
                format_in(runs@.take(i as int + 1), p)
            } else if p < pos + len {
                spanning_format(runs@.take(i as int + 1), pos as int)
            } else {
                format_in(runs@.take(i as int + 1), p - len)
            }) by {
                lemma_format_in_push(old_out, c, p);
            }
            lemma_max_end_push(old_out, c);
            assert forall|a: int, b: int| 0 <= a < b < out@.len() implies (#[trigger] out@[a]).range.end
                <= (#[trigger] out@[b]).range.start by {
                assert(runs@[a].range.end <= runs@[b].range.start);
                assert(old_out[a] == out@[a]);
                if b < out@.len() - 1 {
                    assert(old_out[b] == out@[b]);
                }
            }
        }
        i = i + 1;
    }
    assert(runs@.take(runs@.len() as int) =~= runs@);
    out
}

/// The runs after positions `start..end` are removed: each run is cut to what remains of it
/// and moved down past the removed positions; runs left empty are dropped.
pub fn cut_range<F: RunFormat>(runs: &Vec<StyleRun<F>>, start: usize, end: usize) -> (out: Vec<
    StyleRun<F>,
>)
    requires
        runs_wf(runs@),
        start <= end,
    ensures
        runs_wf(out@),
        forall|p: int|
            #![trigger format_in(out@, p)]
            format_in(out@, p) == (if p < start {
                format_in(runs@, p)
            } else {
                format_in(runs@, p + (end - start))
            }),
        max_end(out@) <= max_end(runs@),
        max_end(out@) <= cut_pos(max_end(runs@), start as int, end as int),
{
    let mut out: Vec<StyleRun<F>> = Vec::new();
    let len = end - start;
    let mut i: usize = 0;
    let ghost mut prev_end: int = 0;
    while i < runs.len()
        invariant
            runs_wf(runs@),
            start <= end,
            len == end - start,
            i <= runs.len(),
            runs_wf(out@),
            i > 0 ==> prev_end == runs@[i - 1].range.end,
            i == 0 ==> prev_end == 0,
            forall|k: int|
                0 <= k < out@.len() ==> (#[trigger] out@[k]).range.end <= cut_pos(
                    prev_end,
                    start as int,
                    end as int,
                ),
            forall|p: int|
                #![trigger format_in(out@, p)]
                format_in(out@, p) == (if p < start {
                    format_in(runs@.take(i as int), p)
                } else {
                    format_in(runs@.take(i as int), p + len)
                }),
            max_end(out@) <= max_end(runs@.take(i as int)),
        decreases runs.len() - i,
    {
        let r = runs[i].copy_run();
        let ghost old_out = out@;
        proof {
            assert(runs@.take(i as int + 1) =~= runs@.take(i as int).push(r));
            assert forall|p: int| #[trigger] format_in(runs@.take(i as int + 1), p) == (if covers(r, p) {
                r.format
            } else {
                format_in(runs@.take(i as int), p)
            }) by {
                lemma_format_in_push(runs@.take(i as int), r, p);
            }
            lemma_max_end_push(runs@.take(i as int), r);
            lemma_max_end_nonneg(runs@.take(i as int));
            if i > 0 {
                assert(runs@[i - 1].range.end <= runs@[i as int].range.start);
            }
        }
        let s2 = if r.range.start <= start {
            r.range.start
        } else if r.range.start <= end {
            start
        } else {
            r.range.start - len
        };
        let e2 = if r.range.end <= start {
            r.range.end
        } else if r.range.end <= end {
            start
        } else {
            r.range.end - len
        };
        if s2 < e2 {
            let c = StyleRun::span(s2, e2, r.format);
            out.push(c);
            proof {
                assert(out@ =~= old_out.push(c));
                assert forall|p: int| #[trigger] format_in(out@, p) == (if p < start {
                    format_in(runs@.take(i as int + 1), p)
                } else {
                    format_in(runs@.take(i as int + 1), p + len)
                }) by {
                    lemma_format_in_push(old_out, c, p);
                }
                lemma_max_end_push(old_out, c);
                assert forall|a: int, b: int| 0 <= a < b < out@.len() implies (#[trigger] out@[a]).range.end
                    <= (#[trigger] out@[b]).range.start by {
                    assert(old_out[a] == out@[a]);
                    if b < out@.len() - 1 {
                        assert(old_out[b] == out@[b]);
                    }
                }
            }
        } else {
            proof {
                assert forall|p: int| #[trigger] format_in(out@, p) == (if p < start {
                    format_in(runs@.take(i as int + 1), p)
                } else {
                    format_in(runs@.take(i as int + 1), p + len)
                }) by {
                }
            }
        }
        proof {
            prev_end = r.range.end as int;
        }
        i = i + 1;
    }
    assert(runs@.take(runs@.len() as int) =~= runs@);
    proof {
        lemma_max_end_nonneg(runs@);
        if runs@.len() > 0 {
            lemma_max_end_bounds(runs@, runs@.len() - 1);
        }
        lemma_max_end_le(out@, cut_pos(max_end(runs@), start as int, end as int));
    }
    out
}

/// Whether every position of `start..end` has the format that `start` has.
pub open spec fn uniform_over<F: RunFormat>(rs: Seq<StyleRun<F>>, start: int, end: int) -> bool {
    forall|p: int| start <= p < end ==> #[trigger] format_in(rs, p) == format_in(rs, start)
}

/// The format of positions `start..end` when it is the same throughout, else `None`.
/// An empty range gives the format at `start`.
pub fn uniform_format<F: RunFormat>(runs: &Vec<StyleRun<F>>, start: usize, end: usize) -> (r: Option<F>)
    requires
        runs_wf(runs@),
    ensures
        r == (if uniform_over(runs@, start as int, end as int) {
            Some(format_in(runs@, start as int))
        } else {
            None
        }),
{
    let first = format_at_pos(runs, start);
    if start >= end {
        return Some(first);
    }
    let plain = F::plain();
    let mut covered: usize = start;
    let mut i: usize = 0;
    while i < runs.len() && runs[i].range.start < end
        invariant
            runs_wf(runs@),
            start < end,
            start <= covered <= end,
            i <= runs.len(),
            first == format_in(runs@, start as int),
            plain == F::spec_plain(),
            forall|p: int| start <= p < covered ==> #[trigger] format_in(runs@, p) == first,
            forall|k: int| 0 <= k < i ==> (#[trigger] runs@[k]).range.end <= covered || covered == end,
        decreases runs.len() - i,
    {
        let rs = runs[i].range.start;
        let re = runs[i].range.end;
        if re > start {
            // The run overlaps the range.
            if covered < rs {
                proof {
                    assert forall|k: int| 0 <= k < runs@.len() implies !covers(
                        #[trigger] runs@[k],
                        covered as int,
                    ) by {
                        if k > i {
                            assert(runs@[i as int].range.end <= runs@[k].range.start);
                        }
                    }
                    lemma_format_in_uncovered(runs@, covered as int);
                }
                if !plain.same(&first) {
                    return None;
                }
                proof {
                    assert forall|p: int| covered <= p < rs implies #[trigger] format_in(runs@, p)
                        == first by {
                        assert forall|k: int| 0 <= k < runs@.len() implies !covers(
                            #[trigger] runs@[k],
                            p,
                        ) by {
                            if k > i {
                                assert(runs@[i as int].range.end <= runs@[k].range.start);
                            }
                        }
                        lemma_format_in_uncovered(runs@, p);
                    }
                }
            }
            let f = runs[i].format;
            let q: usize = if rs > start {
                rs
            } else {
                start
            };
            proof {
                lemma_format_in_covered(runs@, i as int, q as int);
            }
            if !f.same(&first) {
                return None;
            }
            let new_covered = if re < end {
                re
            } else {
                end
            };
            proof {
                assert forall|p: int| start <= p < new_covered implies #[trigger] format_in(runs@, p)
                    == first by {
                    if p >= rs && p < re {
                        lemma_format_in_covered(runs@, i as int, p);
                    }
                }
            }
            covered = new_covered;
        }
        i = i + 1;
    }
    if covered < end {
        proof {
            assert forall|k: int| 0 <= k < runs@.len() implies !covers(#[trigger] runs@[k], covered as int) by {
                if k > i && i < runs@.len() {
                    assert(runs@[i as int].range.end <= runs@[k].range.start);
                }
            }
            lemma_format_in_uncovered(runs@, covered as int);
        }
        if !plain.same(&first) {
            return None;
        }
        proof {
            assert forall|p: int| covered <= p < end implies #[trigger] format_in(runs@, p) == first by {
                assert forall|k: int| 0 <= k < runs@.len() implies !covers(#[trigger] runs@[k], p) by {
                    if k > i && i < runs@.len() {
                        assert(runs@[i as int].range.end <= runs@[k].range.start);
                    }
                }
                lemma_format_in_uncovered(runs@, p);
            }
        }
    }
    Some(first)
}

/// A copy of a list of runs.
pub fn copy_runs<F: RunFormat>(runs: &Vec<StyleRun<F>>) -> (out: Vec<StyleRun<F>>)
    ensures
        out@ == runs@,
{
    let mut out: Vec<StyleRun<F>> = Vec::new();
    let mut i: usize = 0;
    while i < runs.len()
        invariant
            i <= runs.len(),
            out@ == runs@.take(i as int),
        decreases runs.len() - i,
    {
        out.push(runs[i].copy_run());
        assert(runs@.take(i as int + 1) =~= runs@.take(i as int).push(runs@[i as int]));
        i = i + 1;
    }
    assert(runs@.take(runs@.len() as int) =~= runs@);
    out
}

} // verus!
