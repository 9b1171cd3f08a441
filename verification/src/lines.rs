//! Lines (paragraphs) of text, delimited by newline bytes.

use vstd::prelude::*;

verus! {

/// The byte offset at which each line starts: 0, and one past every newline byte.
pub open spec fn line_starts(b: Seq<u8>) -> Seq<int>
    decreases b.len(),
{
    if b.len() == 0 {
        seq![0]
    } else {
        let prev = line_starts(b.drop_last());
        if b.last() == 10 {
            prev.push(b.len() as int)
        } else {
            prev
        }
    }
}

/// Start offsets of lines are increasing, start at 0, stay within the text, and each
/// but the first follows a newline byte.
pub proof fn lemma_line_starts_shape(b: Seq<u8>)
    ensures
        line_starts(b).len() >= 1,
        line_starts(b)[0] == 0,
        forall|k: int| 0 <= k < line_starts(b).len() ==> 0 <= #[trigger] line_starts(b)[k] <= b.len(),
        forall|j: int, k: int|
            0 <= j < k < line_starts(b).len() ==> #[trigger] line_starts(b)[j] < #[trigger] line_starts(
                b,
            )[k],
        forall|k: int| 0 < k < line_starts(b).len() ==> b[#[trigger] line_starts(b)[k] - 1] == 10,
    decreases b.len(),
{
    if b.len() > 0 {
        lemma_line_starts_shape(b.drop_last());
        let prev = line_starts(b.drop_last());
        assert forall|k: int| 0 < k < prev.len() implies b[#[trigger] prev[k] - 1] == 10 by {
            assert(b.drop_last()[prev[k] - 1] == 10);
        }
    }
}

/// Line starts of a prefix are a prefix of the line starts.
pub proof fn lemma_line_starts_prefix(b: Seq<u8>, i: int, j: int)
    requires
        0 <= i <= j <= b.len(),
    ensures
        line_starts(b.take(i)).len() <= line_starts(b.take(j)).len(),
        forall|k: int|
            0 <= k < line_starts(b.take(i)).len() ==> #[trigger] line_starts(b.take(i))[k]
                == line_starts(b.take(j))[k],
    decreases j - i,
{
    if i < j {
        lemma_line_starts_prefix(b, i, j - 1);
        assert(b.take(j).drop_last() =~= b.take(j - 1));
    }
}

/// Stepping the line starts by one byte.
pub proof fn lemma_line_starts_step(b: Seq<u8>, i: int)
    requires
        0 <= i < b.len(),
    ensures
        line_starts(b.take(i + 1)) == (if b[i] == 10 {
            line_starts(b.take(i)).push(i + 1)
        } else {
            line_starts(b.take(i))
        }),
{
    assert(b.take(i + 1).drop_last() =~= b.take(i));
    assert(b.take(i + 1).last() == b[i]);
}

/// The number of lines of `b`: one more than its newline bytes.
pub fn count_lines(b: &[u8]) -> (r: usize)
    requires
        b@.len() < usize::MAX,
    ensures
        r == line_starts(b@).len(),
{
    let mut count: usize = 1;
    let mut i: usize = 0;
    while i < b.len()
        invariant
            i <= b@.len(),
            b@.len() < usize::MAX,
            count == line_starts(b@.take(i as int)).len(),
            count <= i + 1,
        decreases b.len() - i,
    {
        proof {
            lemma_line_starts_step(b@, i as int);
        }
        if b[i] == 10 {
            count = count + 1;
        }
        i = i + 1;
    }
    assert(b@.take(b@.len() as int) =~= b@);
    count
}

/// The index of the line holding byte offset `pos` of `b` (the number of newline
/// bytes before it).
pub fn line_of_offset(b: &[u8], pos: usize) -> (r: usize)
    requires
        pos <= b@.len(),
    ensures
        r + 1 == line_starts(b@.take(pos as int)).len(),
{
    let mut count: usize = 0;
    let mut i: usize = 0;
    while i < pos
        invariant
            i <= pos <= b@.len(),
            count + 1 == line_starts(b@.take(i as int)).len(),
            count <= i,
        decreases pos - i,
    {
        proof {
            lemma_line_starts_step(b@, i as int);
        }
        if b[i] == 10 {
            count = count + 1;
        }
        i = i + 1;
    }
    proof {
        assert(b@.take(pos as int).take(pos as int) =~= b@.take(pos as int));
    }
    count
}

/// The byte range of line `idx` of `b`, including its newline byte, if there is such a line.
pub fn line_range(b: &[u8], idx: usize) -> (r: Option<std::ops::Range<usize>>)
    ensures
        match r {
            Some(rg) => idx < line_starts(b@).len() && rg.start == line_starts(b@)[idx as int]
                && rg.end == (if idx + 1 < line_starts(b@).len() {
                line_starts(b@)[idx + 1]
            } else {
                b@.len() as int
            }),
            None => idx >= line_starts(b@).len(),
        },
{
    let mut start: usize = 0;
    let mut current: usize = 0;
    let mut i: usize = 0;
    while i < b.len()
        invariant
            i <= b@.len(),
            current + 1 == line_starts(b@.take(i as int)).len(),
            start == line_starts(b@.take(i as int)).last(),
            current <= idx,
            start <= i,
        decreases b.len() - i,
    {
        proof {
            lemma_line_starts_step(b@, i as int);
            lemma_line_starts_shape(b@.take(i as int));
        }
        if b[i] == 10 {
            if current == idx {
                proof {
                    lemma_line_starts_prefix(b@, i as int + 1, b@.len() as int);
                    assert(b@.take(b@.len() as int) =~= b@);
                    assert(line_starts(b@.take(i as int + 1))[idx as int] == start);
                    assert(line_starts(b@.take(i as int + 1))[idx + 1] == i + 1);
                }
                return Some(std::ops::Range { start, end: i + 1 });
            }
            current = current + 1;
            start = i + 1;
        }
        i = i + 1;
    }
    assert(b@.take(b@.len() as int) =~= b@);
    if current == idx {
        Some(std::ops::Range { start, end: b.len() })
    } else {
        None
    }
}

/// Every newline is followed by a line start: a newline at `p` puts `p + 1` among the line
/// starts.
pub proof fn lemma_newline_starts_line(b: Seq<u8>, p: int)
    requires
        0 <= p < b.len(),
        b[p] == 10,
    ensures
        line_starts(b).contains(p + 1),
    decreases b.len(),
{
    let prev = line_starts(b.drop_last());
    if p == b.len() - 1 {
        assert(line_starts(b).last() == p + 1);
        assert(line_starts(b)[line_starts(b).len() - 1] == p + 1);
    } else {
        assert(b.drop_last()[p] == 10);
        lemma_newline_starts_line(b.drop_last(), p);
        let k = choose|k: int| 0 <= k < prev.len() && prev[k] == p + 1;
        assert(line_starts(b)[k] == p + 1);
    }
}

/// The number of newlines in `b`.
pub open spec fn newline_count(b: Seq<u8>) -> int
    decreases b.len(),
{
    if b.len() == 0 {
        0
    } else {
        newline_count(b.drop_last()) + if b.last() == 10 { 1int } else { 0 }
    }
}

/// There is one line more than there are newlines.
pub proof fn lemma_line_count(b: Seq<u8>)
    ensures
        line_starts(b).len() == newline_count(b) + 1,
    decreases b.len(),
{
    if b.len() > 0 {
        lemma_line_count(b.drop_last());
    }
}

} // verus!
