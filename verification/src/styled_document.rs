//! A styled text document: text with character-level formatting over byte
//! ranges and paragraph-level formatting over paragraph indices.

use vstd::prelude::*;
use vstd::utf8::*;

use crate::char_format::{
    BlockFormat, BlockRun, CharFormat, FormatRun, HorizontalAlign, char_styled, has_flags,
    plain_char_format, with_flags,
};
use crate::lines::{
    count_lines, lemma_line_count, lemma_line_starts_prefix, lemma_line_starts_shape,
    lemma_newline_starts_line, line_of_offset,
    line_range, line_starts, newline_count,
};
use crate::style_runs::{
    RunFormat,
    StyleRun, copy_runs, covers, cut_pos, cut_range, format_at_pos, format_in, lemma_format_in_covered,
    lemma_format_in_uncovered, max_end, runs_merged, runs_wf, set_range, shift_for_insert,
    uniform_format, uniform_over,
};
use crate::utf8_text::{byte_slice, bytes_of, joined, lemma_newline_bytes, lines_joined, lemma_boundary_after_ascii, lemma_boundary_in_suffix, lemma_encode_concat, lemma_encode_injective, owned, splice_in};

verus! {

broadcast use vstd::utf8::group_utf8_lib;

/// A styled text document.
///
/// The document holds its text, format runs over byte ranges (sorted, disjoint, styled),
/// and block runs over paragraph indices (the same shape). Positions no run covers have
/// the default format.
#[derive(Debug)]
pub struct StyledDocument {
    text: String,
    format_runs: Vec<FormatRun>,
    block_runs: Vec<BlockRun>,
}

impl StyledDocument {
    #[verifier::type_invariant]
    spec fn inv(self) -> bool {
        &&& runs_wf(self.format_runs@)
        &&& runs_wf(self.block_runs@)
    }

    /// Every document's format runs are well formed: non-empty, styled, in order and apart.
    pub fn check_runs(&self)
        ensures
            runs_wf(self.spec_format_runs()),
    {
        proof {
            use_type_invariant(self);
        }
    }

    /// The text, as characters.
    pub closed spec fn spec_text(&self) -> Seq<char> {
        self.text@
    }

    /// The text, as UTF-8 bytes.
    pub open spec fn spec_bytes(&self) -> Seq<u8> {
        bytes_of(self.spec_text())
    }

    /// The format runs.
    pub closed spec fn spec_format_runs(&self) -> Seq<FormatRun> {
        self.format_runs@
    }

    /// The block runs.
    pub closed spec fn spec_block_runs(&self) -> Seq<BlockRun> {
        self.block_runs@
    }

    /// The character format at byte position `p`.
    pub open spec fn spec_format(&self, p: int) -> CharFormat {
        format_in(self.spec_format_runs(), p)
    }

    /// The block format of paragraph `i`.
    pub open spec fn spec_block_format(&self, i: int) -> BlockFormat {
        format_in(self.spec_block_runs(), i)
    }

    /// The largest byte position any format run reaches.
    pub open spec fn spec_run_bound(&self) -> int {
        max_end(self.spec_format_runs())
    }

    /// Create a new empty document.
    pub fn new() -> (r: Self)
        ensures
            r.spec_text() == Seq::<char>::empty(),
            r.spec_format_runs() == Seq::<FormatRun>::empty(),
            r.spec_block_runs() == Seq::<BlockRun>::empty(),
    {
        StyledDocument { text: String::new(), format_runs: Vec::new(), block_runs: Vec::new() }
    }

    /// Create a document from plain text.
    pub fn from_text(text: &str) -> (r: Self)
        ensures
            r.spec_text() == text@,
            r.spec_format_runs() == Seq::<FormatRun>::empty(),
            r.spec_block_runs() == Seq::<BlockRun>::empty(),
    {
        StyledDocument { text: owned(text), format_runs: Vec::new(), block_runs: Vec::new() }
    }

    /// Get the plain text content.
    pub fn text(&self) -> (r: &str)
        ensures
            r@ == self.spec_text(),
    {
        self.text.as_str()
    }

    /// Get the text length in bytes.
    pub fn len(&self) -> (r: usize)
        ensures
            r == self.spec_bytes().len(),
    {
        self.text.as_str().as_bytes().len()
    }

    /// Check if the document is empty.
    pub fn is_empty(&self) -> (r: bool)
        ensures
            r == (self.spec_text().len() == 0),
    {
        self.text.as_str().is_empty()
    }

    /// Get the format runs: sorted, disjoint, non-empty and styled.
    pub fn format_runs(&self) -> (r: &[FormatRun])
        ensures
            r@ == self.spec_format_runs(),
            runs_wf(r@),
    {
        proof {
            use_type_invariant(self);
        }
        self.format_runs.as_slice()
    }

    /// Get the block runs: sorted, disjoint, non-empty and styled.
    pub fn block_runs(&self) -> (r: &[BlockRun])
        ensures
            r@ == self.spec_block_runs(),
            runs_wf(r@),
    {
        proof {
            use_type_invariant(self);
        }
        self.block_runs.as_slice()
    }

    /// Set the text content, clearing all formatting.
    pub fn set_text(&mut self, text: &str)
        ensures
            final(self).spec_text() == text@,
            final(self).spec_format_runs() == Seq::<FormatRun>::empty(),
            final(self).spec_block_runs() == Seq::<BlockRun>::empty(),
    {
        *self = StyledDocument { text: owned(text), format_runs: Vec::new(), block_runs: Vec::new() };
    }

    /// Clear the document.
    pub fn clear(&mut self)
        ensures
            final(self).spec_text() == Seq::<char>::empty(),
            final(self).spec_format_runs() == Seq::<FormatRun>::empty(),
            final(self).spec_block_runs() == Seq::<BlockRun>::empty(),
    {
        *self = StyledDocument::new();
    }

    /// Get the format at a specific byte position.
    pub fn format_at(&self, pos: usize) -> (r: CharFormat)
        ensures
            r == self.spec_format(pos as int),
    {
        proof {
            use_type_invariant(self);
        }
        format_at_pos(&self.format_runs, pos)
    }

    /// Set the format for a byte range of text. Runs of the same format that touch are
    /// merged.
    pub fn set_format(&mut self, range: std::ops::Range<usize>, format: CharFormat)
        ensures
            final(self).spec_text() == old(self).spec_text(),
            final(self).spec_block_runs() == old(self).spec_block_runs(),
            forall|p: int|
                #![trigger final(self).spec_format(p)]
                final(self).spec_format(p) == (if range.start <= p < range.end {
                    format
                } else {
                    old(self).spec_format(p)
                }),
            range.start < range.end ==> runs_merged(final(self).spec_format_runs()),
            range.start >= range.end ==> final(self).spec_format_runs() == old(
                self,
            ).spec_format_runs(),
            final(self).spec_run_bound() <= (if range.end > old(self).spec_run_bound() {
                range.end as int
            } else {
                old(self).spec_run_bound()
            }),
    {
        proof {
            use_type_invariant(&*self);
        }
        if range.start >= range.end {
            return;
        }
        let runs = set_range(&self.format_runs, range.start, range.end, format);
        self.format_runs = runs;
    }

    /// Insert text at a byte position with a specific format: the new bytes carry `format`,
    /// runs after the position move up, and runs of the same format that touch are merged.
    pub fn insert(&mut self, pos: usize, text: &str, format: CharFormat)
        requires
            is_char_boundary(old(self).spec_bytes(), pos as int),
            old(self).spec_run_bound() + bytes_of(text@).len() <= usize::MAX,
        ensures
            final(self).spec_bytes() == old(self).spec_bytes().take(pos as int) + bytes_of(text@)
                + old(self).spec_bytes().skip(pos as int),
            final(self).spec_block_runs() == old(self).spec_block_runs(),
            forall|p: int|
                #![trigger final(self).spec_format(p)]
                final(self).spec_format(p) == (if p < pos {
                    old(self).spec_format(p)
                } else if p < pos + bytes_of(text@).len() {
                    format
                } else {
                    old(self).spec_format(p - bytes_of(text@).len())
                }),
            final(self).spec_run_bound() <= (if pos > old(self).spec_run_bound() {
                pos as int
            } else {
                old(self).spec_run_bound()
            }) + bytes_of(text@).len(),
            bytes_of(text@).len() > 0 ==> runs_merged(final(self).spec_format_runs()),
            inserted_into(*old(self), *final(self), pos as int, text@, format),
    {
        proof {
            use_type_invariant(&*self);
        }
        let len = text.as_bytes().len();
        if len == 0 {
            proof {
                assert(bytes_of(old(self).spec_text()).take(pos as int) + bytes_of(text@) + bytes_of(
                    old(self).spec_text(),
                ).skip(pos as int) =~= bytes_of(old(self).spec_text()));
            }
            return;
        }
        let new_text = splice_in(self.text.as_str(), pos, text);
        let total = new_text.as_str().as_bytes().len();
        assert(total >= pos + len);
        self.text = new_text;
        let shifted = shift_for_insert(&self.format_runs, pos, len);
        let end = pos + len;
        let runs = set_range(&shifted, pos, end, format);
        self.format_runs = runs;
    }

    /// Delete the bytes in a range and return them as a string. Runs lose the deleted
    /// bytes and move down past them; runs left empty are dropped.
    pub fn delete(&mut self, range: std::ops::Range<usize>) -> (deleted: String)
        requires
            range.start < range.end ==> is_char_boundary(old(self).spec_bytes(), range.start as int)
                && is_char_boundary(old(self).spec_bytes(), range.end as int),
        ensures
            range.start >= range.end ==> deleted@ == Seq::<char>::empty() && *final(self)
                == *old(self),
            range.start < range.end ==> {
                &&& bytes_of(deleted@) == old(self).spec_bytes().subrange(
                    range.start as int,
                    range.end as int,
                )
                &&& final(self).spec_bytes() == old(self).spec_bytes().take(range.start as int) + old(
                    self,
                ).spec_bytes().skip(range.end as int)
                &&& forall|p: int|
                    #![trigger final(self).spec_format(p)]
                    final(self).spec_format(p) == (if p < range.start {
                        old(self).spec_format(p)
                    } else {
                        old(self).spec_format(p + (range.end - range.start))
                    })
            },
            final(self).spec_block_runs() == old(self).spec_block_runs(),
            final(self).spec_run_bound() <= old(self).spec_run_bound(),
            range.start < range.end ==> final(self).spec_run_bound() <= cut_pos(
                old(self).spec_run_bound(),
                range.start as int,
                range.end as int,
            ),
            range.start < range.end ==> deleted_from(
                *old(self),
                *final(self),
                range.start as int,
                range.end as int,
                deleted@,
            ),
    {
        proof {
            use_type_invariant(&*self);
        }
        if range.start >= range.end {
            return String::new();
        }
        let (head, rest) = self.text.as_str().split_at(range.start);
        proof {
            lemma_encode_concat(head@, rest@);
            assert(bytes_of(self.text@) =~= bytes_of(head@) + bytes_of(rest@));
            lemma_encode_injective(head@ + rest@, self.text@);
            assert(bytes_of(rest@) =~= bytes_of(self.text@).skip(range.start as int));
            lemma_boundary_in_suffix(head@, rest@, range.end - range.start);
        }
        let (mid, tail) = rest.split_at(range.end - range.start);
        let deleted = owned(mid);
        let mut new_text = owned(head);
        vstd::string::StringExecFns::append(&mut new_text, tail);
        proof {
            lemma_encode_concat(head@, tail@);
            assert(bytes_of(rest@) =~= bytes_of(mid@) + bytes_of(tail@));
            assert(bytes_of(mid@) =~= bytes_of(self.text@).subrange(
                range.start as int,
                range.end as int,
            ));
            assert(bytes_of(tail@) =~= bytes_of(self.text@).skip(range.end as int));
        }
        self.text = new_text;
        let runs = cut_range(&self.format_runs, range.start, range.end);
        self.format_runs = runs;
        deleted
    }

    /// Count the paragraphs: one more than the newlines.
    pub fn paragraph_count(&self) -> (r: usize)
        requires
            self.spec_bytes().len() < usize::MAX,
        ensures
            r == line_starts(self.spec_bytes()).len(),
    {
        count_lines(self.text.as_str().as_bytes())
    }

    /// The byte range of a paragraph, including its trailing newline if any, or `None`
    /// when there is no such paragraph.
    pub fn paragraph_range(&self, para_idx: usize) -> (r: Option<std::ops::Range<usize>>)
        ensures
            match r {
                Some(rg) => para_idx < line_starts(self.spec_bytes()).len() && rg.start
                    == line_starts(self.spec_bytes())[para_idx as int] && rg.end == (if para_idx + 1
                    < line_starts(self.spec_bytes()).len() {
                    line_starts(self.spec_bytes())[para_idx + 1]
                } else {
                    self.spec_bytes().len() as int
                }),
                None => para_idx >= line_starts(self.spec_bytes()).len(),
            },
    {
        line_range(self.text.as_str().as_bytes(), para_idx)
    }

    /// The index of the paragraph holding a byte position (positions past the end count
    /// as the end).
    pub fn paragraph_at(&self, pos: usize) -> (r: usize)
        requires
            is_char_boundary(
                self.spec_bytes(),
                if pos < self.spec_bytes().len() {
                    pos as int
                } else {
                    self.spec_bytes().len() as int
                },
            ),
        ensures
            r + 1 == line_starts(
                self.spec_bytes().take(
                    if pos < self.spec_bytes().len() {
                        pos as int
                    } else {
                        self.spec_bytes().len() as int
                    },
                ),
            ).len(),
    {
        let b = self.text.as_str().as_bytes();
        let p = if pos < b.len() {
            pos
        } else {
            b.len()
        };
        line_of_offset(b, p)
    }

    /// Get the block format of a paragraph.
    pub fn block_format_at(&self, para_idx: usize) -> (r: BlockFormat)
        ensures
            r == self.spec_block_format(para_idx as int),
    {
        proof {
            use_type_invariant(self);
        }
        format_at_pos(&self.block_runs, para_idx)
    }

    /// Set the block format for a range of paragraphs. Runs of the same format that touch
    /// are merged.
    pub fn set_block_format(&mut self, range: std::ops::Range<usize>, format: BlockFormat)
        ensures
            final(self).spec_text() == old(self).spec_text(),
            final(self).spec_format_runs() == old(self).spec_format_runs(),
            forall|i: int|
                #![trigger final(self).spec_block_format(i)]
                final(self).spec_block_format(i) == (if range.start <= i < range.end {
                    format
                } else {
                    old(self).spec_block_format(i)
                }),
            range.start < range.end ==> runs_merged(final(self).spec_block_runs()),
            range.start >= range.end ==> final(self).spec_block_runs() == old(
                self,
            ).spec_block_runs(),
    {
        proof {
            use_type_invariant(&*self);
        }
        if range.start >= range.end {
            return;
        }
        let runs = set_range(&self.block_runs, range.start, range.end, format);
        self.block_runs = runs;
    }

    /// Set the alignment for a range of paragraphs.
    pub fn set_alignment(&mut self, range: std::ops::Range<usize>, alignment: HorizontalAlign)
        ensures
            final(self).spec_text() == old(self).spec_text(),
            final(self).spec_format_runs() == old(self).spec_format_runs(),
            forall|i: int|
                #![trigger final(self).spec_block_format(i)]
                final(self).spec_block_format(i) == (if range.start <= i < range.end {
                    BlockFormat { alignment }
                } else {
                    old(self).spec_block_format(i)
                }),
    {
        self.set_block_format(range, BlockFormat::new().with_alignment(alignment));
    }
}

/// The paragraphs split the text at its newlines: there is one paragraph more than there
/// are newlines; the first starts at 0, each starts where the one before ends, and the last
/// ends at the end of the text; every paragraph but the last ends with a newline, and no
/// paragraph holds a newline anywhere else.
pub proof fn law_paragraphs_split_at_newlines(doc: StyledDocument)
    ensures
        ({
            let b = doc.spec_bytes();
            let ls = line_starts(b);
            let n = ls.len();
            &&& n == newline_count(b) + 1
            &&& ls[0] == 0
            &&& para_end(b, n - 1) == b.len()
            &&& forall|i: int| 0 <= i < n - 1 ==> #[trigger] para_end(b, i) == ls[i + 1]
            &&& forall|i: int| 0 <= i < n ==> ls[i] <= #[trigger] para_end(b, i) <= b.len()
            &&& forall|i: int| 0 <= i < n - 1 ==> b[#[trigger] para_end(b, i) - 1] == 10
            &&& forall|i: int, p: int|
                0 <= i < n && ls[i] <= p && p < #[trigger] para_end(b, i) && !(i < n - 1 && p == para_end(b, i) - 1)
                    ==> #[trigger] b[p] != 10
        }),
{
    let b = doc.spec_bytes();
    let ls = line_starts(b);
    let n = ls.len();
    lemma_line_count(b);
    lemma_line_starts_shape(b);
    assert forall|i: int| 0 <= i < n ==> ls[i] <= #[trigger] para_end(b, i) <= b.len() by {
        if 0 <= i && i + 1 < n {
            assert(ls[i] < ls[i + 1]);
        }
    }
    assert forall|i: int, p: int|
        0 <= i < n && ls[i] <= p && p < #[trigger] para_end(b, i) && !(i < n - 1 && p == para_end(b, i) - 1)
            implies #[trigger] b[p] != 10 by {
        if b[p] == 10 {
            lemma_newline_starts_line(b, p);
            let k = choose|k: int| 0 <= k < n && ls[k] == p + 1;
            if k <= i {
                assert(ls[k] <= ls[i]);
            } else if k > i + 1 {
                assert(ls[i + 1] < ls[k]);
            }
        }
    }
}

/// A position inside paragraph `i` (from its start up to, not including, its end; for the
/// last paragraph, up to the end of the text) is counted as in paragraph `i`: the line
/// starts up to it, which `paragraph_at` counts, number `i + 1`.
pub proof fn law_position_in_its_paragraph(doc: StyledDocument, i: int, p: int)
    requires
        0 <= i < line_starts(doc.spec_bytes()).len(),
        line_starts(doc.spec_bytes())[i] <= p,
        i + 1 < line_starts(doc.spec_bytes()).len() ==> p < line_starts(doc.spec_bytes())[i + 1],
        p <= doc.spec_bytes().len(),
    ensures
        line_starts(doc.spec_bytes().take(p)).len() == i + 1,
{
    let b = doc.spec_bytes();
    let ls = line_starts(b);
    let n = ls.len();
    let bp = b.take(p);
    let lp = line_starts(bp);
    lemma_line_starts_shape(b);
    lemma_line_starts_shape(bp);
    lemma_line_starts_prefix(b, p, b.len() as int);
    assert(b.take(b.len() as int) =~= b);
    let m = lp.len();
    // ls[i] <= p is a line start of the prefix.
    if i > 0 {
        assert(b[ls[i] - 1] == 10);
        assert(bp[ls[i] - 1] == 10);
        lemma_newline_starts_line(bp, ls[i] - 1);
    }
    let j = choose|j: int| 0 <= j < m && lp[j] == ls[i];
    assert(lp[j] == ls[j]);
    if j < i {
        assert(ls[j] < ls[i]);
    } else if j > i {
        assert(ls[i] < ls[j]);
    }
    // The last line start of the prefix lies within it, so before the next paragraph.
    assert(lp[m - 1] == ls[m - 1]);
    assert(lp[m - 1] <= p);
    if m > i + 1 {
        assert(ls[i + 1] <= ls[m - 1]);
    }
}

/// `d1` is `d0` with `text` inserted at byte `pos` in `format`, as `insert` makes it: the
/// bytes spliced in, formats after them moved up, the new bytes in `format`, paragraph
/// formats kept.
pub open spec fn inserted_into(
    d0: StyledDocument,
    d1: StyledDocument,
    pos: int,
    text: Seq<char>,
    format: CharFormat,
) -> bool {
    &&& d1.spec_bytes() == d0.spec_bytes().take(pos) + bytes_of(text) + d0.spec_bytes().skip(pos)
    &&& d1.spec_block_runs() == d0.spec_block_runs()
    &&& forall|p: int|
        #![trigger d1.spec_format(p)]
        d1.spec_format(p) == (if p < pos {
            d0.spec_format(p)
        } else if p < pos + bytes_of(text).len() {
            format
        } else {
            d0.spec_format(p - bytes_of(text).len())
        })
}

/// `d1` is `d0` with the bytes `start..end` deleted, which held `deleted`, as `delete`
/// makes it: formats after the range moved down, paragraph formats kept.
pub open spec fn deleted_from(d0: StyledDocument, d1: StyledDocument, start: int, end: int, deleted: Seq<char>) -> bool {
    &&& bytes_of(deleted) == d0.spec_bytes().subrange(start, end)
    &&& d1.spec_bytes() == d0.spec_bytes().take(start) + d0.spec_bytes().skip(end)
    &&& d1.spec_block_runs() == d0.spec_block_runs()
    &&& forall|p: int|
        #![trigger d1.spec_format(p)]
        d1.spec_format(p) == (if p < start {
            d0.spec_format(p)
        } else {
            d0.spec_format(p + (end - start))
        })
}

/// Deleting what was just inserted gives the inserted text back and leaves the document as
/// it was: the same text, the same format at every byte, the same paragraph formats.
pub proof fn law_delete_undoes_insert(
    d0: StyledDocument,
    d1: StyledDocument,
    d2: StyledDocument,
    pos: int,
    text: Seq<char>,
    format: CharFormat,
    deleted: Seq<char>,
)
    requires
        0 <= pos <= d0.spec_bytes().len(),
        inserted_into(d0, d1, pos, text, format),
        deleted_from(d1, d2, pos, pos + bytes_of(text).len(), deleted),
    ensures
        deleted == text,
        d2.spec_text() == d0.spec_text(),
        forall|p: int| #![trigger d2.spec_format(p)] d2.spec_format(p) == d0.spec_format(p),
        d2.spec_block_runs() == d0.spec_block_runs(),
{
    let b0 = d0.spec_bytes();
    let t = bytes_of(text);
    let b1 = d1.spec_bytes();
    assert(b1.subrange(pos, pos + t.len()) =~= t);
    lemma_encode_injective(deleted, text);
    assert(d2.spec_bytes() =~= b0);
    lemma_encode_injective(d2.spec_text(), d0.spec_text());
    assert forall|p: int| #![trigger d2.spec_format(p)] d2.spec_format(p) == d0.spec_format(p) by {
        if p >= pos {
            assert(d1.spec_format(p + t.len()) == d0.spec_format(p));
        } else {
            assert(d1.spec_format(p) == d0.spec_format(p));
        }
    }
}


/// Whether every byte position of `start..end` has the flags that `check` sets.
pub open spec fn range_has_flags(rs: Seq<FormatRun>, start: int, end: int, check: CharFormat) -> bool {
    forall|p: int| start <= p < end ==> has_flags(#[trigger] format_in(rs, p), check)
}

fn runs_have_flags(runs: &Vec<FormatRun>, start: usize, end: usize, check: &CharFormat) -> (r: bool)
    requires
        runs_wf(runs@),
        start < end,
    ensures
        r == range_has_flags(runs@, start as int, end as int, *check),
{
    let plain_ok = CharFormat::new().has_flags_of(check);
    let mut covered: usize = start;
    let mut i: usize = 0;
    while i < runs.len() && runs[i].range.start < end
        invariant
            runs_wf(runs@),
            start < end,
            start <= covered <= end,
            i <= runs.len(),
            plain_ok == has_flags(plain_char_format(), *check),
            forall|p: int| start <= p < covered ==> has_flags(#[trigger] format_in(runs@, p), *check),
            forall|k: int| 0 <= k < i ==> (#[trigger] runs@[k]).range.end <= covered || covered == end,
        decreases runs.len() - i,
    {
        let rs = runs[i].range.start;
        let re = runs[i].range.end;
        if re > start {
            if covered < rs {
                proof {
                    assert forall|p: int| covered <= p < rs implies #[trigger] format_in(runs@, p)
                        == plain_char_format() by {
                        assert forall|k: int| 0 <= k < runs@.len() implies !covers(
                            #[trigger] runs@[k],
                            p,
                        ) by {
                            if k > i {
                                assert(runs@[i as int].range.end <= runs@[k].range.start);
                            }
                        }
                        lemma_format_in_uncovered(runs@, p);
                    }
                    assert(format_in(runs@, covered as int) == plain_char_format());
                }
                if !plain_ok {
                    return false;
                }
            }
            let q: usize = if rs > start {
                rs
            } else {
                start
            };
            proof {
                lemma_format_in_covered(runs@, i as int, q as int);
            }
            if !runs[i].format.has_flags_of(check) {
                return false;
            }
            let new_covered = if re < end {
                re
            } else {
                end
            };
            proof {
                assert forall|p: int| start <= p < new_covered implies has_flags(
                    #[trigger] format_in(runs@, p),
                    *check,
                ) by {
                    if p >= rs && p < re {
                        lemma_format_in_covered(runs@, i as int, p);
                    } else if p >= covered && p < rs {
                        assert forall|k: int| 0 <= k < runs@.len() implies !covers(
                            #[trigger] runs@[k],
                            p,
                        ) by {
                            if k > i {
                                assert(runs@[i as int].range.end <= runs@[k].range.start);
                            }
                        }
                        lemma_format_in_uncovered(runs@, p);
                    }
                }
            }
            covered = new_covered;
        }
        i = i + 1;
    }
    if covered < end {
        proof {
            assert forall|p: int| covered <= p < end implies #[trigger] format_in(runs@, p)
                == plain_char_format() by {
                assert forall|k: int| 0 <= k < runs@.len() implies !covers(#[trigger] runs@[k], p) by {
                    if k > i && i < runs@.len() {
                        assert(runs@[i as int].range.end <= runs@[k].range.start);
                    }
                }
                lemma_format_in_uncovered(runs@, p);
            }
            assert(format_in(runs@, covered as int) == plain_char_format());
        }
        if !plain_ok {
            return false;
        }
    }
    true
}

impl StyledDocument {
    /// The format of a byte range when it is the same throughout, else `None` (mixed).
    /// An empty range gives the format at its start.
    pub fn format_for_range(&self, range: &std::ops::Range<usize>) -> (r: Option<CharFormat>)
        ensures
            r == (if uniform_over(self.spec_format_runs(), range.start as int, range.end as int) {
                Some(self.spec_format(range.start as int))
            } else {
                None
            }),
    {
        proof {
            use_type_invariant(self);
        }
        uniform_format(&self.format_runs, range.start, range.end)
    }

    /// The block format of a range of paragraphs when it is the same throughout, else
    /// `None` (mixed). An empty range gives the format of its first index.
    pub fn block_format_for_range(&self, range: &std::ops::Range<usize>) -> (r: Option<BlockFormat>)
        ensures
            r == (if uniform_over(self.spec_block_runs(), range.start as int, range.end as int) {
                Some(self.spec_block_format(range.start as int))
            } else {
                None
            }),
    {
        proof {
            use_type_invariant(self);
        }
        uniform_format(&self.block_runs, range.start, range.end)
    }

    /// Toggle the flags that `toggle` sets (bold, italic, underline, strikethrough) over a
    /// byte range: if every byte of the range has them all they are cleared, else they are
    /// set, on every byte of the range. Other attributes are kept.
    pub fn toggle_format(&mut self, range: std::ops::Range<usize>, toggle: CharFormat)
        ensures
            final(self).spec_text() == old(self).spec_text(),
            final(self).spec_block_runs() == old(self).spec_block_runs(),
            forall|p: int|
                #![trigger final(self).spec_format(p)]
                final(self).spec_format(p) == (if range.start <= p < range.end {
                    with_flags(
                        old(self).spec_format(p),
                        toggle,
                        !range_has_flags(
                            old(self).spec_format_runs(),
                            range.start as int,
                            range.end as int,
                            toggle,
                        ),
                    )
                } else {
                    old(self).spec_format(p)
                }),
            final(self).spec_run_bound() <= (if range.end > old(self).spec_run_bound() {
                range.end as int
            } else {
                old(self).spec_run_bound()
            }),
    {
        proof {
            use_type_invariant(&*self);
        }
        if range.start >= range.end {
            return;
        }
        let should_remove = runs_have_flags(&self.format_runs, range.start, range.end, &toggle);
        self.apply_format_change(range.start, range.end, &toggle, !should_remove);
    }

    /// Set, over `start..end`, each flag that `toggle` sets to `apply`, piece by piece.
    pub(crate) fn apply_format_change(&mut self, start: usize, end: usize, toggle: &CharFormat, apply: bool)
        requires
            start < end,
        ensures
            final(self).spec_text() == old(self).spec_text(),
            final(self).spec_block_runs() == old(self).spec_block_runs(),
            forall|p: int|
                #![trigger final(self).spec_format(p)]
                final(self).spec_format(p) == (if start <= p < end {
                    with_flags(old(self).spec_format(p), *toggle, apply)
                } else {
                    old(self).spec_format(p)
                }),
            final(self).spec_run_bound() <= (if end > old(self).spec_run_bound() {
                end as int
            } else {
                old(self).spec_run_bound()
            }),
    {
        proof {
            use_type_invariant(&*self);
        }
        let old_runs = copy_runs(&self.format_runs);
        let ghost bound = if end > max_end(old_runs@) {
            end as int
        } else {
            max_end(old_runs@)
        };
        let plain_mapped = CharFormat::new().with_flags_set(toggle, apply);
        let mut covered: usize = start;
        let mut i: usize = 0;
        while i < old_runs.len() && old_runs[i].range.start < end
            invariant
                runs_wf(old_runs@),
                old_runs@ == old(self).format_runs@,
                runs_wf(self.format_runs@),
                runs_wf(self.block_runs@),
                self.text@ == old(self).text@,
                self.block_runs@ == old(self).block_runs@,
                start < end,
                start <= covered <= end,
                i <= old_runs.len(),
                plain_mapped == with_flags(plain_char_format(), *toggle, apply),
                forall|p: int|
                    #![trigger format_in(self.format_runs@, p)]
                    format_in(self.format_runs@, p) == (if start <= p < covered {
                        with_flags(format_in(old_runs@, p), *toggle, apply)
                    } else {
                        format_in(old_runs@, p)
                    }),
                forall|k: int| 0 <= k < i ==> (#[trigger] old_runs@[k]).range.end <= covered || covered == end,
                i > 0 && covered > start ==> covered <= old_runs@[i - 1].range.end,
                i == 0 ==> covered == start,
                bound >= end,
                max_end(self.format_runs@) <= bound,
            decreases old_runs.len() - i,
        {
            let rs = old_runs[i].range.start;
            let re = old_runs[i].range.end;
            proof {
                if i > 0 {
                    assert(old_runs@[i - 1].range.end <= old_runs@[i as int].range.start);
                }
            }
            if re > start {
                if covered < rs {
                    proof {
                        assert forall|p: int| covered <= p < rs implies #[trigger] format_in(old_runs@, p)
                            == plain_char_format() by {
                            assert forall|k: int| 0 <= k < old_runs@.len() implies !covers(
                                #[trigger] old_runs@[k],
                                p,
                            ) by {
                                if k > i {
                                    assert(old_runs@[i as int].range.end <= old_runs@[k].range.start);
                                }
                            }
                            lemma_format_in_uncovered(old_runs@, p);
                        }
                    }
                    let runs = set_range(&self.format_runs, covered, rs, plain_mapped);
                    self.format_runs = runs;
                    covered = rs;
                }
                let q: usize = if rs > start {
                    rs
                } else {
                    start
                };
                let new_covered = if re < end {
                    re
                } else {
                    end
                };
                let mapped = old_runs[i].format.with_flags_set(toggle, apply);
                proof {
                    if i > 0 {
                        assert(old_runs@[i - 1].range.end <= old_runs@[i as int].range.start);
                    }
                    assert(covered == q);
                    assert forall|p: int| q <= p < new_covered implies #[trigger] format_in(old_runs@, p)
                        == old_runs@[i as int].format by {
                        lemma_format_in_covered(old_runs@, i as int, p);
                    }
                }
                let runs = set_range(&self.format_runs, q, new_covered, mapped);
                self.format_runs = runs;
                covered = new_covered;
            }
            i = i + 1;
        }
        if covered < end {
            proof {
                assert forall|p: int| covered <= p < end implies #[trigger] format_in(old_runs@, p)
                    == plain_char_format() by {
                    assert forall|k: int| 0 <= k < old_runs@.len() implies !covers(
                        #[trigger] old_runs@[k],
                        p,
                    ) by {
                        if k > i && i < old_runs@.len() {
                            assert(old_runs@[i as int].range.end <= old_runs@[k].range.start);
                        }
                    }
                    lemma_format_in_uncovered(old_runs@, p);
                }
            }
            let runs = set_range(&self.format_runs, covered, end, plain_mapped);
            self.format_runs = runs;
        }
    }
}

/// The spans from run `i` on over a text of `len` bytes, continuing from byte `pos`:
/// before each run the unstyled gap since `pos`, then the run cut off at the end of
/// the text; after the last run the unstyled rest.
pub open spec fn span_ranges(rs: Seq<FormatRun>, i: int, pos: int, len: int) -> Seq<
    (int, int, CharFormat),
>
    decreases rs.len() - i,
{
    if i < 0 || i >= rs.len() {
        if pos < len {
            seq![(pos, len, plain_char_format())]
        } else {
            Seq::empty()
        }
    } else {
        let r = rs[i];
        let end = if r.range.end < len {
            r.range.end as int
        } else {
            len
        };
        let gap = if pos < r.range.start {
            seq![(pos, r.range.start as int, plain_char_format())]
        } else {
            Seq::<(int, int, CharFormat)>::empty()
        };
        let body = if r.range.start < end {
            seq![(r.range.start as int, end, r.format)]
        } else {
            Seq::<(int, int, CharFormat)>::empty()
        };
        gap + body + span_ranges(rs, i + 1, end, len)
    }
}

/// The spans of formatted text: byte range and format of each.
pub open spec fn doc_span_ranges(doc: &StyledDocument) -> Seq<(int, int, CharFormat)> {
    if doc.spec_bytes().len() == 0 {
        Seq::empty()
    } else {
        span_ranges(doc.spec_format_runs(), 0, 0, doc.spec_bytes().len() as int)
    }
}

/// Every run starts within the text, and its start and its end (cut off at the end of
/// the text) fall on character boundaries.
pub open spec fn runs_on_boundaries(doc: &StyledDocument) -> bool {
    let b = doc.spec_bytes();
    forall|k: int|
        0 <= k < doc.spec_format_runs().len() ==> {
            let r = #[trigger] doc.spec_format_runs()[k];
            &&& r.range.start <= b.len()
            &&& is_char_boundary(b, r.range.start as int)
            &&& is_char_boundary(
                b,
                if r.range.end < b.len() {
                    r.range.end as int
                } else {
                    b.len() as int
                },
            )
        }
}

/// Pieces whose bytes are the successive byte ranges `s[0..k]`, starting at 0 and each
/// starting where the one before ends, join into the bytes up to where the `k`-th ends.
proof fn lemma_spans_join(b: Seq<u8>, s: Seq<(int, int, CharFormat)>, texts: Seq<Seq<char>>, k: int)
    requires
        0 <= k <= s.len(),
        texts.len() == s.len(),
        s.len() > 0 ==> s[0].0 == 0,
        forall|j: int| 0 <= j < s.len() - 1 ==> (#[trigger] s[j]).1 == s[j + 1].0,
        forall|j: int| 0 <= j < s.len() ==> 0 <= (#[trigger] s[j]).0 <= s[j].1 <= b.len(),
        forall|j: int| 0 <= j < s.len() ==> bytes_of(#[trigger] texts[j]) == b.subrange(s[j].0, s[j].1),
    ensures
        bytes_of(joined(texts.take(k))) == b.subrange(0, if k == 0 { 0 } else { s[k - 1].1 }),
    decreases k,
{
    if k == 0 {
        assert(texts.take(0) =~= Seq::<Seq<char>>::empty());
        assert(bytes_of(Seq::<char>::empty()) =~= Seq::<u8>::empty());
        assert(b.subrange(0, 0) =~= Seq::<u8>::empty());
    } else {
        lemma_spans_join(b, s, texts, k - 1);
        let prev = texts.take(k - 1);
        assert(texts.take(k).drop_last() =~= prev);
        assert(texts.take(k).last() == texts[k - 1]);
        lemma_encode_concat(joined(prev), texts[k - 1]);
        let start = if k - 1 == 0 { 0 } else { s[k - 2].1 };
        assert(start == s[k - 1].0);
        assert(b.subrange(0, start) + b.subrange(s[k - 1].0, s[k - 1].1) =~= b.subrange(0, s[k - 1].1));
    }
}

/// Spans from run `i` on are ordered, contiguous from `pos` to `len`, and each carries
/// the format of every byte it holds.
proof fn lemma_span_ranges(rs: Seq<FormatRun>, i: int, pos: int, len: int)
    requires
        runs_wf(rs),
        0 <= i <= rs.len(),
        0 <= pos <= len,
        forall|k: int| 0 <= k < rs.len() ==> (#[trigger] rs[k]).range.start <= len,
        i < rs.len() ==> pos <= rs[i].range.start,
        forall|k: int| 0 <= k < i ==> (#[trigger] rs[k]).range.end <= pos || pos == len,
    ensures
        ({
            let s = span_ranges(rs, i, pos, len);
            &&& (s.len() == 0 <==> pos == len)
            &&& s.len() > 0 ==> s[0].0 == pos && s[s.len() - 1].1 == len
            &&& forall|k: int| 0 <= k < s.len() ==> pos <= (#[trigger] s[k]).0 < s[k].1 <= len
            &&& forall|k: int| 0 <= k < s.len() - 1 ==> (#[trigger] s[k]).1 == s[k + 1].0
            &&& forall|k: int, p: int|
                0 <= k < s.len() && (#[trigger] s[k]).0 <= p < s[k].1 ==> #[trigger] format_in(rs, p)
                    == s[k].2
        }),
    decreases rs.len() - i,
{
    let s = span_ranges(rs, i, pos, len);
    if i == rs.len() {
        assert forall|p: int| pos <= p < len implies format_in(rs, p) == plain_char_format() by {
            assert forall|k: int| 0 <= k < rs.len() implies !covers(#[trigger] rs[k], p) by {}
            lemma_format_in_uncovered(rs, p);
        }
    } else {
        let r = rs[i];
        let end = if r.range.end < len {
            r.range.end as int
        } else {
            len
        };
        let gap = if pos < r.range.start {
            seq![(pos, r.range.start as int, plain_char_format())]
        } else {
            Seq::<(int, int, CharFormat)>::empty()
        };
        let body = if r.range.start < end {
            seq![(r.range.start as int, end, r.format)]
        } else {
            Seq::<(int, int, CharFormat)>::empty()
        };
        let rest = span_ranges(rs, i + 1, end, len);
        assert(i + 1 < rs.len() ==> r.range.end <= rs[i + 1].range.start);
        lemma_span_ranges(rs, i + 1, end, len);
        assert(s == gap + body + rest);
        assert forall|p: int| pos <= p < r.range.start implies format_in(rs, p)
            == plain_char_format() by {
            assert forall|k: int| 0 <= k < rs.len() implies !covers(#[trigger] rs[k], p) by {
                if k > i {
                    assert(r.range.end <= rs[k].range.start);
                }
            }
            lemma_format_in_uncovered(rs, p);
        }
        assert forall|p: int| r.range.start <= p < end implies format_in(rs, p) == r.format by {
            lemma_format_in_covered(rs, i, p);
        }
        let gb = gap + body;
        assert forall|k: int| 0 <= k < s.len() - 1 implies (#[trigger] s[k]).1 == s[k + 1].0 by {
            if k + 1 < gb.len() {
            } else if k + 1 == gb.len() {
                assert(s[k] == gb[k]);
                assert(s[k + 1] == rest[0]);
            } else {
                assert(s[k] == rest[k - gb.len()]);
                assert(s[k + 1] == rest[k + 1 - gb.len()]);
            }
        }
        assert forall|k: int| 0 <= k < s.len() implies pos <= (#[trigger] s[k]).0 < s[k].1 <= len by {
            if k >= gb.len() {
                assert(s[k] == rest[k - gb.len()]);
            }
        }
        assert forall|k: int, p: int|
            0 <= k < s.len() && (#[trigger] s[k]).0 <= p < s[k].1 implies #[trigger] format_in(
            rs,
            p,
        ) == s[k].2 by {
            if k >= gb.len() {
                assert(s[k] == rest[k - gb.len()]);
            }
        }
        if s.len() > 0 {
            if rest.len() > 0 {
                assert(s[s.len() - 1] == rest[rest.len() - 1]);
            }
        }
    }
}

impl StyledDocument {
    /// The document as spans of text, each with its format. The spans cover the text:
    /// the first starts at byte 0, each ends where the next starts, the last ends at the
    /// end of the text, none is empty, and each carries the format of every byte it
    /// holds. An empty document has no spans.
    pub fn to_styled_spans(&self) -> (r: Vec<(String, CharFormat)>)
        requires
            runs_on_boundaries(self),
        ensures
            r.len() == doc_span_ranges(self).len(),
            ({
                let s = doc_span_ranges(self);
                let len = self.spec_bytes().len() as int;
                &&& (s.len() == 0 <==> len == 0)
                &&& s.len() > 0 ==> s[0].0 == 0 && s[s.len() - 1].1 == len
                &&& forall|k: int| 0 <= k < s.len() ==> 0 <= (#[trigger] s[k]).0 < s[k].1 <= len
                &&& forall|k: int| 0 <= k < s.len() - 1 ==> (#[trigger] s[k]).1 == s[k + 1].0
                &&& forall|k: int, p: int|
                    0 <= k < s.len() && (#[trigger] s[k]).0 <= p < s[k].1
                        ==> #[trigger] self.spec_format(p) == s[k].2
            }),
            forall|k: int|
                0 <= k < r.len() ==> {
                    let sp = #[trigger] doc_span_ranges(self)[k];
                    &&& bytes_of(r[k].0@) == self.spec_bytes().subrange(sp.0, sp.1)
                    &&& r[k].1 == sp.2
                },
            joined(r@.map_values(|p: (String, CharFormat)| p.0@)) == self.spec_text(),
    {
        proof {
            use_type_invariant(self);
        }
        let mut spans: Vec<(String, CharFormat)> = Vec::new();
        let text = self.text.as_str();
        let len = text.as_bytes().len();
        if len == 0 {
            proof {
                assert(spans@.map_values(|p: (String, CharFormat)| p.0@) =~= Seq::<Seq<char>>::empty());
                assert(bytes_of(Seq::<char>::empty()) =~= Seq::<u8>::empty());
                lemma_encode_injective(self.text@, Seq::<char>::empty());
            }
            return spans;
        }
        let ghost rs = self.format_runs@;
        let ghost b = self.spec_bytes();
        let ghost mut done: Seq<(int, int, CharFormat)> = Seq::empty();
        let mut pos: usize = 0;
        let mut i: usize = 0;
        proof {
            vstd::utf8::is_char_boundary_start_end_of_seq(b);
            lemma_span_ranges(rs, 0, 0, len as int);
        }
        while i < self.format_runs.len()
            invariant
                rs == self.format_runs@,
                b == self.spec_bytes(),
                text@ == self.text@,
                len == b.len(),
                len > 0,
                runs_wf(rs),
                runs_on_boundaries(self),
                i <= rs.len(),
                pos <= len,
                is_char_boundary(b, pos as int),
                i < rs.len() ==> pos <= rs[i as int].range.start,
                forall|k: int| 0 <= k < i ==> (#[trigger] rs[k]).range.end <= pos || pos == len,
                done + span_ranges(rs, i as int, pos as int, len as int) == span_ranges(
                    rs,
                    0,
                    0,
                    len as int,
                ),
                spans.len() == done.len(),
                forall|k: int|
                    0 <= k < spans.len() ==> {
                        let sp = #[trigger] done[k];
                        &&& bytes_of(spans[k].0@) == b.subrange(sp.0, sp.1)
                        &&& spans[k].1 == sp.2
                    },
            decreases rs.len() - i,
        {
            let start = self.format_runs[i].range.start;
            let run_end = self.format_runs[i].range.end;
            let fmt = self.format_runs[i].format;
            let end = if run_end < len {
                run_end
            } else {
                len
            };
            let ghost gap = if pos < start {
                seq![(pos as int, start as int, plain_char_format())]
            } else {
                Seq::<(int, int, CharFormat)>::empty()
            };
            let ghost body = if start < end {
                seq![(start as int, end as int, fmt)]
            } else {
                Seq::<(int, int, CharFormat)>::empty()
            };
            proof {
                assert(rs[i as int] == self.spec_format_runs()[i as int]);
                assert(span_ranges(rs, i as int, pos as int, len as int) == gap + body + span_ranges(
                    rs,
                    i as int + 1,
                    end as int,
                    len as int,
                ));
                assert(done + span_ranges(rs, i as int, pos as int, len as int) =~= (done + gap
                    + body) + span_ranges(rs, i as int + 1, end as int, len as int));
                assert(i + 1 < rs.len() ==> rs[i as int].range.end <= rs[i + 1].range.start);
            }
            if pos < start {
                let piece = byte_slice(text, pos, start);
                spans.push((piece, CharFormat::new()));
            }
            if start < end {
                let piece = byte_slice(text, start, end);
                spans.push((piece, fmt));
            }
            proof {
                done = done + gap + body;
            }
            pos = end;
            i = i + 1;
        }
        if pos < len {
            let piece = byte_slice(text, pos, len);
            spans.push((piece, CharFormat::new()));
            proof {
                vstd::utf8::is_char_boundary_start_end_of_seq(b);
                done = done + seq![(pos as int, len as int, plain_char_format())];
            }
        }
        proof {
            assert(done =~= span_ranges(rs, 0, 0, len as int));
            let texts = spans@.map_values(|p: (String, CharFormat)| p.0@);
            assert forall|j: int| 0 <= j < done.len() implies bytes_of(#[trigger] texts[j]) == b.subrange(
                done[j].0,
                done[j].1,
            ) by {
                assert(texts[j] == spans@[j].0@);
            }
            lemma_spans_join(b, done, texts, done.len() as int);
            assert(texts.take(done.len() as int) =~= texts);
            assert(b.subrange(0, len as int) =~= b);
            lemma_encode_injective(joined(texts), self.text@);
        }
        spans
    }
}

/// The texts of the paragraphs up to `k`, joined with newlines, are the bytes up to where
/// the text of paragraph `k - 1` ends.
proof fn lemma_paragraphs_join(b: Seq<u8>, texts: Seq<Seq<char>>, k: int)
    requires
        1 <= k <= texts.len(),
        texts.len() == line_starts(b).len(),
        forall|i: int| 0 <= i < texts.len() ==> bytes_of(#[trigger] texts[i]) == b.subrange(
            line_starts(b)[i],
            para_text_end(b, i),
        ),
    ensures
        bytes_of(lines_joined(texts.take(k))) == b.subrange(0, para_text_end(b, k - 1)),
    decreases k,
{
    let ls = line_starts(b);
    lemma_line_starts_shape(b);
    if k == 1 {
        assert(texts.take(1).len() == 1);
        assert(texts.take(1)[0] == texts[0]);
    } else {
        lemma_paragraphs_join(b, texts, k - 1);
        let prev = texts.take(k - 1);
        assert(texts.take(k).drop_last() =~= prev);
        assert(texts.take(k).last() == texts[k - 1]);
        lemma_encode_concat(lines_joined(prev), seq!['\n']);
        lemma_encode_concat(lines_joined(prev) + seq!['\n'], texts[k - 1]);
        lemma_newline_bytes();
        // Paragraph k - 2 ends with the newline just before paragraph k - 1 starts.
        assert(ls[k - 2] < ls[k - 1]);
        assert(b[ls[k - 1] - 1] == 10);
        assert(para_end(b, k - 2) == ls[k - 1]);
        assert(para_text_end(b, k - 2) == ls[k - 1] - 1);
        assert(b.subrange(0, ls[k - 1] - 1) + seq![10u8] + b.subrange(ls[k - 1], para_text_end(b, k - 1))
            =~= b.subrange(0, para_text_end(b, k - 1)));
    }
}

/// The end of paragraph `i` of `b`, its newline included.
pub open spec fn para_end(b: Seq<u8>, i: int) -> int {
    if i + 1 < line_starts(b).len() {
        line_starts(b)[i + 1]
    } else {
        b.len() as int
    }
}

/// The end of the text of paragraph `i` of `b`, a trailing newline left out.
pub open spec fn para_text_end(b: Seq<u8>, i: int) -> int {
    let e = para_end(b, i);
    if line_starts(b)[i] < e && b[e - 1] == 10 {
        e - 1
    } else {
        e
    }
}

/// The runs that overlap the bytes `ps..pe`, in order, cut to them and counted from `ps`.
pub open spec fn local_spans(rs: Seq<FormatRun>, ps: int, pe: int) -> Seq<(int, int, CharFormat)>
    decreases rs.len(),
{
    if rs.len() == 0 {
        Seq::empty()
    } else {
        let prev = local_spans(rs.drop_last(), ps, pe);
        let r = rs.last();
        if r.range.end <= ps || r.range.start >= pe {
            prev
        } else {
            let a = clamp_offset(r.range.start - ps, pe - ps);
            let e = clamp_offset(r.range.end - ps, pe - ps);
            if a < e {
                prev.push((a, e, r.format))
            } else {
                prev
            }
        }
    }
}

/// Each span of `local_spans` comes from a run: it is non-empty, lies within `0..pe - ps`,
/// carries that run's format, and the run covers every byte the span covers.
proof fn lemma_local_spans_from_runs(rs: Seq<FormatRun>, ps: int, pe: int)
    requires
        runs_wf(rs),
        0 <= ps <= pe,
    ensures
        forall|k: int|
            0 <= k < local_spans(rs, ps, pe).len() ==> {
                let sp = #[trigger] local_spans(rs, ps, pe)[k];
                &&& 0 <= sp.0 < sp.1 <= pe - ps
                &&& exists|m: int|
                    0 <= m < rs.len() && rs[m].format == sp.2 && forall|j: int|
                        sp.0 <= j < sp.1 ==> #[trigger] covers(rs[m], ps + j)
            },
    decreases rs.len(),
{
    if rs.len() > 0 {
        let prev_rs = rs.drop_last();
        assert(runs_wf(prev_rs)) by {
            assert forall|i: int| 0 <= i < prev_rs.len() implies (#[trigger] prev_rs[i]).range.start
                < prev_rs[i].range.end && prev_rs[i].format.spec_styled() by {
                assert(prev_rs[i] == rs[i]);
            }
            assert forall|i: int, j: int| 0 <= i < j < prev_rs.len() implies (#[trigger] prev_rs[i]).range.end
                <= (#[trigger] prev_rs[j]).range.start by {
                assert(prev_rs[i] == rs[i]);
                assert(prev_rs[j] == rs[j]);
            }
        }
        lemma_local_spans_from_runs(prev_rs, ps, pe);
        let prev = local_spans(prev_rs, ps, pe);
        let cur = local_spans(rs, ps, pe);
        assert forall|k: int| 0 <= k < cur.len() implies {
            let sp = #[trigger] cur[k];
            &&& 0 <= sp.0 < sp.1 <= pe - ps
            &&& exists|m: int|
                0 <= m < rs.len() && rs[m].format == sp.2 && forall|j: int|
                    sp.0 <= j < sp.1 ==> #[trigger] covers(rs[m], ps + j)
        } by {
            if k < prev.len() {
                assert(cur[k] == prev[k]);
                let sp = prev[k];
                let m = choose|m: int|
                    0 <= m < prev_rs.len() && prev_rs[m].format == sp.2 && forall|j: int|
                        sp.0 <= j < sp.1 ==> #[trigger] covers(prev_rs[m], ps + j);
                assert(rs[m] == prev_rs[m]);
                assert forall|j: int| sp.0 <= j < sp.1 implies #[trigger] covers(rs[m], ps + j) by {
                    assert(covers(prev_rs[m], ps + j));
                }
            } else {
                let m = rs.len() - 1;
                let sp = cur[k];
                assert forall|j: int| sp.0 <= j < sp.1 implies #[trigger] covers(rs[m], ps + j) by {
                    assert(rs[m] == rs.last());
                }
            }
        }
    }
}

/// The spans `to_paragraphs` gives paragraph `i` carry the document's format: each is
/// non-empty, lies within the paragraph's text, and its format is the format of every byte
/// it covers.
pub proof fn law_paragraph_span_formats(doc: StyledDocument, i: int)
    requires
        runs_wf(doc.spec_format_runs()),
        0 <= i < line_starts(doc.spec_bytes()).len(),
    ensures
        ({
            let b = doc.spec_bytes();
            let ps = line_starts(b)[i];
            let pe = para_text_end(b, i);
            let loc = local_spans(doc.spec_format_runs(), ps, pe);
            forall|k: int|
                0 <= k < loc.len() ==> {
                    let sp = #[trigger] loc[k];
                    &&& 0 <= sp.0 < sp.1 <= pe - ps
                    &&& forall|j: int| sp.0 <= j < sp.1 ==> #[trigger] doc.spec_format(ps + j) == sp.2
                }
        }),
{
    let b = doc.spec_bytes();
    let rs = doc.spec_format_runs();
    let ps = line_starts(b)[i];
    let pe = para_text_end(b, i);
    lemma_line_starts_shape(b);
    if i + 1 < line_starts(b).len() {
        assert(line_starts(b)[i] < line_starts(b)[i + 1]);
    }
    lemma_local_spans_from_runs(rs, ps, pe);
    let loc = local_spans(rs, ps, pe);
    assert forall|k: int, j: int| 0 <= k < loc.len() && loc[k].0 <= j < loc[k].1 implies #[trigger] doc.spec_format(
        ps + j,
    ) == (#[trigger] loc[k]).2 by {
        let l = loc[k];
        let m = choose|m: int|
            0 <= m < rs.len() && rs[m].format == l.2 && forall|jj: int|
                l.0 <= jj < l.1 ==> #[trigger] covers(rs[m], ps + jj);
        assert(covers(rs[m], ps + j));
        lemma_format_in_covered(rs, m, ps + j);
    }
}

/// An offset `d` held to `0..=len`.
pub open spec fn clamp_offset(d: int, len: int) -> int {
    if d < 0 {
        0
    } else if d > len {
        len
    } else {
        d
    }
}

/// The spans of `runs` over the bytes `ps..pe`, counted from `ps`.
fn paragraph_spans(runs: &Vec<FormatRun>, ps: usize, pe: usize) -> (out: Vec<
    (std::ops::Range<usize>, CharFormat),
>)
    requires
        ps <= pe,
    ensures
        out@.len() == local_spans(runs@, ps as int, pe as int).len(),
        forall|k: int|
            0 <= k < out@.len() ==> {
                let sp = #[trigger] local_spans(runs@, ps as int, pe as int)[k];
                &&& out@[k].0.start == sp.0
                &&& out@[k].0.end == sp.1
                &&& out@[k].1 == sp.2
            },
{
    let mut out: Vec<(std::ops::Range<usize>, CharFormat)> = Vec::new();
    let plen = pe - ps;
    let mut k: usize = 0;
    while k < runs.len()
        invariant
            ps <= pe,
            plen == pe - ps,
            k <= runs@.len(),
            out@.len() == local_spans(runs@.take(k as int), ps as int, pe as int).len(),
            forall|j: int|
                0 <= j < out@.len() ==> {
                    let sp = #[trigger] local_spans(runs@.take(k as int), ps as int, pe as int)[j];
                    &&& out@[j].0.start == sp.0
                    &&& out@[j].0.end == sp.1
                    &&& out@[j].1 == sp.2
                },
        decreases runs.len() - k,
    {
        let start = runs[k].range.start;
        let end = runs[k].range.end;
        proof {
            assert(runs@.take(k + 1).drop_last() =~= runs@.take(k as int));
            assert(runs@.take(k + 1).last() == runs@[k as int]);
        }
        if !(end <= ps || start >= pe) {
            let a = if start < ps {
                0
            } else if start - ps > plen {
                plen
            } else {
                start - ps
            };
            let e = if end < ps {
                0
            } else if end - ps > plen {
                plen
            } else {
                end - ps
            };
            if a < e {
                out.push((std::ops::Range { start: a, end: e }, runs[k].format));
            }
        }
        k = k + 1;
    }
    proof {
        assert(runs@.take(runs@.len() as int) =~= runs@);
    }
    out
}

impl StyledDocument {
    /// The paragraphs of the document, each as its text without the trailing newline,
    /// the character formats over it (counted from the paragraph's first byte) and its
    /// block format.
    pub fn to_paragraphs(&self) -> (r: Vec<
        (String, Vec<(std::ops::Range<usize>, CharFormat)>, BlockFormat),
    >)
        requires
            self.spec_bytes().len() < usize::MAX,
        ensures
            r.len() == line_starts(self.spec_bytes()).len(),
            forall|i: int|
                0 <= i < r.len() ==> {
                    let b = self.spec_bytes();
                    let ps = line_starts(b)[i];
                    let pe = para_text_end(b, i);
                    let sp = local_spans(self.spec_format_runs(), ps, pe);
                    &&& bytes_of((#[trigger] r[i]).0@) == b.subrange(ps, pe)
                    &&& r[i].1@.len() == sp.len()
                    &&& forall|k: int|
                        0 <= k < sp.len() ==> (#[trigger] r[i].1@[k]).0.start == sp[k].0
                            && r[i].1@[k].0.end == sp[k].1 && r[i].1@[k].1 == sp[k].2
                    &&& r[i].2 == self.spec_block_format(i)
                },
            lines_joined(r@.map_values(|p: (String, Vec<(std::ops::Range<usize>, CharFormat)>, BlockFormat)| p.0@))
                == self.spec_text(),
            forall|i: int, k: int|
                0 <= i < r.len() && 0 <= k < r[i].1@.len() ==> {
                    let sp = #[trigger] r[i].1@[k];
                    &&& sp.0.start < sp.0.end <= bytes_of(r[i].0@).len()
                    &&& forall|j: int|
                        sp.0.start <= j < sp.0.end ==> #[trigger] self.spec_format(line_starts(self.spec_bytes())[i] + j)
                            == sp.1
                },
    {
        proof {
            use_type_invariant(self);
        }
        let text = self.text.as_str();
        let bytes = text.as_bytes();
        let ghost b = self.spec_bytes();
        proof {
            lemma_line_starts_shape(b);
            vstd::utf8::encode_utf8_valid_utf8(self.text@);
            vstd::utf8::is_char_boundary_start_end_of_seq(b);
        }
        let count = count_lines(bytes);
        let mut paragraphs: Vec<(String, Vec<(std::ops::Range<usize>, CharFormat)>, BlockFormat)> =
            Vec::new();
        let mut idx: usize = 0;
        while idx < count
            invariant
                b == self.spec_bytes(),
                bytes@ == b,
                text@ == self.text@,
                vstd::utf8::valid_utf8(b),
                is_char_boundary(b, b.len() as int),
                count == line_starts(b).len(),
                line_starts(b).len() >= 1,
                line_starts(b)[0] == 0,
                forall|k: int| 0 <= k < line_starts(b).len() ==> 0 <= #[trigger] line_starts(b)[k] <= b.len(),
                forall|j: int, k: int|
                    0 <= j < k < line_starts(b).len() ==> #[trigger] line_starts(b)[j]
                        < #[trigger] line_starts(b)[k],
                forall|k: int| 0 < k < line_starts(b).len() ==> b[#[trigger] line_starts(b)[k] - 1] == 10,
                idx <= count,
                paragraphs.len() == idx,
                forall|i: int|
                    0 <= i < idx ==> {
                        let ps = line_starts(b)[i];
                        let pe = para_text_end(b, i);
                        let sp = local_spans(self.spec_format_runs(), ps, pe);
                        &&& bytes_of((#[trigger] paragraphs[i]).0@) == b.subrange(ps, pe)
                        &&& paragraphs[i].1@.len() == sp.len()
                        &&& forall|k: int|
                            0 <= k < sp.len() ==> (#[trigger] paragraphs[i].1@[k]).0.start == sp[k].0
                                && paragraphs[i].1@[k].0.end == sp[k].1 && paragraphs[i].1@[k].1
                                == sp[k].2
                        &&& paragraphs[i].2 == self.spec_block_format(i)
                    },
            decreases count - idx,
        {
            let range = line_range(bytes, idx).unwrap();
            let ps = range.start;
            let end = range.end;
            let pe = if ps < end && bytes[end - 1] == 10 {
                end - 1
            } else {
                end
            };
            proof {
                if idx + 1 < line_starts(b).len() {
                    assert(line_starts(b)[idx as int] < line_starts(b)[idx + 1]);
                }
                if ps > 0 {
                    lemma_boundary_after_ascii(b, ps - 1);
                }
                if pe < end {
                    lemma_boundary_after_ascii(b, pe as int);
                } else if end < b.len() {
                    assert(idx + 1 < line_starts(b).len());
                    lemma_boundary_after_ascii(b, end - 1);
                }
            }
            let piece = byte_slice(text, ps, pe);
            let spans = paragraph_spans(&self.format_runs, ps, pe);
            let block = self.block_format_at(idx);
            paragraphs.push((piece, spans, block));
            idx = idx + 1;
        }
        proof {
            let texts = paragraphs@.map_values(
                |p: (String, Vec<(std::ops::Range<usize>, CharFormat)>, BlockFormat)| p.0@,
            );
            let n = line_starts(b).len() as int;
            assert forall|i: int| 0 <= i < texts.len() implies bytes_of(#[trigger] texts[i]) == b.subrange(
                line_starts(b)[i],
                para_text_end(b, i),
            ) by {
                assert(texts[i] == paragraphs@[i].0@);
            }
            lemma_paragraphs_join(b, texts, n);
            assert(texts.take(n) =~= texts);
            // The last paragraph's text runs to the end: a final newline would start another.
            if line_starts(b)[n - 1] < b.len() && b[b.len() - 1] == 10 {
                lemma_newline_starts_line(b, b.len() - 1);
                let k = choose|k: int| 0 <= k < n && line_starts(b)[k] == b.len();
                if k < n - 1 {
                    assert(line_starts(b)[k] < line_starts(b)[n - 1]);
                }
            }
            assert(para_text_end(b, n - 1) == b.len());
            assert(b.subrange(0, b.len() as int) =~= b);
            lemma_encode_injective(lines_joined(texts), self.text@);
            let rs = self.spec_format_runs();
            assert forall|i: int, k: int|
                0 <= i < paragraphs.len() && 0 <= k < paragraphs[i].1@.len() implies {
                    let sp = #[trigger] paragraphs[i].1@[k];
                    &&& sp.0.start < sp.0.end <= bytes_of(paragraphs[i].0@).len()
                    &&& forall|j: int|
                        sp.0.start <= j < sp.0.end ==> #[trigger] self.spec_format(line_starts(b)[i] + j)
                            == sp.1
                } by {
                let ps = line_starts(b)[i];
                let pe = para_text_end(b, i);
                assert(ps <= pe) by {
                    if i + 1 < n {
                        assert(line_starts(b)[i] < line_starts(b)[i + 1]);
                    }
                }
                lemma_local_spans_from_runs(rs, ps, pe);
                let loc = local_spans(rs, ps, pe);
                let sp = paragraphs[i].1@[k];
                let l = loc[k];
                assert(sp.0.start == l.0 && sp.0.end == l.1 && sp.1 == l.2);
                let m = choose|m: int|
                    0 <= m < rs.len() && rs[m].format == l.2 && forall|j: int|
                        l.0 <= j < l.1 ==> #[trigger] covers(rs[m], ps + j);
                assert forall|j: int| sp.0.start <= j < sp.0.end implies #[trigger] self.spec_format(ps + j)
                    == sp.1 by {
                    assert(covers(rs[m], ps + j));
                    lemma_format_in_covered(rs, m, ps + j);
                }
            }
        }
        paragraphs
    }
}

impl Default for StyledDocument {
    fn default() -> (r: Self)
        ensures
            r.spec_text() == Seq::<char>::empty(),
            r.spec_format_runs() == Seq::<FormatRun>::empty(),
            r.spec_block_runs() == Seq::<BlockRun>::empty(),
    {
        StyledDocument::new()
    }
}

} // verus!
