//! The multi-line text editor's model: a styled document with a cursor and selection,
//! editing with undo/redo history, formatting, and the decisions of its key and mouse
//! handling.

use unicode_segmentation::UnicodeSegmentation;
use vstd::prelude::*;
use vstd::utf8::*;

use crate::char_format::{CharFormat, Color, plain_char_format};
use crate::lines::{count_lines, lemma_line_starts_shape, line_range, line_starts};
use crate::style_runs::cut_pos;
use crate::styled_document::StyledDocument;
use crate::undo::{
    EditCommand, EditView, UndoStack, UndoView, apply_edit, edit_fits, edit_len, history_ok,
    lemma_apply_edit, lemma_merge_apply, merged_edit, push_step, redo_step, undo_limit, undo_step,
};
use crate::utf8_text::{
    bytes_of, joined, lemma_concat_boundaries, lemma_encode_concat, lemma_split_boundaries, owned,
    same_text,
};

verus! {

broadcast use vstd::utf8::group_utf8_lib;

/// Pushing an edit that fits the current text keeps a history: the texts become those up
/// to the current one, followed by the edited text (the oldest dropped with the oldest
/// command beyond the limit, the last replaced when the edit merges into the last command).
proof fn lemma_push_history(v: UndoView, texts: Seq<Seq<u8>>, c: EditView) -> (r: Seq<Seq<u8>>)
    requires
        history_ok(v.commands, texts),
        0 <= v.index <= v.commands.len() <= undo_limit(),
        edit_fits(c, texts[v.index]),
        apply_edit(c, texts[v.index]).len() <= usize::MAX,
    ensures
        history_ok(push_step(v, c).commands, r),
        r[push_step(v, c).index] == apply_edit(c, texts[v.index]),
        push_step(v, c).index >= 1,
        r[push_step(v, c).index - 1] == (if v.merge_enabled && v.index > 0 && merged_edit(
            v.commands[v.index - 1],
            c,
        ) is Some {
            texts[v.index - 1]
        } else {
            texts[v.index]
        }),
{
    let idx = v.index;
    let t_new = apply_edit(c, texts[idx]);
    lemma_apply_edit(c, texts[idx]);
    let base = v.commands.take(idx);
    if v.merge_enabled && base.len() > 0 && merged_edit(base.last(), c) is Some {
        let last = base.last();
        assert(last == v.commands[idx - 1]);
        assert(texts[idx] == apply_edit(last, texts[idx - 1]));
        lemma_merge_apply(last, c, texts[idx - 1]);
        let r = texts.take(idx).push(t_new);
        let cmds = push_step(v, c).commands;
        assert(cmds == base.drop_last().push(merged_edit(last, c)->0));
        assert forall|i: int| 0 <= i < cmds.len() implies edit_fits(#[trigger] cmds[i], r[i])
            && r[i + 1] == apply_edit(cmds[i], r[i]) by {
            if i < idx - 1 {
                assert(cmds[i] == v.commands[i]);
                assert(r[i] == texts[i]);
                assert(r[i + 1] == texts[i + 1]);
            }
        }
        assert forall|i: int| 0 <= i < r.len() implies valid_utf8(#[trigger] r[i]) && r[i].len()
            <= usize::MAX by {
            if i < idx {
                assert(r[i] == texts[i]);
            }
        }
        r
    } else {
        let pushed = base.push(c);
        let r0 = texts.take(idx + 1).push(t_new);
        assert forall|i: int| 0 <= i < pushed.len() implies edit_fits(#[trigger] pushed[i], r0[i])
            && r0[i + 1] == apply_edit(pushed[i], r0[i]) by {
            if i < idx {
                assert(pushed[i] == v.commands[i]);
                assert(r0[i] == texts[i]);
                assert(r0[i + 1] == texts[i + 1]);
            }
        }
        assert forall|i: int| 0 <= i < r0.len() implies valid_utf8(#[trigger] r0[i]) && r0[i].len()
            <= usize::MAX by {
            if i <= idx {
                assert(r0[i] == texts[i]);
            }
        }
        if pushed.len() > undo_limit() {
            let k = pushed.len() - undo_limit();
            let r = r0.skip(k);
            let cmds = pushed.skip(k);
            assert forall|i: int| 0 <= i < cmds.len() implies edit_fits(#[trigger] cmds[i], r[i])
                && r[i + 1] == apply_edit(cmds[i], r[i]) by {
                assert(cmds[i] == pushed[i + k]);
                assert(r[i] == r0[i + k]);
                assert(r[i + 1] == r0[i + 1 + k]);
            }
            assert forall|i: int| 0 <= i < r.len() implies valid_utf8(#[trigger] r[i]) && r[i].len()
                <= usize::MAX by {
                assert(r[i] == r0[i + k]);
            }
            r
        } else {
            r0
        }
    }
}


/// A copy of an edit command.
fn copy_command(c: &EditCommand) -> (r: EditCommand)
    ensures
        r@ == c@,
{
    match c {
        EditCommand::Insert { pos, text } => EditCommand::Insert { pos: *pos, text: owned(text.as_str()) },
        EditCommand::Delete { pos, text } => EditCommand::Delete { pos: *pos, text: owned(text.as_str()) },
    }
}

/// The editor's text with its cursor, selection anchor and edit history. The history
/// records, besides the commands, the text before and after each of them (`history`);
/// the current text is the one at the history's position.
struct Buffer {
    document: StyledDocument,
    cursor_pos: usize,
    selection_anchor: Option<usize>,
    undo_stack: UndoStack,
    history: Ghost<Seq<Seq<u8>>>,
}

/// A position is a cursor position of `b`: within it, on a character boundary.
pub open spec fn valid_pos(b: Seq<u8>, p: int) -> bool {
    0 <= p <= b.len() && is_char_boundary(b, p)
}

impl Buffer {
    #[verifier::type_invariant]
    spec fn inv(self) -> bool {
        let b = self.document.spec_bytes();
        &&& valid_pos(b, self.cursor_pos as int)
        &&& (self.selection_anchor matches Some(a) ==> valid_pos(b, a as int))
        &&& self.document.spec_run_bound() <= b.len()
        &&& history_ok(self.undo_stack@.commands, self.history@)
        &&& 0 <= self.undo_stack@.index <= self.undo_stack@.commands.len() <= undo_limit()
        &&& self.history@[self.undo_stack@.index] == b
    }

    spec fn bytes(&self) -> Seq<u8> {
        self.document.spec_bytes()
    }

    fn take(&mut self) -> (r: Buffer)
        ensures
            r == *old(self),
    {
        let mut r = Buffer::new();
        std::mem::swap(&mut r, self);
        r
    }

    fn new() -> (r: Buffer)
        ensures
            r.document.spec_text() == Seq::<char>::empty(),
            r.document.spec_format_runs().len() == 0,
            r.document.spec_block_runs().len() == 0,
            r.cursor_pos == 0,
            r.selection_anchor is None,
            r.undo_stack@ == (UndoView { commands: Seq::empty(), index: 0, merge_enabled: true }),
    {
        let document = StyledDocument::new();
        proof {
            assert(bytes_of(Seq::<char>::empty()) =~= Seq::<u8>::empty());
            is_char_boundary_start_end_of_seq(Seq::<u8>::empty());
        }
        Buffer {
            document,
            cursor_pos: 0,
            selection_anchor: None,
            undo_stack: UndoStack::new(),
            history: Ghost(Seq::<Seq<u8>>::empty().push(Seq::<u8>::empty())),
        }
    }

    fn from_text(text: &str) -> (r: Buffer)
        ensures
            r.document.spec_text() == text@,
            r.document.spec_format_runs().len() == 0,
            r.document.spec_block_runs().len() == 0,
            r.cursor_pos == bytes_of(text@).len(),
            r.selection_anchor is None,
            r.undo_stack@ == (UndoView { commands: Seq::empty(), index: 0, merge_enabled: true }),
    {
        let document = StyledDocument::from_text(text);
        let n = document.len();
        proof {
            is_char_boundary_start_end_of_seq(document.spec_bytes());
        }
        Buffer {
            document,
            cursor_pos: n,
            selection_anchor: None,
            undo_stack: UndoStack::new(),
            history: Ghost(Seq::<Seq<u8>>::empty().push(bytes_of(text@))),
        }
    }
}


/// Whether pushing `c` onto history `v` merges it into the last command.
pub open spec fn merges(v: UndoView, c: EditView) -> bool {
    v.merge_enabled && v.index > 0 && merged_edit(v.commands[v.index - 1], c) is Some
}

/// The format at `p` after `n` bytes are inserted at `pos` of `doc` with `format`.
pub open spec fn format_after_insert(
    doc: StyledDocument,
    pos: int,
    n: int,
    format: CharFormat,
    p: int,
) -> CharFormat {
    if p < pos {
        doc.spec_format(p)
    } else if p < pos + n {
        format
    } else {
        doc.spec_format(p - n)
    }
}

/// The format at `p` after the bytes `start..end` of `doc` are deleted.
pub open spec fn format_after_delete(doc: StyledDocument, start: int, end: int, p: int) -> CharFormat {
    if p < start {
        doc.spec_format(p)
    } else {
        doc.spec_format(p + (end - start))
    }
}

impl Buffer {
    proof fn lemma_cut_bound(bound: int, start: int, end: int, len: int)
        requires
            0 <= bound <= len,
            0 <= start <= end <= len,
        ensures
            cut_pos(bound, start, end) <= len - (end - start),
    {
    }

    /// Insert `text` with `format` at the cursor, record it, and move the cursor past it,
    /// dropping the selection anchor.
    fn insert_at_cursor(&mut self, text: &str, format: CharFormat)
        requires
            old(self).bytes().len() + bytes_of(text@).len() <= usize::MAX,
        ensures
            ({
                let c = old(self).cursor_pos as int;
                let n = bytes_of(text@).len() as int;
                let e = EditView { is_insert: true, pos: c, text: text@ };
                &&& final(self).bytes() == old(self).bytes().take(c) + bytes_of(text@) + old(
                    self,
                ).bytes().skip(c)
                &&& forall|p: int|
                    #![trigger final(self).document.spec_format(p)]
                    final(self).document.spec_format(p) == format_after_insert(
                        old(self).document,
                        c,
                        n,
                        format,
                        p,
                    )
                &&& final(self).document.spec_block_runs() == old(self).document.spec_block_runs()
                &&& final(self).cursor_pos == c + n
                &&& final(self).selection_anchor is None
                &&& final(self).undo_stack@ == push_step(old(self).undo_stack@, e)
                &&& final(self).history@[final(self).undo_stack@.index - 1] == (if merges(
                    old(self).undo_stack@,
                    e,
                ) {
                    old(self).history@[old(self).undo_stack@.index - 1]
                } else {
                    old(self).bytes()
                })
            }),
    {
        proof {
            use_type_invariant(&*self);
        }
        let Buffer { mut document, cursor_pos, selection_anchor, mut undo_stack, history } =
            self.take();
        let ghost e = EditView { is_insert: true, pos: cursor_pos as int, text: text@ };
        let ghost v = undo_stack@;
        document.insert(cursor_pos, text, format);
        let n = text.as_bytes().len();
        undo_stack.push(EditCommand::Insert { pos: cursor_pos, text: owned(text) });
        let ghost texts = lemma_push_history(v, history@, e);
        proof {
            lemma_apply_edit(e, history@[v.index]);
        }
        *self = Buffer {
            document,
            cursor_pos: cursor_pos + n,
            selection_anchor: None,
            undo_stack,
            history: Ghost(texts),
        };
    }

    /// Delete the bytes `start..end`, record it, and put the cursor at `start`, dropping
    /// the selection anchor.
    fn delete_range(&mut self, start: usize, end: usize)
        requires
            start <= end,
            valid_pos(old(self).bytes(), start as int),
            valid_pos(old(self).bytes(), end as int),
        ensures
            ({
                let e = EditView {
                    is_insert: false,
                    pos: start as int,
                    text: decode_utf8(old(self).bytes().subrange(start as int, end as int)),
                };
                &&& final(self).bytes() == old(self).bytes().take(start as int) + old(
                    self,
                ).bytes().skip(end as int)
                &&& forall|p: int|
                    #![trigger final(self).document.spec_format(p)]
                    final(self).document.spec_format(p) == format_after_delete(
                        old(self).document,
                        start as int,
                        end as int,
                        p,
                    )
                &&& final(self).document.spec_block_runs() == old(self).document.spec_block_runs()
                &&& final(self).cursor_pos == start
                &&& final(self).selection_anchor is None
                &&& final(self).undo_stack@ == push_step(old(self).undo_stack@, e)
                &&& final(self).history@[final(self).undo_stack@.index - 1] == (if merges(
                    old(self).undo_stack@,
                    e,
                ) {
                    old(self).history@[old(self).undo_stack@.index - 1]
                } else {
                    old(self).bytes()
                })
            }),
    {
        proof {
            use_type_invariant(&*self);
        }
        let Buffer { mut document, cursor_pos, selection_anchor, mut undo_stack, history } =
            self.take();
        let ghost b = document.spec_bytes();
        let ghost v = undo_stack@;
        let ghost bound = document.spec_run_bound();
        let deleted = document.delete(std::ops::Range { start, end });
        let ghost e = EditView { is_insert: false, pos: start as int, text: deleted@ };
        proof {
            vstd::utf8::encode_utf8_decode_utf8(deleted@);
            if start == end {
                assert(b.subrange(start as int, end as int) =~= Seq::<u8>::empty());
                assert(bytes_of(deleted@) =~= Seq::<u8>::empty());
                assert(b.take(start as int) + b.skip(end as int) =~= b);
            }
            assert(deleted@ == decode_utf8(b.subrange(start as int, end as int)));
            assert(edit_len(e) == end - start);
            assert(apply_edit(e, b) =~= document.spec_bytes());
            lemma_apply_edit(e, b);
            if start < end {
                Buffer::lemma_cut_bound(bound, start as int, end as int, b.len() as int);
            }
        }
        undo_stack.push(EditCommand::Delete { pos: start, text: deleted });
        let ghost texts = lemma_push_history(v, history@, e);
        *self = Buffer {
            document,
            cursor_pos: start,
            selection_anchor: None,
            undo_stack,
            history: Ghost(texts),
        };
    }
}


impl Buffer {
    /// Add `text` (unstyled) at the end and record it; cursor and anchor stay.
    fn append(&mut self, text: &str)
        requires
            old(self).bytes().len() + bytes_of(text@).len() <= usize::MAX,
        ensures
            ({
                let n = old(self).bytes().len() as int;
                let e = EditView { is_insert: true, pos: n, text: text@ };
                &&& final(self).bytes() == old(self).bytes() + bytes_of(text@)
                &&& forall|p: int|
                    #![trigger final(self).document.spec_format(p)]
                    final(self).document.spec_format(p) == format_after_insert(
                        old(self).document,
                        n,
                        bytes_of(text@).len() as int,
                        plain_char_format(),
                        p,
                    )
                &&& final(self).document.spec_block_runs() == old(self).document.spec_block_runs()
                &&& final(self).cursor_pos == old(self).cursor_pos
                &&& final(self).selection_anchor == old(self).selection_anchor
                &&& final(self).undo_stack@ == push_step(old(self).undo_stack@, e)
            }),
    {
        proof {
            use_type_invariant(&*self);
        }
        let Buffer { mut document, cursor_pos, selection_anchor, mut undo_stack, history } =
            self.take();
        let ghost b = document.spec_bytes();
        let n = document.len();
        let ghost e = EditView { is_insert: true, pos: n as int, text: text@ };
        let ghost v = undo_stack@;
        proof {
            is_char_boundary_start_end_of_seq(b);
        }
        document.insert(n, text, CharFormat::new());
        undo_stack.push(EditCommand::Insert { pos: n, text: owned(text) });
        let ghost texts = lemma_push_history(v, history@, e);
        proof {
            assert(b.take(n as int) =~= b);
            assert(b.skip(n as int) =~= Seq::<u8>::empty());
            assert(document.spec_bytes() =~= b + bytes_of(text@));
            lemma_concat_boundaries(b, bytes_of(text@));
            assert(is_char_boundary(b, cursor_pos as int));
            if selection_anchor is Some {
                assert(is_char_boundary(b, selection_anchor->0 as int));
            }
        }
        *self = Buffer { document, cursor_pos, selection_anchor, undo_stack, history: Ghost(texts) };
    }

    /// Remove all text and formatting, recording the deletion; cursor at 0, no anchor.
    fn clear_all(&mut self)
        requires
            old(self).bytes().len() > 0,
        ensures
            ({
                let e = EditView { is_insert: false, pos: 0, text: old(self).document.spec_text() };
                &&& final(self).document.spec_text() == Seq::<char>::empty()
                &&& final(self).document.spec_format_runs().len() == 0
                &&& final(self).document.spec_block_runs().len() == 0
                &&& final(self).cursor_pos == 0
                &&& final(self).selection_anchor is None
                &&& final(self).undo_stack@ == push_step(old(self).undo_stack@, e)
            }),
    {
        proof {
            use_type_invariant(&*self);
        }
        let Buffer { mut document, cursor_pos, selection_anchor, mut undo_stack, history } =
            self.take();
        let ghost b = document.spec_bytes();
        let ghost e = EditView { is_insert: false, pos: 0, text: document.spec_text() };
        let ghost v = undo_stack@;
        let all = owned(document.text());
        document.clear();
        proof {
            is_char_boundary_start_end_of_seq(b);
            assert(b.subrange(0, b.len() as int) =~= b);
            assert(apply_edit(e, b) =~= Seq::<u8>::empty());
            assert(bytes_of(Seq::<char>::empty()) =~= Seq::<u8>::empty());
            is_char_boundary_start_end_of_seq(Seq::<u8>::empty());
        }
        undo_stack.push(EditCommand::Delete { pos: 0, text: all });
        let ghost texts = lemma_push_history(v, history@, e);
        *self = Buffer {
            document,
            cursor_pos: 0,
            selection_anchor: None,
            undo_stack,
            history: Ghost(texts),
        };
    }

    /// Replace the whole text (unstyled), forgetting the history; cursor at the end.
    fn set_text(&mut self, text: &str)
        ensures
            final(self).document.spec_text() == text@,
            final(self).document.spec_format_runs().len() == 0,
            final(self).document.spec_block_runs().len() == 0,
            final(self).cursor_pos == bytes_of(text@).len(),
            final(self).selection_anchor is None,
            final(self).undo_stack@ == (UndoView {
                commands: Seq::empty(),
                index: 0,
                merge_enabled: true,
            }),
    {
        *self = Buffer::from_text(text);
    }

    /// Undo the last recorded edit, if any: an insertion is removed (cursor where it was),
    /// a deletion is put back unstyled (cursor after it); the anchor is dropped. Returns
    /// whether there was an edit to undo. The text becomes the one before that edit.
    fn undo(&mut self) -> (done: bool)
        ensures
            done == (old(self).undo_stack@.index > 0),
            done ==> {
                let e = old(self).undo_stack@.commands[old(self).undo_stack@.index - 1];
                &&& final(self).undo_stack@ == undo_step(old(self).undo_stack@)
                &&& final(self).history@ == old(self).history@
                &&& final(self).bytes() == old(self).history@[old(self).undo_stack@.index - 1]
                &&& final(self).cursor_pos == (if e.is_insert {
                    e.pos
                } else {
                    e.pos + edit_len(e)
                })
                &&& final(self).selection_anchor is None
            },
            !done ==> *final(self) == *old(self),
    {
        proof {
            use_type_invariant(&*self);
        }
        if !self.undo_stack.can_undo() {
            return false;
        }
        let Buffer { mut document, cursor_pos, selection_anchor, mut undo_stack, history } =
            self.take();
        let ghost v = undo_stack@;
        let ghost b = document.spec_bytes();
        let cmd = copy_command(undo_stack.undo().unwrap());
        let ghost e = cmd@;
        let ghost t_prev = history@[v.index - 1];
        let ghost bound = document.spec_run_bound();
        proof {
            assert(e == v.commands[v.index - 1]);
            assert(b == apply_edit(e, t_prev));
            lemma_apply_edit(e, t_prev);
        }
        let new_cursor = match cmd {
            EditCommand::Insert { pos, text } => {
                let n = text.as_str().as_bytes().len();
                document.delete(std::ops::Range { start: pos, end: pos + n });
                proof {
                    if n > 0 {
                        Buffer::lemma_cut_bound(bound, pos as int, pos + n, b.len() as int);
                    }
                    assert(document.spec_bytes() =~= t_prev);
                }
                pos
            },
            EditCommand::Delete { pos, text } => {
                let n = text.as_str().as_bytes().len();
                document.insert(pos, text.as_str(), CharFormat::new());
                proof {
                    assert(document.spec_bytes() =~= t_prev);
                }
                pos + n
            },
        };
        *self = Buffer {
            document,
            cursor_pos: new_cursor,
            selection_anchor: None,
            undo_stack,
            history,
        };
        true
    }

    /// Redo the next recorded edit, if any: an insertion is put back unstyled (cursor after
    /// it), a deletion is removed again (cursor where it was); the anchor is dropped.
    /// Returns whether there was an edit to redo. The text becomes the one after that edit.
    fn redo(&mut self) -> (done: bool)
        ensures
            done == (old(self).undo_stack@.index < old(self).undo_stack@.commands.len()),
            done ==> {
                let e = old(self).undo_stack@.commands[old(self).undo_stack@.index];
                &&& final(self).undo_stack@ == redo_step(old(self).undo_stack@)
                &&& final(self).history@ == old(self).history@
                &&& final(self).bytes() == old(self).history@[old(self).undo_stack@.index + 1]
                &&& final(self).cursor_pos == (if e.is_insert {
                    e.pos + edit_len(e)
                } else {
                    e.pos
                })
                &&& final(self).selection_anchor is None
            },
            !done ==> *final(self) == *old(self),
    {
        proof {
            use_type_invariant(&*self);
        }
        if !self.undo_stack.can_redo() {
            return false;
        }
        let Buffer { mut document, cursor_pos, selection_anchor, mut undo_stack, history } =
            self.take();
        let ghost v = undo_stack@;
        let ghost b = document.spec_bytes();
        let cmd = copy_command(undo_stack.redo().unwrap());
        let ghost e = cmd@;
        let ghost t_next = history@[v.index + 1];
        let ghost bound = document.spec_run_bound();
        proof {
            assert(e == v.commands[v.index]);
            assert(t_next == apply_edit(e, b));
            lemma_apply_edit(e, b);
        }
        let new_cursor = match cmd {
            EditCommand::Insert { pos, text } => {
                let n = text.as_str().as_bytes().len();
                document.insert(pos, text.as_str(), CharFormat::new());
                proof {
                    assert(document.spec_bytes() =~= t_next);
                }
                pos + n
            },
            EditCommand::Delete { pos, text } => {
                let n = text.as_str().as_bytes().len();
                document.delete(std::ops::Range { start: pos, end: pos + n });
                proof {
                    if n > 0 {
                        Buffer::lemma_cut_bound(bound, pos as int, pos + n, b.len() as int);
                    }
                    assert(document.spec_bytes() =~= t_next);
                }
                pos
            },
        };
        *self = Buffer {
            document,
            cursor_pos: new_cursor,
            selection_anchor: None,
            undo_stack,
            history,
        };
        true
    }
}


/// The line (newlines before the end) and column (characters since the last newline) at
/// the end of `cs`.
pub open spec fn line_col(cs: Seq<char>) -> (int, int)
    decreases cs.len(),
{
    if cs.len() == 0 {
        (0, 0)
    } else {
        let prev = line_col(cs.drop_last());
        if cs.last() == '\n' {
            (prev.0 + 1, 0)
        } else {
            (prev.0, prev.1 + 1)
        }
    }
}

/// The line and column of the characters of `s`.
fn line_col_of(s: &str) -> (r: (usize, usize))
    ensures
        r.0 as int == line_col(s@).0,
        r.1 as int == line_col(s@).1,
{
    let mut line: usize = 0;
    let mut col: usize = 0;
    let ghost all = s@;
    let nbytes = s.as_bytes().len();
    proof {
        crate::utf8_text::lemma_chars_le_bytes(s@);
    }
    for c in it: s.chars()
        invariant
            all == s@,
            s@.len() <= nbytes,
            it.seq() == s@,
            line as int == line_col(s@.take(it.index() as int)).0,
            col as int == line_col(s@.take(it.index() as int)).1,
            line + col <= it.index(),
    {
        proof {
            assert(s@.take(it.index() + 1).drop_last() =~= s@.take(it.index() as int));
        }
        if c == '\n' {
            line = line + 1;
            col = 0;
        } else {
            col = col + 1;
        }
    }
    proof {
        assert(s@.take(s@.len() as int) =~= s@);
    }
    (line, col)
}


/// The number of UTF-8 bytes of a character.
fn char_len(c: char) -> (n: usize)
    ensures
        n == encode_scalar(c as u32).len(),
        1 <= n <= 4,
{
    let v = c as u32;
    if v <= 0x7f {
        1
    } else if v <= 0x7ff {
        2
    } else if v <= 0xffff {
        3
    } else {
        4
    }
}

/// The bytes of the first `k + 1` characters are those of the first `k` and of character `k`.
proof fn lemma_bytes_take_step(cs: Seq<char>, k: int)
    requires
        0 <= k < cs.len(),
    ensures
        bytes_of(cs.take(k + 1)) == bytes_of(cs.take(k)) + encode_scalar(cs[k] as u32),
{
    let one = seq![cs[k]];
    assert(cs.take(k + 1) =~= cs.take(k) + one);
    lemma_encode_concat(cs.take(k), one);
    assert(one.drop_first() =~= Seq::<char>::empty());
    assert(encode_utf8(Seq::<char>::empty()) =~= Seq::<u8>::empty());
    assert(encode_utf8(one) == encode_scalar(one[0] as u32) + encode_utf8(one.drop_first()));
    assert(encode_utf8(one) =~= encode_scalar(cs[k] as u32));
}

/// The characters of `s` before byte `pos` (a boundary).
fn chars_before(s: &str, pos: usize) -> (r: &str)
    requires
        valid_pos(bytes_of(s@), pos as int),
    ensures
        bytes_of(r@) == bytes_of(s@).take(pos as int),
        r@ == decode_utf8(bytes_of(s@).take(pos as int)),
{
    let (head, tail) = s.split_at(pos);
    proof {
        assert(bytes_of(head@) =~= bytes_of(s@).take(pos as int));
    }
    head
}

/// The line and column of byte position `pos` (a boundary) of `s`.
fn position_line_col(s: &str, pos: usize) -> (r: (usize, usize))
    requires
        valid_pos(bytes_of(s@), pos as int),
    ensures
        r.0 as int == line_col(decode_utf8(bytes_of(s@).take(pos as int))).0,
        r.1 as int == line_col(decode_utf8(bytes_of(s@).take(pos as int))).1,
{
    let head = chars_before(s, pos);
    line_col_of(head)
}

/// The largest character boundary of `b` at or below `pos`, and `b`'s length for positions
/// past the end.
pub open spec fn snapped(b: Seq<u8>, pos: int, r: int) -> bool {
    &&& valid_pos(b, r)
    &&& (pos >= b.len() ==> r == b.len())
    &&& (pos < b.len() ==> r <= pos && forall|k: int| r < k <= pos ==> !is_char_boundary(b, k))
}

/// Snap a byte position to a character boundary: the end for positions past it, else the
/// nearest boundary at or before it.
fn snap_to_char_boundary(s: &str, pos: usize) -> (r: usize)
    ensures
        snapped(bytes_of(s@), pos as int, r as int),
{
    let n = s.as_bytes().len();
    proof {
        is_char_boundary_start_end_of_seq(bytes_of(s@));
    }
    if pos >= n {
        return n;
    }
    let mut p = pos;
    while p > 0 && !s.is_char_boundary(p)
        invariant
            p <= pos < n,
            n == bytes_of(s@).len(),
            is_char_boundary(bytes_of(s@), 0),
            forall|k: int| p < k <= pos ==> !is_char_boundary(bytes_of(s@), k),
        decreases p,
    {
        p = p - 1;
    }
    p
}

impl Buffer {
    fn text(&self) -> (r: &str)
        ensures
            r@ == self.document.spec_text(),
    {
        self.document.text()
    }

    fn len(&self) -> (r: usize)
        ensures
            r == self.bytes().len(),
    {
        self.document.len()
    }

    fn facts(&self)
        ensures
            valid_utf8(self.bytes()),
            valid_pos(self.bytes(), self.cursor_pos as int),
            self.selection_anchor matches Some(a) ==> valid_pos(self.bytes(), a as int),
            self.document.spec_run_bound() <= self.bytes().len(),
            history_ok(self.undo_stack@.commands, self.history@),
            0 <= self.undo_stack@.index <= self.undo_stack@.commands.len() <= undo_limit(),
            self.history@[self.undo_stack@.index] == self.bytes(),
            self.bytes().len() <= usize::MAX,
    {
        proof {
            use_type_invariant(self);
        }
    }

    /// Move the cursor (to a boundary).
    fn set_cursor(&mut self, pos: usize)
        requires
            valid_pos(old(self).bytes(), pos as int),
        ensures
            *final(self) == (Buffer { cursor_pos: pos, ..*old(self) }),
    {
        proof {
            use_type_invariant(&*self);
        }
        let Buffer { document, cursor_pos, selection_anchor, undo_stack, history } = self.take();
        *self = Buffer { document, cursor_pos: pos, selection_anchor, undo_stack, history };
    }

    /// Set or drop the selection anchor (at a boundary).
    fn set_anchor(&mut self, anchor: Option<usize>)
        requires
            anchor matches Some(a) ==> valid_pos(old(self).bytes(), a as int),
        ensures
            *final(self) == (Buffer { selection_anchor: anchor, ..*old(self) }),
    {
        proof {
            use_type_invariant(&*self);
        }
        let Buffer { document, cursor_pos, selection_anchor, undo_stack, history } = self.take();
        *self = Buffer { document, cursor_pos, selection_anchor: anchor, undo_stack, history };
    }

    /// Keep the next recorded edit from merging into the last, or let it merge again.
    fn set_merge(&mut self, enabled: bool)
        ensures
            final(self).document == old(self).document,
            final(self).cursor_pos == old(self).cursor_pos,
            final(self).selection_anchor == old(self).selection_anchor,
            final(self).history == old(self).history,
            final(self).undo_stack@ == (UndoView { merge_enabled: enabled, ..old(self).undo_stack@ }),
    {
        proof {
            use_type_invariant(&*self);
        }
        let Buffer { document, cursor_pos, selection_anchor, mut undo_stack, history } =
            self.take();
        if enabled {
            undo_stack.enable_merge();
        } else {
            undo_stack.break_merge();
        }
        *self = Buffer { document, cursor_pos, selection_anchor, undo_stack, history };
    }

    /// Flip, over `start..end`, the flags of `toggle` (set them all unless all are set).
    fn toggle_format(&mut self, start: usize, end: usize, toggle: CharFormat)
        requires
            end <= old(self).bytes().len(),
        ensures
            final(self).cursor_pos == old(self).cursor_pos,
            final(self).selection_anchor == old(self).selection_anchor,
            final(self).undo_stack@ == old(self).undo_stack@,
            final(self).history == old(self).history,
            final(self).document.spec_text() == old(self).document.spec_text(),
            final(self).document.spec_block_runs() == old(self).document.spec_block_runs(),
            forall|p: int|
                #![trigger final(self).document.spec_format(p)]
                final(self).document.spec_format(p) == (if start <= p < end {
                    crate::char_format::with_flags(
                        old(self).document.spec_format(p),
                        toggle,
                        !crate::styled_document::range_has_flags(
                            old(self).document.spec_format_runs(),
                            start as int,
                            end as int,
                            toggle,
                        ),
                    )
                } else {
                    old(self).document.spec_format(p)
                }),
    {
        proof {
            use_type_invariant(&*self);
        }
        let Buffer { mut document, cursor_pos, selection_anchor, undo_stack, history } =
            self.take();
        document.toggle_format(std::ops::Range { start, end }, toggle);
        *self = Buffer { document, cursor_pos, selection_anchor, undo_stack, history };
    }

    /// Set, over `start..end`, each flag of `flags` to `apply`.
    fn change_format(&mut self, start: usize, end: usize, flags: CharFormat, apply: bool)
        requires
            start < end <= old(self).bytes().len(),
        ensures
            final(self).cursor_pos == old(self).cursor_pos,
            final(self).selection_anchor == old(self).selection_anchor,
            final(self).undo_stack@ == old(self).undo_stack@,
            final(self).history == old(self).history,
            final(self).document.spec_text() == old(self).document.spec_text(),
            final(self).document.spec_block_runs() == old(self).document.spec_block_runs(),
            forall|p: int|
                #![trigger final(self).document.spec_format(p)]
                final(self).document.spec_format(p) == (if start <= p < end {
                    crate::char_format::with_flags(old(self).document.spec_format(p), flags, apply)
                } else {
                    old(self).document.spec_format(p)
                }),
    {
        proof {
            use_type_invariant(&*self);
        }
        let Buffer { mut document, cursor_pos, selection_anchor, undo_stack, history } =
            self.take();
        document.apply_format_change(start, end, &flags, apply);
        *self = Buffer { document, cursor_pos, selection_anchor, undo_stack, history };
    }
}


/// Word wrapping mode.
#[derive(Debug, Clone, Copy, PartialEq, Eq, Structural, Hash)]
pub enum TextWrapMode {
    /// No wrapping: horizontal scrolling instead.
    NoWrap,
    /// Wrap at word boundaries (the default).
    Word,
    /// Wrap at character boundaries.
    Character,
    /// Wrap at words, falling back to characters for long words.
    WordOrCharacter,
}

impl Default for TextWrapMode {
    fn default() -> (r: Self)
        ensures
            r == TextWrapMode::Word,
    {
        TextWrapMode::Word
    }
}

/// A notification the editor owes its listeners.
#[derive(Debug, Clone, Copy, PartialEq, Eq, Structural)]
pub enum TextEditEvent {
    /// The text changed.
    TextChanged,
    /// The cursor moved to this line and column.
    CursorPositionChanged(usize, usize),
    /// The selection changed.
    SelectionChanged,
    /// The format state changed: bold, italic, underline, strikethrough.
    FormatChanged(bool, bool, bool, bool),
    /// Find was requested.
    FindRequested,
    /// Find and replace was requested.
    FindReplaceRequested,
    /// Find next was requested.
    FindNextRequested,
    /// Find previous was requested.
    FindPreviousRequested,
}

/// The editor as a value.
pub struct TextEditState {
    /// The styled text.
    pub doc: StyledDocument,
    /// The cursor, a byte position.
    pub cursor: int,
    /// The selection anchor; the selection runs between it and the cursor.
    pub anchor: Option<int>,
    /// The edit history.
    pub history: UndoView,
    /// The text (as bytes) before and after each recorded edit.
    pub texts: Seq<Seq<u8>>,
    pub placeholder: Seq<char>,
    /// The format that typing gets when nothing is selected.
    pub cursor_format: CharFormat,
    pub wrap_mode: TextWrapMode,
    pub read_only: bool,
    pub text_color: Color,
    pub background_color: Color,
    /// A mouse drag selection is under way.
    pub dragging: bool,
    pub tab_width: int,
    /// Highlighted search matches, as byte ranges.
    pub search_matches: Seq<(usize, usize)>,
    /// The focused search match.
    pub current_match: Option<usize>,
    /// Notifications not yet taken.
    pub events: Seq<TextEditEvent>,
}

/// A multi-line text editor: a styled document with a cursor, a selection, an edit
/// history with undo and redo, and a format for typing.
pub struct TextEdit {
    buffer: Buffer,
    placeholder: String,
    cursor_format: CharFormat,
    wrap_mode: TextWrapMode,
    read_only: bool,
    text_color: Color,
    background_color: Color,
    is_dragging: bool,
    tab_width: usize,
    search_matches: Vec<(usize, usize)>,
    current_search_match: Option<usize>,
    events: Vec<TextEditEvent>,
}

pub open spec fn opt_pos(a: Option<usize>) -> Option<int> {
    match a {
        Some(x) => Some(x as int),
        None => None,
    }
}

impl View for TextEdit {
    type V = TextEditState;

    closed spec fn view(&self) -> TextEditState {
        TextEditState {
            doc: self.buffer.document,
            cursor: self.buffer.cursor_pos as int,
            anchor: opt_pos(self.buffer.selection_anchor),
            history: self.buffer.undo_stack@,
            texts: self.buffer.history@,
            placeholder: self.placeholder@,
            cursor_format: self.cursor_format,
            wrap_mode: self.wrap_mode,
            read_only: self.read_only,
            text_color: self.text_color,
            background_color: self.background_color,
            dragging: self.is_dragging,
            tab_width: self.tab_width as int,
            search_matches: self.search_matches@,
            current_match: self.current_search_match,
            events: self.events@,
        }
    }
}

/// The text as UTF-8 bytes.
pub open spec fn text_bytes(s: TextEditState) -> Seq<u8> {
    s.doc.spec_bytes()
}

/// What every editor state satisfies: cursor and anchor on boundaries of the text, the
/// formatting within it, and a history whose current text is the text.
pub open spec fn state_ok(s: TextEditState) -> bool {
    let b = text_bytes(s);
    &&& valid_utf8(b)
    &&& b.len() <= usize::MAX
    &&& valid_pos(b, s.cursor)
    &&& (s.anchor matches Some(a) ==> valid_pos(b, a))
    &&& s.doc.spec_run_bound() <= b.len()
    &&& history_ok(s.history.commands, s.texts)
    &&& 0 <= s.history.index <= s.history.commands.len() <= undo_limit()
    &&& s.texts[s.history.index] == b
}

/// The selection as (start, end) byte positions, when there is an anchor.
pub open spec fn sel_range(s: TextEditState) -> Option<(int, int)> {
    match s.anchor {
        Some(a) => Some(
            if a <= s.cursor {
                (a, s.cursor)
            } else {
                (s.cursor, a)
            },
        ),
        None => None,
    }
}

/// Whether some text is selected: there is an anchor away from the cursor.
pub open spec fn has_sel(s: TextEditState) -> bool {
    s.anchor is Some && s.anchor != Some(s.cursor)
}

/// The line and column of the cursor.
pub open spec fn cursor_lc(s: TextEditState) -> (int, int) {
    line_col(decode_utf8(text_bytes(s).take(s.cursor)))
}

/// The notification that the cursor is now at its line and column.
pub open spec fn cursor_event(s: TextEditState) -> TextEditEvent {
    TextEditEvent::CursorPositionChanged(cursor_lc(s).0 as usize, cursor_lc(s).1 as usize)
}

/// The settings and side state of a new editor: no placeholder, plain typing format,
/// word wrap, editable, black on white, no drag, tab width 4, no search matches, no
/// notifications.
pub open spec fn fresh_settings(s: TextEditState) -> bool {
    &&& s.placeholder == Seq::<char>::empty()
    &&& s.cursor_format == plain_char_format()
    &&& s.wrap_mode == TextWrapMode::Word
    &&& !s.read_only
    &&& s.text_color == (Color { r: 0, g: 0, b: 0, a: 255 })
    &&& s.background_color == (Color { r: 255, g: 255, b: 255, a: 255 })
    &&& !s.dragging
    &&& s.tab_width == 4
    &&& s.search_matches == Seq::<(usize, usize)>::empty()
    &&& s.current_match is None
    &&& s.events == Seq::<TextEditEvent>::empty()
}

/// A new editor holding `text` unstyled, with the cursor at `cursor`, no anchor and an
/// empty history.
pub open spec fn fresh_text(s: TextEditState, text: Seq<char>, cursor: int) -> bool {
    &&& s.doc.spec_text() == text
    &&& s.doc.spec_format_runs().len() == 0
    &&& s.doc.spec_block_runs().len() == 0
    &&& s.cursor == cursor
    &&& s.anchor is None
    &&& s.history == (UndoView { commands: Seq::empty(), index: 0, merge_enabled: true })
}

impl TextEdit {
    /// Every editor state is well formed.
    pub fn check_state(&self)
        ensures
            state_ok(self@),
    {
        self.buffer.facts();
    }

    fn with_buffer(buffer: Buffer) -> (r: Self)
        ensures
            r.buffer == buffer,
            fresh_settings(r@),
    {
        let r = TextEdit {
            buffer,
            placeholder: String::new(),
            cursor_format: CharFormat::new(),
            wrap_mode: TextWrapMode::Word,
            read_only: false,
            text_color: Color::from_rgb8(0, 0, 0),
            background_color: Color::from_rgb8(255, 255, 255),
            is_dragging: false,
            tab_width: 4,
            search_matches: Vec::new(),
            current_search_match: None,
            events: Vec::new(),
        };
        proof {
            assert(r@.search_matches =~= Seq::<(usize, usize)>::empty());
            assert(r@.events =~= Seq::<TextEditEvent>::empty());
        }
        r
    }

    /// A new, empty editor: word wrap, editable, tab width 4, black on white.
    pub fn new() -> (r: Self)
        ensures
            fresh_text(r@, Seq::empty(), 0),
            fresh_settings(r@),
    {
        TextEdit::with_buffer(Buffer::new())
    }

    /// A new editor holding `text` (unstyled), the cursor at its end.
    pub fn with_text(text: &str) -> (r: Self)
        ensures
            fresh_text(r@, text@, bytes_of(text@).len() as int),
            fresh_settings(r@),
    {
        TextEdit::with_buffer(Buffer::from_text(text))
    }
}


/// Whether two states agree on everything but the text, formatting, cursor, anchor,
/// history, typing format and notifications.
pub open spec fn same_settings(a: TextEditState, b: TextEditState) -> bool {
    &&& a.placeholder == b.placeholder
    &&& a.wrap_mode == b.wrap_mode
    &&& a.read_only == b.read_only
    &&& a.text_color == b.text_color
    &&& a.background_color == b.background_color
    &&& a.dragging == b.dragging
    &&& a.tab_width == b.tab_width
    &&& a.search_matches == b.search_matches
    &&& a.current_match == b.current_match
}

impl TextEdit {
    /// The text.
    pub fn text(&self) -> (r: &str)
        ensures
            r@ == self@.doc.spec_text(),
    {
        self.buffer.text()
    }

    /// The text, as a new string.
    pub fn to_plain_text(&self) -> (r: String)
        ensures
            r@ == self@.doc.spec_text(),
    {
        owned(self.buffer.text())
    }

    /// The styled document behind the text.
    pub fn document(&self) -> (r: &StyledDocument)
        ensures
            *r == self@.doc,
    {
        &self.buffer.document
    }

    /// Whether any text has character formatting.
    pub fn has_formatting(&self) -> (r: bool)
        ensures
            r == (self@.doc.spec_format_runs().len() > 0),
    {
        self.buffer.document.format_runs().len() > 0
    }

    /// Hand out the notifications so far and forget them.
    pub fn take_events(&mut self) -> (r: Vec<TextEditEvent>)
        ensures
            r@ == old(self)@.events,
            final(self)@ == (TextEditState { events: Seq::empty(), ..old(self)@ }),
    {
        let mut out: Vec<TextEditEvent> = Vec::new();
        std::mem::swap(&mut out, &mut self.events);
        out
    }

    fn emit_cursor_position(&mut self)
        ensures
            final(self)@ == (TextEditState {
                events: old(self)@.events.push(cursor_event(old(self)@)),
                ..old(self)@
            }),
    {
        self.buffer.facts();
        let (line, col) = position_line_col(self.buffer.text(), self.buffer.cursor_pos);
        self.events.push(TextEditEvent::CursorPositionChanged(line, col));
    }

    /// Replace the whole text (unstyled) when it differs: the cursor goes to the end, the
    /// selection, history and typing format are reset, and the change is notified.
    pub fn set_text(&mut self, text: &str)
        ensures
            old(self)@.doc.spec_text() == text@ ==> final(self)@ == old(self)@,
            old(self)@.doc.spec_text() != text@ ==> {
                &&& fresh_text(final(self)@, text@, bytes_of(text@).len() as int)
                &&& final(self)@.cursor_format == plain_char_format()
                &&& same_settings(final(self)@, old(self)@)
                &&& final(self)@.events == old(self)@.events.push(TextEditEvent::TextChanged).push(
                    cursor_event(final(self)@),
                )
            },
    {
        if same_text(self.buffer.text(), text) {
            return ;
        }
        self.buffer.set_text(text);
        self.cursor_format = CharFormat::new();
        self.events.push(TextEditEvent::TextChanged);
        self.emit_cursor_position();
    }

    /// The placeholder shown while the text is empty.
    pub fn placeholder(&self) -> (r: &str)
        ensures
            r@ == self@.placeholder,
    {
        self.placeholder.as_str()
    }

    /// Set the placeholder.
    pub fn set_placeholder(&mut self, placeholder: &str)
        ensures
            final(self)@ == (TextEditState { placeholder: placeholder@, ..old(self)@ }),
    {
        self.placeholder = owned(placeholder);
    }

    /// This editor with the given placeholder.
    pub fn with_placeholder(self, placeholder: &str) -> (r: Self)
        ensures
            r@ == (TextEditState { placeholder: placeholder@, ..self@ }),
    {
        let mut s = self;
        s.set_placeholder(placeholder);
        s
    }

    /// The word wrap mode.
    pub fn wrap_mode(&self) -> (r: TextWrapMode)
        ensures
            r == self@.wrap_mode,
    {
        self.wrap_mode
    }

    /// Set the word wrap mode.
    pub fn set_wrap_mode(&mut self, mode: TextWrapMode)
        ensures
            final(self)@ == (TextEditState { wrap_mode: mode, ..old(self)@ }),
    {
        self.wrap_mode = mode;
    }

    /// This editor with the given word wrap mode.
    pub fn with_wrap_mode(self, mode: TextWrapMode) -> (r: Self)
        ensures
            r@ == (TextEditState { wrap_mode: mode, ..self@ }),
    {
        let mut s = self;
        s.set_wrap_mode(mode);
        s
    }

    /// Whether editing is refused.
    pub fn is_read_only(&self) -> (r: bool)
        ensures
            r == self@.read_only,
    {
        self.read_only
    }

    /// Refuse or allow editing.
    pub fn set_read_only(&mut self, read_only: bool)
        ensures
            final(self)@ == (TextEditState { read_only: read_only, ..old(self)@ }),
    {
        self.read_only = read_only;
    }

    /// This editor, read-only or not.
    pub fn with_read_only(self, read_only: bool) -> (r: Self)
        ensures
            r@ == (TextEditState { read_only: read_only, ..self@ }),
    {
        let mut s = self;
        s.set_read_only(read_only);
        s
    }

    /// The text color.
    pub fn text_color(&self) -> (r: Color)
        ensures
            r == self@.text_color,
    {
        self.text_color
    }

    /// Set the text color.
    pub fn set_text_color(&mut self, color: Color)
        ensures
            final(self)@ == (TextEditState { text_color: color, ..old(self)@ }),
    {
        self.text_color = color;
    }

    /// This editor with the given text color.
    pub fn with_text_color(self, color: Color) -> (r: Self)
        ensures
            r@ == (TextEditState { text_color: color, ..self@ }),
    {
        let mut s = self;
        s.set_text_color(color);
        s
    }

    /// The background color.
    pub fn background_color(&self) -> (r: Color)
        ensures
            r == self@.background_color,
    {
        self.background_color
    }

    /// Set the background color.
    pub fn set_background_color(&mut self, color: Color)
        ensures
            final(self)@ == (TextEditState { background_color: color, ..old(self)@ }),
    {
        self.background_color = color;
    }

    /// This editor with the given background color.
    pub fn with_background_color(self, color: Color) -> (r: Self)
        ensures
            r@ == (TextEditState { background_color: color, ..self@ }),
    {
        let mut s = self;
        s.set_background_color(color);
        s
    }

    /// How many spaces Tab inserts.
    pub fn tab_width(&self) -> (r: usize)
        ensures
            r == self@.tab_width,
    {
        self.tab_width
    }

    /// Set how many spaces Tab inserts (at least one).
    pub fn set_tab_width(&mut self, width: usize)
        ensures
            final(self)@ == (TextEditState {
                tab_width: if width < 1 {
                    1
                } else {
                    width as int
                },
                ..old(self)@
            }),
    {
        self.tab_width = if width < 1 {
            1
        } else {
            width
        };
    }

    /// This editor with the given tab width (at least one).
    pub fn with_tab_width(self, width: usize) -> (r: Self)
        ensures
            r@ == (TextEditState {
                tab_width: if width < 1 {
                    1
                } else {
                    width as int
                },
                ..self@
            }),
    {
        let mut s = self;
        s.set_tab_width(width);
        s
    }

    /// The format typing gets when nothing is selected.
    pub fn cursor_format(&self) -> (r: CharFormat)
        ensures
            r == self@.cursor_format,
    {
        self.cursor_format
    }

    /// Set the format typing gets when nothing is selected.
    pub fn set_cursor_format(&mut self, format: CharFormat)
        ensures
            final(self)@ == (TextEditState { cursor_format: format, ..old(self)@ }),
    {
        self.cursor_format = format;
    }

    /// The cursor, as a byte position.
    pub fn cursor_position(&self) -> (r: usize)
        ensures
            r == self@.cursor,
    {
        self.buffer.cursor_pos
    }

    /// The cursor's line and column (in characters).
    pub fn cursor_line_column(&self) -> (r: (usize, usize))
        ensures
            r.0 as int == cursor_lc(self@).0,
            r.1 as int == cursor_lc(self@).1,
    {
        self.buffer.facts();
        position_line_col(self.buffer.text(), self.buffer.cursor_pos)
    }

    /// Move the cursor to `pos`, snapped to a character boundary at or before it (the end
    /// for positions past it); a move is notified.
    pub fn set_cursor_position(&mut self, pos: usize)
        ensures
            ({
                let b = text_bytes(old(self)@);
                &&& snapped(b, pos as int, final(self)@.cursor)
                &&& final(self)@ == (if final(self)@.cursor == old(self)@.cursor {
                    old(self)@
                } else {
                    TextEditState {
                        cursor: final(self)@.cursor,
                        events: old(self)@.events.push(
                            cursor_event(TextEditState { cursor: final(self)@.cursor, ..old(self)@ }),
                        ),
                        ..old(self)@
                    }
                })
            }),
    {
        let p = snap_to_char_boundary(self.buffer.text(), pos);
        if p != self.buffer.cursor_pos {
            self.buffer.set_cursor(p);
            self.emit_cursor_position();
        }
    }

    /// Whether some text is selected.
    pub fn has_selection(&self) -> (r: bool)
        ensures
            r == has_sel(self@),
    {
        match self.buffer.selection_anchor {
            Some(a) => a != self.buffer.cursor_pos,
            None => false,
        }
    }

    /// The selection as (start, end) byte positions, if there is an anchor.
    pub fn selection_range(&self) -> (r: Option<(usize, usize)>)
        ensures
            match r {
                Some(p) => sel_range(self@) == Some((p.0 as int, p.1 as int)),
                None => sel_range(self@) is None,
            },
    {
        match self.buffer.selection_anchor {
            Some(a) => {
                let c = self.buffer.cursor_pos;
                if a <= c {
                    Some((a, c))
                } else {
                    Some((c, a))
                }
            },
            None => None,
        }
    }

    /// The selected text (empty without a selection).
    pub fn selected_text(&self) -> (r: String)
        ensures
            match sel_range(self@) {
                Some(p) => bytes_of(r@) == text_bytes(self@).subrange(p.0, p.1),
                None => r@ == Seq::<char>::empty(),
            },
    {
        self.buffer.facts();
        match self.selection_range() {
            Some((start, end)) => crate::utf8_text::byte_slice(self.buffer.text(), start, end),
            None => String::new(),
        }
    }

    /// Select the whole text, if there is any.
    pub fn select_all(&mut self)
        ensures
            text_bytes(old(self)@).len() == 0 ==> final(self)@ == old(self)@,
            text_bytes(old(self)@).len() > 0 ==> final(self)@ == (TextEditState {
                anchor: Some(0),
                cursor: text_bytes(old(self)@).len() as int,
                events: old(self)@.events.push(TextEditEvent::SelectionChanged),
                ..old(self)@
            }),
    {
        self.buffer.facts();
        let n = self.buffer.len();
        if n > 0 {
            proof {
                is_char_boundary_start_end_of_seq(self.buffer.bytes());
            }
            self.buffer.set_anchor(Some(0));
            self.buffer.set_cursor(n);
            self.events.push(TextEditEvent::SelectionChanged);
        }
    }

    /// Drop the selection anchor, if there is one.
    pub fn clear_selection(&mut self)
        ensures
            final(self)@ == (if old(self)@.anchor is Some {
                TextEditState {
                    anchor: None,
                    events: old(self)@.events.push(TextEditEvent::SelectionChanged),
                    ..old(self)@
                }
            } else {
                old(self)@
            }),
    {
        if self.buffer.selection_anchor.is_some() {
            self.buffer.set_anchor(None);
            self.events.push(TextEditEvent::SelectionChanged);
        }
    }

    /// Select from `start` to `end` (each held to the text and snapped to a boundary):
    /// the anchor at the start, the cursor at the end.
    pub fn set_selection(&mut self, start: usize, end: usize)
        ensures
            ({
                let b = text_bytes(old(self)@);
                let mid = TextEditState { anchor: final(self)@.anchor, cursor: final(self)@.cursor, ..old(self)@ };
                &&& final(self)@.anchor matches Some(a) && snapped(b, start as int, a)
                &&& snapped(b, end as int, final(self)@.cursor)
                &&& final(self)@ == TextEditState {
                    events: old(self)@.events.push(TextEditEvent::SelectionChanged).push(
                        cursor_event(mid),
                    ),
                    ..mid
                }
            }),
    {
        let a = snap_to_char_boundary(self.buffer.text(), start);
        let c = snap_to_char_boundary(self.buffer.text(), end);
        self.buffer.set_anchor(Some(a));
        self.buffer.set_cursor(c);
        self.events.push(TextEditEvent::SelectionChanged);
        self.emit_cursor_position();
    }
}


/// The recorded deletion of bytes `start..end` of `b`.
pub open spec fn del_edit(b: Seq<u8>, start: int, end: int) -> EditView {
    EditView { is_insert: false, pos: start, text: decode_utf8(b.subrange(start, end)) }
}

/// The recorded insertion of `text` at `pos`.
pub open spec fn ins_edit(pos: int, text: Seq<char>) -> EditView {
    EditView { is_insert: true, pos, text }
}

/// The part that typing replaces: the selection, or the empty range at the cursor.
pub open spec fn typing_range(s: TextEditState) -> (int, int) {
    if has_sel(s) {
        sel_range(s)->0
    } else {
        (s.cursor, s.cursor)
    }
}

/// Whether `mid` has the formats of `doc` after its bytes `start..end` were deleted.
pub open spec fn formats_after_delete(doc: StyledDocument, start: int, end: int, mid: StyledDocument) -> bool {
    forall|p: int|
        #![trigger mid.spec_format(p)]
        mid.spec_format(p) == format_after_delete(doc, start, end, p)
}

/// `new` is `old` after `text` was typed (not read-only, `text` not empty): the selection,
/// if any, is deleted and recorded, then `text` goes in at its start with the typing format
/// and is recorded; the cursor follows the new text, without anchor. Without a selection
/// and without merging into the last recorded edit, the text before the typing is the
/// history's previous text.
pub open spec fn typed(old: TextEditState, text: Seq<char>, new: TextEditState) -> bool {
    let b = text_bytes(old);
    let n = bytes_of(text).len() as int;
    let (st, en) = typing_range(old);
    &&& text_bytes(new) == b.take(st) + bytes_of(text) + b.skip(en)
    &&& new.cursor == st + n
    &&& new.anchor is None
    &&& new.history == (if has_sel(old) {
        push_step(push_step(old.history, del_edit(b, st, en)), ins_edit(st, text))
    } else {
        push_step(old.history, ins_edit(st, text))
    })
    &&& !has_sel(old) ==> forall|p: int|
        #![trigger new.doc.spec_format(p)]
        new.doc.spec_format(p) == format_after_insert(old.doc, st, n, old.cursor_format, p)
    &&& has_sel(old) ==> exists|mid: StyledDocument|
        #[trigger] formats_after_delete(old.doc, st, en, mid) && forall|p: int|
            #![trigger new.doc.spec_format(p)]
            new.doc.spec_format(p) == format_after_insert(mid, st, n, old.cursor_format, p)
    &&& new.doc.spec_block_runs() == old.doc.spec_block_runs()
    &&& new.cursor_format == old.cursor_format
    &&& same_settings(new, old)
    &&& new.events == old.events.push(TextEditEvent::TextChanged).push(cursor_event(new))
    &&& (!has_sel(old) && !merges(old.history, ins_edit(st, text))) ==> new.texts[new.history.index
        - 1] == b
}

/// `new` is `old` with the bytes `st..en` removed and the removal recorded; the cursor at
/// `st`. The text before is the history's previous text unless the removal merged into the
/// last recorded edit.
pub open spec fn range_removed(old: TextEditState, st: int, en: int, new: TextEditState) -> bool {
    let b = text_bytes(old);
    &&& text_bytes(new) == b.take(st) + b.skip(en)
    &&& new.cursor == st
    &&& new.history == push_step(old.history, del_edit(b, st, en))
    &&& forall|p: int|
        #![trigger new.doc.spec_format(p)]
        new.doc.spec_format(p) == format_after_delete(old.doc, st, en, p)
    &&& new.doc.spec_block_runs() == old.doc.spec_block_runs()
    &&& new.cursor_format == old.cursor_format
    &&& same_settings(new, old)
    &&& !merges(old.history, del_edit(b, st, en)) ==> new.texts[new.history.index - 1] == b
}

/// `new` is `old` after its selection was deleted and recorded; the cursor at its start,
/// without anchor; the change and the new cursor position are notified.
pub open spec fn selection_deleted(old: TextEditState, new: TextEditState) -> bool {
    let (st, en) = sel_range(old)->0;
    &&& range_removed(old, st, en, new)
    &&& new.anchor is None
    &&& new.events == old.events.push(TextEditEvent::TextChanged).push(cursor_event(new))
}

/// `new` is `old` after an undo that found an edit: the text is the history's previous
/// text, the position steps back, the cursor goes where the edit was (after it, for an
/// undone deletion), without anchor.
pub open spec fn undone(old: TextEditState, new: TextEditState) -> bool {
    let e = old.history.commands[old.history.index - 1];
    &&& text_bytes(new) == old.texts[old.history.index - 1]
    &&& new.history == undo_step(old.history)
    &&& new.texts == old.texts
    &&& new.cursor == (if e.is_insert {
        e.pos
    } else {
        e.pos + edit_len(e)
    })
    &&& new.anchor is None
    &&& new.cursor_format == old.cursor_format
    &&& same_settings(new, old)
    &&& new.events == old.events.push(TextEditEvent::TextChanged).push(cursor_event(new))
}

/// `new` is `old` after a redo that found an edit: the text is the history's next text,
/// the position steps forward, the cursor goes after a redone insertion (where a redone
/// deletion was), without anchor.
pub open spec fn redone(old: TextEditState, new: TextEditState) -> bool {
    let e = old.history.commands[old.history.index];
    &&& text_bytes(new) == old.texts[old.history.index + 1]
    &&& new.history == redo_step(old.history)
    &&& new.texts == old.texts
    &&& new.cursor == (if e.is_insert {
        e.pos + edit_len(e)
    } else {
        e.pos
    })
    &&& new.anchor is None
    &&& new.cursor_format == old.cursor_format
    &&& same_settings(new, old)
    &&& new.events == old.events.push(TextEditEvent::TextChanged).push(cursor_event(new))
}

impl TextEdit {
    fn delete_selection_internal(&mut self)
        requires
            has_sel(old(self)@),
        ensures
            ({
                let b = text_bytes(old(self)@);
                let (st, en) = sel_range(old(self)@)->0;
                &&& text_bytes(final(self)@) == b.take(st) + b.skip(en)
                &&& final(self)@.cursor == st
                &&& final(self)@.anchor is None
                &&& final(self)@.history == push_step(old(self)@.history, del_edit(b, st, en))
                &&& forall|p: int|
                    #![trigger final(self)@.doc.spec_format(p)]
                    final(self)@.doc.spec_format(p) == format_after_delete(old(self)@.doc, st, en, p)
                &&& final(self)@.doc.spec_block_runs() == old(self)@.doc.spec_block_runs()
                &&& final(self)@.cursor_format == old(self)@.cursor_format
                &&& same_settings(final(self)@, old(self)@)
                &&& final(self)@.events == old(self)@.events
                &&& !merges(old(self)@.history, del_edit(b, st, en)) ==> final(self)@.texts[
                    final(self)@.history.index - 1] == b
            }),
    {
        self.buffer.facts();
        let (start, end) = self.selection_range().unwrap();
        self.buffer.delete_range(start, end);
    }

    /// Insert `text` at the cursor, replacing the selection if there is one; typing gets
    /// the typing format. Nothing happens when read-only or for empty text.
    pub fn insert_text(&mut self, text: &str)
        requires
            text_bytes(old(self)@).len() + bytes_of(text@).len() <= usize::MAX,
        ensures
            (old(self)@.read_only || text@.len() == 0) ==> final(self)@ == old(self)@,
            !(old(self)@.read_only || text@.len() == 0) ==> typed(old(self)@, text@, final(self)@),
    {
        proof {
            crate::utf8_text::lemma_chars_le_bytes(text@);
        }
        if self.read_only || text.as_bytes().len() == 0 {
            return ;
        }
        self.check_state();
        let ghost s0 = self@;
        let had_selection = self.has_selection();
        if had_selection {
            self.delete_selection_internal();
            proof {
                let b = text_bytes(s0);
                let (st, en) = typing_range(s0);
                assert((b.take(st) + b.skip(en)).len() <= b.len());
            }
        }
        let ghost mid = self@.doc;
        let format = self.cursor_format;
        self.buffer.insert_at_cursor(text, format);
        self.events.push(TextEditEvent::TextChanged);
        self.emit_cursor_position();
        proof {
            let b = text_bytes(s0);
            let (st, en) = typing_range(s0);
            if had_selection {
                assert(formats_after_delete(s0.doc, st, en, mid));
                assert(b.take(st) + b.skip(en) == text_bytes(TextEditState { doc: mid, ..s0 }));
                let m = b.take(st) + b.skip(en);
                assert(m.take(st) =~= b.take(st));
                assert(m.skip(st) =~= b.skip(en));
            } else {
                assert(st == en);
            }
        }
    }
}


impl TextEdit {
    /// Delete the selected text. Nothing happens when read-only or without a selection.
    pub fn delete_selection(&mut self)
        ensures
            (old(self)@.read_only || !has_sel(old(self)@)) ==> final(self)@ == old(self)@,
            !(old(self)@.read_only || !has_sel(old(self)@)) ==> selection_deleted(
                old(self)@,
                final(self)@,
            ),
    {
        if self.read_only || !self.has_selection() {
            return ;
        }
        self.delete_selection_internal();
        self.events.push(TextEditEvent::TextChanged);
        self.emit_cursor_position();
    }

    /// Delete all text and formatting, recording the deletion. Nothing happens when
    /// read-only or already empty.
    pub fn clear(&mut self)
        ensures
            (old(self)@.read_only || text_bytes(old(self)@).len() == 0) ==> final(self)@ == old(
                self,
            )@,
            !(old(self)@.read_only || text_bytes(old(self)@).len() == 0) ==> {
                &&& final(self)@.doc.spec_text() == Seq::<char>::empty()
                &&& final(self)@.doc.spec_format_runs().len() == 0
                &&& final(self)@.doc.spec_block_runs().len() == 0
                &&& final(self)@.cursor == 0
                &&& final(self)@.anchor is None
                &&& final(self)@.history == push_step(
                    old(self)@.history,
                    EditView { is_insert: false, pos: 0, text: old(self)@.doc.spec_text() },
                )
                &&& final(self)@.cursor_format == old(self)@.cursor_format
                &&& same_settings(final(self)@, old(self)@)
                &&& final(self)@.events == old(self)@.events.push(TextEditEvent::TextChanged).push(
                    cursor_event(final(self)@),
                )
            },
    {
        if self.read_only || self.buffer.len() == 0 {
            return ;
        }
        self.buffer.clear_all();
        self.events.push(TextEditEvent::TextChanged);
        self.emit_cursor_position();
    }

    /// Add `text` (unstyled, or in the format of a run it continues) at the end, recording
    /// it; the cursor stays. Nothing happens when read-only or for empty text.
    pub fn append(&mut self, text: &str)
        requires
            text_bytes(old(self)@).len() + bytes_of(text@).len() <= usize::MAX,
        ensures
            (old(self)@.read_only || text@.len() == 0) ==> final(self)@ == old(self)@,
            !(old(self)@.read_only || text@.len() == 0) ==> {
                let n = text_bytes(old(self)@).len() as int;
                &&& text_bytes(final(self)@) == text_bytes(old(self)@) + bytes_of(text@)
                &&& forall|p: int|
                    #![trigger final(self)@.doc.spec_format(p)]
                    final(self)@.doc.spec_format(p) == format_after_insert(
                        old(self)@.doc,
                        n,
                        bytes_of(text@).len() as int,
                        plain_char_format(),
                        p,
                    )
                &&& final(self)@.doc.spec_block_runs() == old(self)@.doc.spec_block_runs()
                &&& final(self)@.cursor == old(self)@.cursor
                &&& final(self)@.anchor == old(self)@.anchor
                &&& final(self)@.history == push_step(old(self)@.history, ins_edit(n, text@))
                &&& final(self)@.cursor_format == old(self)@.cursor_format
                &&& same_settings(final(self)@, old(self)@)
                &&& final(self)@.events == old(self)@.events.push(TextEditEvent::TextChanged)
            },
    {
        proof {
            crate::utf8_text::lemma_chars_le_bytes(text@);
        }
        if self.read_only || text.as_bytes().len() == 0 {
            return ;
        }
        self.buffer.append(text);
        self.events.push(TextEditEvent::TextChanged);
    }

    /// Whether there is an edit to undo.
    pub fn can_undo(&self) -> (r: bool)
        ensures
            r == (self@.history.index > 0),
    {
        self.buffer.undo_stack.can_undo()
    }

    /// Whether there is an edit to redo.
    pub fn can_redo(&self) -> (r: bool)
        ensures
            r == (self@.history.index < self@.history.commands.len()),
    {
        self.buffer.undo_stack.can_redo()
    }

    /// Undo the last edit: the text becomes what it was before it. Nothing happens when
    /// read-only or when there is nothing to undo.
    pub fn undo(&mut self)
        ensures
            (old(self)@.read_only || old(self)@.history.index == 0) ==> final(self)@ == old(self)@,
            !(old(self)@.read_only || old(self)@.history.index == 0) ==> undone(
                old(self)@,
                final(self)@,
            ),
    {
        self.buffer.facts();
        if self.read_only {
            return ;
        }
        if self.buffer.undo() {
            self.events.push(TextEditEvent::TextChanged);
            self.emit_cursor_position();
        }
    }

    /// Redo the last undone edit: the text becomes what it was after it. Nothing happens
    /// when read-only or when there is nothing to redo.
    pub fn redo(&mut self)
        ensures
            (old(self)@.read_only || old(self)@.history.index >= old(self)@.history.commands.len())
                ==> final(self)@ == old(self)@,
            !(old(self)@.read_only || old(self)@.history.index >= old(self)@.history.commands.len())
                ==> redone(old(self)@, final(self)@),
    {
        if self.read_only {
            return ;
        }
        if self.buffer.redo() {
            self.events.push(TextEditEvent::TextChanged);
            self.emit_cursor_position();
        }
    }

    /// The selected text, for the clipboard, if something is selected.
    pub fn copy(&self) -> (r: Option<String>)
        ensures
            r is Some == has_sel(self@),
            r matches Some(t) ==> bytes_of(t@) == text_bytes(self@).subrange(
                (sel_range(self@)->0).0,
                (sel_range(self@)->0).1,
            ),
    {
        if !self.has_selection() {
            return None;
        }
        Some(self.selected_text())
    }

    /// Cut: the selected text, for the clipboard, is deleted and returned. Nothing happens
    /// when read-only or without a selection.
    pub fn cut(&mut self) -> (r: Option<String>)
        ensures
            r is Some == !(old(self)@.read_only || !has_sel(old(self)@)),
            r is None ==> final(self)@ == old(self)@,
            r matches Some(t) ==> {
                &&& bytes_of(t@) == text_bytes(old(self)@).subrange(
                    (sel_range(old(self)@)->0).0,
                    (sel_range(old(self)@)->0).1,
                )
                &&& selection_deleted(old(self)@, final(self)@)
            },
    {
        if self.read_only || !self.has_selection() {
            return None;
        }
        let t = self.selected_text();
        self.delete_selection();
        Some(t)
    }

    /// Paste `clipboard` text as if typed. Nothing happens when read-only or for empty text.
    pub fn paste(&mut self, clipboard: &str)
        requires
            text_bytes(old(self)@).len() + bytes_of(clipboard@).len() <= usize::MAX,
        ensures
            (old(self)@.read_only || clipboard@.len() == 0) ==> final(self)@ == old(self)@,
            !(old(self)@.read_only || clipboard@.len() == 0) ==> typed(
                old(self)@,
                clipboard@,
                final(self)@,
            ),
    {
        if self.read_only {
            return ;
        }
        self.insert_text(clipboard);
    }
}

/// Undoing a typing that replaced no selection and did not merge into the last recorded
/// edit gives back the text from before the typing.
pub proof fn law_undo_restores_typing(s0: TextEditState, text: Seq<char>, s1: TextEditState, s2: TextEditState)
    requires
        typed(s0, text, s1),
        !has_sel(s0),
        !merges(s0.history, ins_edit(s0.cursor, text)),
        undone(s1, s2),
    ensures
        text_bytes(s2) == text_bytes(s0),
{
}

/// Undoing the deletion of a selection that did not merge into the last recorded edit
/// gives back the text from before the deletion.
pub proof fn law_undo_restores_deletion(s0: TextEditState, s1: TextEditState, s2: TextEditState)
    requires
        has_sel(s0),
        selection_deleted(s0, s1),
        !merges(s0.history, del_edit(text_bytes(s0), (sel_range(s0)->0).0, (sel_range(s0)->0).1)),
        undone(s1, s2),
    ensures
        text_bytes(s2) == text_bytes(s0),
{
}

/// Redoing what was just undone gives back the text from before the undo, and undoing
/// what was just redone likewise.
pub proof fn law_redo_after_undo(s0: TextEditState, s1: TextEditState, s2: TextEditState)
    requires
        state_ok(s0),
        s0.history.index > 0,
        undone(s0, s1),
        redone(s1, s2),
    ensures
        text_bytes(s2) == text_bytes(s0),
        s2.history == (UndoView { merge_enabled: false, ..s0.history }),
{
}

/// Undoing what was just redone gives back the text from before the redo.
pub proof fn law_undo_after_redo(s0: TextEditState, s1: TextEditState, s2: TextEditState)
    requires
        state_ok(s0),
        s0.history.index < s0.history.commands.len(),
        redone(s0, s1),
        undone(s1, s2),
    ensures
        text_bytes(s2) == text_bytes(s0),
        s2.history == (UndoView { merge_enabled: false, ..s0.history }),
{
}


/// Control+Y is redo, whether or not Shift is held, as Control+Shift+Z is; Control+Z alone
/// is undo, another command.
pub proof fn law_redo_keys(shift: bool)
    ensures
        key_command(TextEditKey::Y, true, shift) == TextEditCommand::Redo,
        key_command(TextEditKey::Z, true, true) == TextEditCommand::Redo,
        key_command(TextEditKey::Z, true, false) == TextEditCommand::Undo,
        key_command(TextEditKey::Y, true, shift) != key_command(TextEditKey::Z, true, false),
{
}

/// The Control shortcuts: C copies, X cuts, V pastes, A selects all, B, I and U toggle
/// bold, italic and underline, F asks for find and H for find and replace, whatever Shift
/// does; G and F3 find the next match, or the previous one with Shift; without Control
/// the letters type.
pub proof fn law_control_shortcuts(shift: bool)
    ensures
        key_command(TextEditKey::C, true, shift) == TextEditCommand::Copy,
        key_command(TextEditKey::X, true, shift) == TextEditCommand::Cut,
        key_command(TextEditKey::V, true, shift) == TextEditCommand::Paste,
        key_command(TextEditKey::A, true, shift) == TextEditCommand::SelectAll,
        key_command(TextEditKey::B, true, shift) == TextEditCommand::Bold,
        key_command(TextEditKey::I, true, shift) == TextEditCommand::Italic,
        key_command(TextEditKey::U, true, shift) == TextEditCommand::Underline,
        key_command(TextEditKey::F, true, shift) == TextEditCommand::Find,
        key_command(TextEditKey::H, true, shift) == TextEditCommand::FindReplace,
        key_command(TextEditKey::G, true, shift) == (if shift {
            TextEditCommand::FindPrevious
        } else {
            TextEditCommand::FindNext
        }),
        key_command(TextEditKey::F3, false, shift) == key_command(TextEditKey::G, true, shift),
        key_command(TextEditKey::Y, false, shift) == TextEditCommand::Typed,
        key_command(TextEditKey::Z, false, shift) == TextEditCommand::Typed,
        key_command(TextEditKey::C, false, shift) == TextEditCommand::Typed,
{
}

/// Pressing Control+Y right after an undo of an editable text redoes it: the key is
/// handled, nothing goes to the clipboard, and the text and the history are those from
/// before the undo (but that merging has stopped).
pub proof fn law_ctrl_y_after_undo(
    s0: TextEditState,
    s1: TextEditState,
    shift: bool,
    alt: bool,
    text: Seq<char>,
    page: int,
    clipboard: Option<Seq<char>>,
    s2: TextEditState,
    handled: bool,
    out: Option<Seq<char>>,
)
    requires
        state_ok(s0),
        !s0.read_only,
        s0.history.index > 0,
        undone(s0, s1),
        key_pressed(
            s1,
            key_command(TextEditKey::Y, true, shift),
            true,
            shift,
            alt,
            text,
            page,
            clipboard,
            s2,
            handled,
            out,
        ),
    ensures
        handled,
        out is None,
        redone(s1, s2),
        text_bytes(s2) == text_bytes(s0),
        s2.history == (UndoView { merge_enabled: false, ..s0.history }),
{
    assert(s1.history.index < s1.history.commands.len());
    assert(redone(s1, s2));
    law_redo_after_undo(s0, s1, s2);
}

/// The format shown for the cursor or selection: over a selection, its format when the
/// same throughout, else the typing format; at the cursor, the typing format when styled,
/// else the format there.
pub open spec fn current_fmt(s: TextEditState) -> CharFormat {
    match sel_range(s) {
        Some(r) => if crate::style_runs::uniform_over(s.doc.spec_format_runs(), r.0, r.1) {
            s.doc.spec_format(r.0)
        } else {
            s.cursor_format
        },
        None => if crate::char_format::char_styled(s.cursor_format) {
            s.cursor_format
        } else {
            s.doc.spec_format(s.cursor)
        },
    }
}

/// The notification of the current format's flags.
pub open spec fn format_event(s: TextEditState) -> TextEditEvent {
    TextEditEvent::FormatChanged(
        current_fmt(s).bold,
        current_fmt(s).italic,
        current_fmt(s).underline,
        current_fmt(s).strikethrough,
    )
}

/// Whether `new` differs from `old` at most in formatting and typing format: same text,
/// block formats, cursor, anchor, history and settings.
pub open spec fn only_formats_changed(old: TextEditState, new: TextEditState) -> bool {
    &&& new.doc.spec_text() == old.doc.spec_text()
    &&& new.doc.spec_block_runs() == old.doc.spec_block_runs()
    &&& new.cursor == old.cursor
    &&& new.anchor == old.anchor
    &&& new.history == old.history
    &&& new.texts == old.texts
    &&& same_settings(new, old)
}

/// `new` is `old` after the flags of `flag` were toggled (unless read-only): over the
/// selection range, set throughout unless all of it already has them, then cleared;
/// without an anchor, flipped in the typing format. The new format state is notified.
pub open spec fn flag_toggled(old: TextEditState, flag: CharFormat, new: TextEditState) -> bool {
    &&& old.read_only ==> new == old
    &&& !old.read_only ==> {
        &&& only_formats_changed(old, new)
        &&& match sel_range(old) {
            Some(r) => {
                &&& new.cursor_format == old.cursor_format
                &&& forall|p: int|
                    #![trigger new.doc.spec_format(p)]
                    new.doc.spec_format(p) == (if r.0 <= p < r.1 {
                        crate::char_format::with_flags(
                            old.doc.spec_format(p),
                            flag,
                            !crate::styled_document::range_has_flags(
                                old.doc.spec_format_runs(),
                                r.0,
                                r.1,
                                flag,
                            ),
                        )
                    } else {
                        old.doc.spec_format(p)
                    })
            },
            None => {
                &&& new.cursor_format == crate::char_format::with_flags(
                    old.cursor_format,
                    flag,
                    !crate::char_format::has_flags(old.cursor_format, flag),
                )
                &&& new.doc == old.doc
            },
        }
        &&& new.events == old.events.push(format_event(new))
    }
}

/// `new` is `old` after the flags of `flag` were set to `on` (unless read-only): over the
/// selection range, or in the typing format without an anchor. The new format state is
/// notified.
pub open spec fn flag_set(old: TextEditState, flag: CharFormat, on: bool, new: TextEditState) -> bool {
    &&& old.read_only ==> new == old
    &&& !old.read_only ==> {
        &&& only_formats_changed(old, new)
        &&& match sel_range(old) {
            Some(r) => {
                &&& new.cursor_format == old.cursor_format
                &&& forall|p: int|
                    #![trigger new.doc.spec_format(p)]
                    new.doc.spec_format(p) == (if r.0 <= p < r.1 {
                        crate::char_format::with_flags(old.doc.spec_format(p), flag, on)
                    } else {
                        old.doc.spec_format(p)
                    })
            },
            None => {
                &&& new.cursor_format == crate::char_format::with_flags(old.cursor_format, flag, on)
                &&& new.doc == old.doc
            },
        }
        &&& new.events == old.events.push(format_event(new))
    }
}

/// A format with only the given flag set.
pub open spec fn only_flag(bold: bool, italic: bool, underline: bool, strikethrough: bool) -> CharFormat {
    CharFormat { bold, italic, underline, strikethrough, ..plain_char_format() }
}

impl TextEdit {
    /// The format of the selection when it is the same throughout (else the typing
    /// format), or, without an anchor, the typing format when styled (else the format at
    /// the cursor).
    pub fn current_format(&self) -> (r: CharFormat)
        ensures
            r == current_fmt(self@),
    {
        match self.selection_range() {
            Some((start, end)) => {
                match self.buffer.document.format_for_range(&std::ops::Range { start, end }) {
                    Some(f) => f,
                    None => self.cursor_format,
                }
            },
            None => {
                if self.cursor_format.is_styled() {
                    self.cursor_format
                } else {
                    self.buffer.document.format_at(self.buffer.cursor_pos)
                }
            },
        }
    }

    /// Whether the current format is bold.
    pub fn is_bold(&self) -> (r: bool)
        ensures
            r == current_fmt(self@).bold,
    {
        self.current_format().bold
    }

    /// Whether the current format is italic.
    pub fn is_italic(&self) -> (r: bool)
        ensures
            r == current_fmt(self@).italic,
    {
        self.current_format().italic
    }

    /// Whether the current format is underlined.
    pub fn is_underline(&self) -> (r: bool)
        ensures
            r == current_fmt(self@).underline,
    {
        self.current_format().underline
    }

    /// Whether the current format is struck through.
    pub fn is_strikethrough(&self) -> (r: bool)
        ensures
            r == current_fmt(self@).strikethrough,
    {
        self.current_format().strikethrough
    }

    fn emit_format_changed(&mut self)
        ensures
            final(self)@ == (TextEditState {
                events: old(self)@.events.push(format_event(old(self)@)),
                ..old(self)@
            }),
    {
        let f = self.current_format();
        self.events.push(TextEditEvent::FormatChanged(f.bold, f.italic, f.underline, f.strikethrough));
    }

    fn toggle_flag(&mut self, flag: CharFormat)
        ensures
            flag_toggled(old(self)@, flag, final(self)@),
    {
        if self.read_only {
            return ;
        }
        self.buffer.facts();
        match self.selection_range() {
            Some((start, end)) => {
                self.buffer.toggle_format(start, end, flag);
            },
            None => {
                let apply = !self.cursor_format.has_flags_of(&flag);
                self.cursor_format = self.cursor_format.with_flags_set(&flag, apply);
            },
        }
        self.emit_format_changed();
    }

    fn set_flag(&mut self, flag: CharFormat, on: bool)
        ensures
            flag_set(old(self)@, flag, on, final(self)@),
    {
        if self.read_only {
            return ;
        }
        self.buffer.facts();
        match self.selection_range() {
            Some((start, end)) => {
                if start < end {
                    self.buffer.change_format(start, end, flag, on);
                }
            },
            None => {
                self.cursor_format = self.cursor_format.with_flags_set(&flag, on);
            },
        }
        self.emit_format_changed();
    }

    /// Toggle bold over the selection, or in the typing format without an anchor.
    pub fn toggle_bold(&mut self)
        ensures
            flag_toggled(old(self)@, only_flag(true, false, false, false), final(self)@),
    {
        self.toggle_flag(CharFormat::new().with_bold(true));
    }

    /// Toggle italic over the selection, or in the typing format without an anchor.
    pub fn toggle_italic(&mut self)
        ensures
            flag_toggled(old(self)@, only_flag(false, true, false, false), final(self)@),
    {
        self.toggle_flag(CharFormat::new().with_italic(true));
    }

    /// Toggle underline over the selection, or in the typing format without an anchor.
    pub fn toggle_underline(&mut self)
        ensures
            flag_toggled(old(self)@, only_flag(false, false, true, false), final(self)@),
    {
        self.toggle_flag(CharFormat::new().with_underline(true));
    }

    /// Toggle strikethrough over the selection, or in the typing format without an anchor.
    pub fn toggle_strikethrough(&mut self)
        ensures
            flag_toggled(old(self)@, only_flag(false, false, false, true), final(self)@),
    {
        self.toggle_flag(CharFormat::new().with_strikethrough(true));
    }

    /// Set or clear bold over the selection, or in the typing format without an anchor.
    pub fn set_bold(&mut self, bold: bool)
        ensures
            flag_set(old(self)@, only_flag(true, false, false, false), bold, final(self)@),
    {
        self.set_flag(CharFormat::new().with_bold(true), bold);
    }

    /// Set or clear italic over the selection, or in the typing format without an anchor.
    pub fn set_italic(&mut self, italic: bool)
        ensures
            flag_set(old(self)@, only_flag(false, true, false, false), italic, final(self)@),
    {
        self.set_flag(CharFormat::new().with_italic(true), italic);
    }

    /// Set or clear underline over the selection, or in the typing format without an anchor.
    pub fn set_underline(&mut self, underline: bool)
        ensures
            flag_set(old(self)@, only_flag(false, false, true, false), underline, final(self)@),
    {
        self.set_flag(CharFormat::new().with_underline(true), underline);
    }

    /// Set or clear strikethrough over the selection, or in the typing format without an
    /// anchor.
    pub fn set_strikethrough(&mut self, strikethrough: bool)
        ensures
            flag_set(old(self)@, only_flag(false, false, false, true), strikethrough, final(self)@),
    {
        self.set_flag(CharFormat::new().with_strikethrough(true), strikethrough);
    }
}


/// The byte position where line `line` of `b` starts (the end, for lines past the last).
pub open spec fn line_start_pos(b: Seq<u8>, line: int) -> int {
    if 0 <= line < line_starts(b).len() {
        line_starts(b)[line]
    } else {
        b.len() as int
    }
}

/// The byte position where line `line` of `b` ends: its newline, or the end of the text
/// for the last line and lines past it.
pub open spec fn line_end_pos(b: Seq<u8>, line: int) -> int {
    if 0 <= line && line + 1 < line_starts(b).len() {
        line_starts(b)[line + 1] - 1
    } else {
        b.len() as int
    }
}

/// The number of lines of `b`, a trailing newline opening none, and at least one.
pub open spec fn line_total(b: Seq<u8>) -> int {
    let n = line_starts(b).len() as int;
    if b.len() > 0 && b.last() == 10 {
        n - 1
    } else {
        n
    }
}

/// Line starts and line ends are character boundaries, ends at or after starts.
proof fn lemma_line_bounds(b: Seq<u8>, line: int)
    requires
        valid_utf8(b),
    ensures
        valid_pos(b, line_start_pos(b, line)),
        valid_pos(b, line_end_pos(b, line)),
        line_start_pos(b, line) <= line_end_pos(b, line),
        line_total(b) >= 1,
{
    lemma_line_starts_shape(b);
    is_char_boundary_start_end_of_seq(b);
    let ls = line_starts(b);
    if 0 <= line < ls.len() && ls[line] > 0 {
        assert(b[ls[line] - 1] == 10);
        crate::utf8_text::lemma_boundary_after_ascii(b, ls[line] - 1);
    }
    if 0 <= line && line + 1 < ls.len() {
        assert(b[ls[line + 1] - 1] == 10);
        assert(ls[line] < ls[line + 1]);
        crate::utf8_text::lemma_boundary_after_ascii(b, ls[line + 1] - 1);
    }
    if b.len() > 0 && b.last() == 10 {
        assert(b.drop_last() + seq![b.last()] =~= b);
        assert(ls == line_starts(b.drop_last()).push(b.len() as int));
        lemma_line_starts_shape(b.drop_last());
    }
}

/// The byte position where a line starts.
fn line_start_of(b: &[u8], line: usize) -> (r: usize)
    ensures
        r == line_start_pos(b@, line as int),
{
    match line_range(b, line) {
        Some(rg) => rg.start,
        None => b.len(),
    }
}

/// The byte position where a line ends.
fn line_end_of(b: &[u8], line: usize) -> (r: usize)
    ensures
        r == line_end_pos(b@, line as int),
{
    proof {
        lemma_line_starts_shape(b@);
        if b@.len() > 0 && b@.last() == 10 {
            assert(b@.drop_last() + seq![b@.last()] =~= b@);
        }
    }
    match line_range(b, line) {
        Some(rg) => {
            proof {
                if line + 1 < line_starts(b@).len() {
                    assert(line_starts(b@)[line as int] < line_starts(b@)[line + 1]);
                }
            }
            if rg.end > rg.start && b[rg.end - 1] == 10 {
                rg.end - 1
            } else {
                rg.end
            }
        },
        None => b.len(),
    }
}

/// The number of lines.
fn line_total_of(b: &[u8]) -> (r: usize)
    requires
        b@.len() < usize::MAX,
    ensures
        r == line_total(b@),
{
    proof {
        lemma_line_starts_shape(b@);
        if b@.len() > 0 && b@.last() == 10 {
            assert(b@.drop_last() + seq![b@.last()] =~= b@);
            assert(line_starts(b@) == line_starts(b@.drop_last()).push(b@.len() as int));
            lemma_line_starts_shape(b@.drop_last());
        }
    }
    let n = count_lines(b);
    if b.len() > 0 && b[b.len() - 1] == 10 {
        n - 1
    } else {
        n
    }
}

/// The bytes of a prefix of characters end on a character boundary of the whole.
proof fn lemma_char_prefix_boundary(cs: Seq<char>, k: int)
    requires
        0 <= k <= cs.len(),
    ensures
        valid_pos(bytes_of(cs), bytes_of(cs.take(k)).len() as int),
        bytes_of(cs).take(bytes_of(cs.take(k)).len() as int) == bytes_of(cs.take(k)),
{
    assert(cs.take(k) + cs.skip(k) =~= cs);
    lemma_encode_concat(cs.take(k), cs.skip(k));
    is_char_boundary_start_end_of_seq(bytes_of(cs.take(k)));
    lemma_concat_boundaries(bytes_of(cs.take(k)), bytes_of(cs.skip(k)));
    assert(bytes_of(cs).take(bytes_of(cs.take(k)).len() as int) =~= bytes_of(cs.take(k)));
}

/// The number of characters in the bytes `start..end` (boundaries) of `s`.
fn chars_between(s: &str, start: usize, end: usize) -> (r: usize)
    requires
        start <= end,
        valid_pos(bytes_of(s@), start as int),
        valid_pos(bytes_of(s@), end as int),
    ensures
        r == decode_utf8(bytes_of(s@).subrange(start as int, end as int)).len(),
{
    let (head, rest) = s.split_at(start);
    proof {
        lemma_split_boundaries(bytes_of(s@), start as int);
        assert(bytes_of(rest@) =~= bytes_of(s@).skip(start as int));
        assert(is_char_boundary(bytes_of(s@).skip(start as int), end - start));
    }
    let (mid, tail) = rest.split_at(end - start);
    proof {
        assert(bytes_of(mid@) =~= bytes_of(s@).subrange(start as int, end as int));
    }
    vstd::string::StrSliceExecFns::unicode_len(mid)
}

/// Whether scanning the characters `cs` for line `line`, column `col` stops at index `k`:
/// at the end, at that line and column, or at the newline ending that line.
pub open spec fn lc_stop(cs: Seq<char>, k: int, line: int, col: int) -> bool {
    ||| k == cs.len()
    ||| line_col(cs.take(k)) == (line, col)
    ||| (line_col(cs.take(k)).0 == line && cs[k] == '\n')
}

/// Character index `k` is the first stop of the scan for line `line`, column `col`.
pub open spec fn lc_index(cs: Seq<char>, line: int, col: int, k: int) -> bool {
    &&& 0 <= k <= cs.len()
    &&& lc_stop(cs, k, line, col)
    &&& forall|j: int| 0 <= j < k ==> !#[trigger] lc_stop(cs, j, line, col)
}

/// The character index and byte position of line `line`, column `col`: the first position
/// that is there, at the end of that line, or at the end of the text.
fn line_column_to_pos(s: &str, line: usize, col: usize) -> (r: (usize, usize))
    ensures
        lc_index(s@, line as int, col as int, r.0 as int),
        r.1 == bytes_of(s@.take(r.0 as int)).len(),
{
    let mut cl: usize = 0;
    let mut cc: usize = 0;
    let mut byte: usize = 0;
    let nbytes = s.as_bytes().len();
    proof {
        crate::utf8_text::lemma_chars_le_bytes(s@);
        assert(s@.take(0) =~= Seq::<char>::empty());
    }
    let mut k: usize = 0;
    for c in it: s.chars()
        invariant
            it.seq() == s@,
            s@.len() <= nbytes,
            nbytes == bytes_of(s@).len(),
            k == it.index(),
            cl as int == line_col(s@.take(k as int)).0,
            cc as int == line_col(s@.take(k as int)).1,
            cl + cc <= k,
            byte == bytes_of(s@.take(k as int)).len(),
            forall|j: int| 0 <= j < k ==> !#[trigger] lc_stop(s@, j, line as int, col as int),
    {
        proof {
            assert(s@.take(k + 1).drop_last() =~= s@.take(k as int));
            lemma_bytes_take_step(s@, k as int);
            lemma_char_prefix_boundary(s@, k + 1);
        }
        if cl == line && cc == col {
            return (k, byte);
        }
        if c == '\n' {
            if cl == line {
                return (k, byte);
            }
            cl = cl + 1;
            cc = 0;
        } else {
            cc = cc + 1;
        }
        byte = byte + char_len(c);
        k = k + 1;
    }
    proof {
        assert(s@.take(s@.len() as int) =~= s@);
    }
    (k, byte)
}



/// Joining is split by any cut of the pieces.
proof fn lemma_joined_split(ps: Seq<Seq<char>>, k: int)
    requires
        0 <= k <= ps.len(),
    ensures
        joined(ps) == joined(ps.take(k)) + joined(ps.skip(k)),
    decreases ps.len(),
{
    if k == ps.len() {
        assert(ps.take(k) =~= ps);
        assert(ps.skip(k) =~= Seq::<Seq<char>>::empty());
        assert(joined(ps) + Seq::<char>::empty() =~= joined(ps));
    } else {
        lemma_joined_split(ps.drop_last(), k);
        assert(ps.drop_last().take(k) =~= ps.take(k));
        assert(ps.skip(k).drop_last() =~= ps.drop_last().skip(k));
        assert(ps.skip(k).last() == ps.last());
        assert(joined(ps.take(k)) + (joined(ps.drop_last().skip(k)) + ps.last()) =~= (joined(
            ps.take(k),
        ) + joined(ps.drop_last().skip(k))) + ps.last());
    }
}

/// The pieces that `split_word_bounds` cuts a text into.
pub uninterp spec fn word_bounds(s: Seq<char>) -> Seq<Seq<char>>;

/// `UnicodeSegmentation::split_word_bounds` of unicode-segmentation: the pieces of `s`
/// between its Unicode (UAX #29) word boundaries, in order. The result is named, not
/// described: the segmentation rules take pages. What the crate documents is stated:
/// the pieces joined give `s` back.
#[verifier::external_body]
fn split_word_bounds(s: &str) -> (r: Vec<String>)
    ensures
        r@.map_values(|w: String| w@) == word_bounds(s@),
        joined(r@.map_values(|w: String| w@)) == s@,
{
    s.split_word_bounds().map(|w| w.to_string()).collect()
}

/// Whether a character is alphanumeric (Unicode Alphabetic or Numeric).
pub uninterp spec fn is_alnum(c: char) -> bool;

/// `char::is_alphanumeric` of std. The result is named, not described: it follows the
/// Unicode tables.
#[verifier::external_body]
fn char_is_alphanumeric(c: char) -> (r: bool)
    ensures
        r == is_alnum(c),
{
    c.is_alphanumeric()
}

/// Whether a piece holds an alphanumeric character (a word).
pub open spec fn is_word(w: Seq<char>) -> bool {
    exists|i: int| 0 <= i < w.len() && #[trigger] is_alnum(w[i])
}

fn piece_is_word(w: &str) -> (r: bool)
    ensures
        r == is_word(w@),
{
    for c in it: w.chars()
        invariant
            it.seq() == w@,
            forall|j: int| 0 <= j < it.index() ==> !#[trigger] is_alnum(w@[j]),
    {
        if char_is_alphanumeric(c) {
            assert(is_alnum(w@[it.index() as int]));
            return true;
        }
    }
    false
}

/// How many pieces, from the front, the cursor passes moving right by a word: the pieces
/// up to and including the first word and the words right after it, stopping at the
/// first non-word after a word.
pub open spec fn fwd_count(ps: Seq<Seq<char>>, found: bool) -> int
    decreases ps.len(),
{
    if ps.len() == 0 {
        0
    } else if is_word(ps[0]) {
        1 + fwd_count(ps.drop_first(), true)
    } else if found {
        0
    } else {
        1 + fwd_count(ps.drop_first(), false)
    }
}

/// How many pieces, from the back, the cursor passes moving left by a word: the trailing
/// non-words, then the words before them, stopping at the first non-word before a word.
pub open spec fn bwd_count(ps: Seq<Seq<char>>, found: bool) -> int
    decreases ps.len(),
{
    if ps.len() == 0 {
        0
    } else if is_word(ps.last()) {
        1 + bwd_count(ps.drop_last(), true)
    } else if found {
        0
    } else {
        1 + bwd_count(ps.drop_last(), false)
    }
}

proof fn lemma_fwd_count_bounds(ps: Seq<Seq<char>>, found: bool)
    ensures
        0 <= fwd_count(ps, found) <= ps.len(),
    decreases ps.len(),
{
    if ps.len() > 0 {
        lemma_fwd_count_bounds(ps.drop_first(), true);
        lemma_fwd_count_bounds(ps.drop_first(), false);
    }
}

proof fn lemma_bwd_count_bounds(ps: Seq<Seq<char>>, found: bool)
    ensures
        0 <= bwd_count(ps, found) <= ps.len(),
    decreases ps.len(),
{
    if ps.len() > 0 {
        lemma_bwd_count_bounds(ps.drop_last(), true);
        lemma_bwd_count_bounds(ps.drop_last(), false);
    }
}

/// The byte position a word move to the right from `cursor` (a boundary) reaches.
pub open spec fn word_right_pos(b: Seq<u8>, cursor: int) -> int {
    let ps = word_bounds(decode_utf8(b.skip(cursor)));
    cursor + bytes_of(joined(ps.take(fwd_count(ps, false)))).len()
}

/// The byte position a word move to the left from `cursor` (a boundary) reaches.
pub open spec fn word_left_pos(b: Seq<u8>, cursor: int) -> int {
    let ps = word_bounds(decode_utf8(b.take(cursor)));
    bytes_of(joined(ps.take(ps.len() - bwd_count(ps, false)))).len() as int
}

/// The byte length of the first `i` pieces, joined.
proof fn lemma_joined_step(ps: Seq<Seq<char>>, i: int)
    requires
        0 <= i < ps.len(),
    ensures
        bytes_of(joined(ps.take(i + 1))) == bytes_of(joined(ps.take(i))) + bytes_of(ps[i]),
{
    assert(ps.take(i + 1).drop_last() =~= ps.take(i));
    assert(ps.take(i + 1).last() == ps[i]);
    lemma_encode_concat(joined(ps.take(i)), ps[i]);
}

/// Where a word move to the right from `cursor` lands.
fn word_right_from(s: &str, cursor: usize) -> (r: usize)
    requires
        valid_pos(bytes_of(s@), cursor as int),
    ensures
        r == word_right_pos(bytes_of(s@), cursor as int),
        valid_pos(bytes_of(s@), r as int),
{
    let (head, rest) = s.split_at(cursor);
    let ghost b = bytes_of(s@);
    proof {
        assert(bytes_of(rest@) =~= b.skip(cursor as int));
        vstd::utf8::encode_utf8_decode_utf8(rest@);
    }
    let n = s.as_bytes().len();
    let pieces = split_word_bounds(rest);
    let ghost ps = pieces@.map_values(|w: String| w@);
    let mut offset: usize = 0;
    let mut found = false;
    let mut i: usize = 0;
    proof {
        assert(ps.take(0) =~= Seq::<Seq<char>>::empty());
        assert(ps.skip(0) =~= ps);
        lemma_joined_split(ps, 0);
    }
    while i < pieces.len()
        invariant
            ps == pieces@.map_values(|w: String| w@),
            joined(ps) == rest@,
            bytes_of(rest@) == b.skip(cursor as int),
            valid_pos(b, cursor as int),
            b.len() <= usize::MAX,
            i <= ps.len(),
            offset == bytes_of(joined(ps.take(i as int))).len(),
            fwd_count(ps, false) == i + fwd_count(ps.skip(i as int), found),
        ensures
            i <= ps.len(),
            offset == bytes_of(joined(ps.take(i as int))).len(),
            fwd_count(ps, false) == i,
        decreases pieces.len() - i,
    {
        proof {
            lemma_joined_split(ps, i + 1);
            lemma_joined_step(ps, i as int);
            lemma_encode_concat(joined(ps.take(i + 1)), joined(ps.skip(i + 1)));
            assert(ps.skip(i as int).drop_first() =~= ps.skip(i + 1));
            assert(ps.skip(i as int)[0] == ps[i as int]);
        }
        let w = pieces[i].as_str();
        let word = piece_is_word(w);
        if !word && found {
            break;
        }
        if word {
            found = true;
        }
        offset = offset + w.as_bytes().len();
        i = i + 1;
        proof {
            if i == ps.len() {
                assert(ps.skip(i as int).len() == 0);
            }
        }
    }
    proof {
        lemma_joined_split(ps, i as int);
        lemma_encode_concat(joined(ps.take(i as int)), joined(ps.skip(i as int)));
        let x = bytes_of(joined(ps.take(i as int)));
        let y = bytes_of(joined(ps.skip(i as int)));
        is_char_boundary_start_end_of_seq(x);
        is_char_boundary_start_end_of_seq(y);
        lemma_concat_boundaries(x, y);
        lemma_split_boundaries(b, cursor as int);
        lemma_concat_boundaries(b.take(cursor as int), b.skip(cursor as int));
        assert(b.take(cursor as int) + b.skip(cursor as int) =~= b);
    }
    cursor + offset
}

/// Where a word move to the left from `cursor` lands.
fn word_left_from(s: &str, cursor: usize) -> (r: usize)
    requires
        valid_pos(bytes_of(s@), cursor as int),
    ensures
        r == word_left_pos(bytes_of(s@), cursor as int),
        valid_pos(bytes_of(s@), r as int),
        r <= cursor,
{
    let (head, rest) = s.split_at(cursor);
    let ghost b = bytes_of(s@);
    proof {
        assert(bytes_of(head@) =~= b.take(cursor as int));
        vstd::utf8::encode_utf8_decode_utf8(head@);
    }
    let pieces = split_word_bounds(head);
    let ghost ps = pieces@.map_values(|w: String| w@);
    let mut pos: usize = cursor;
    let mut found = false;
    let mut i: usize = pieces.len();
    proof {
        assert(ps.take(ps.len() as int) =~= ps);
    }
    while i > 0
        invariant
            ps == pieces@.map_values(|w: String| w@),
            joined(ps) == head@,
            bytes_of(head@) == b.take(cursor as int),
            cursor <= b.len(),
            i <= ps.len(),
            pos == bytes_of(joined(ps.take(i as int))).len(),
            bwd_count(ps, false) == (ps.len() - i) + bwd_count(ps.take(i as int), found),
        ensures
            i <= ps.len(),
            pos == bytes_of(joined(ps.take(i as int))).len(),
            bwd_count(ps, false) == ps.len() - i,
        decreases i,
    {
        proof {
            lemma_joined_step(ps, i - 1);
            assert(ps.take(i as int).drop_last() =~= ps.take(i - 1));
            assert(ps.take(i as int).last() == ps[i - 1]);
        }
        let w = pieces[i - 1].as_str();
        let word = piece_is_word(w);
        if !word && found {
            break;
        }
        if word {
            found = true;
        }
        pos = pos - w.as_bytes().len();
        i = i - 1;
        proof {
            if i == 0 {
                assert(ps.take(0).len() == 0);
            }
        }
    }
    proof {
        assert(ps.len() - bwd_count(ps, false) == i);
        lemma_joined_split(ps, i as int);
        lemma_encode_concat(joined(ps.take(i as int)), joined(ps.skip(i as int)));
        let x = bytes_of(joined(ps.take(i as int)));
        let y = bytes_of(joined(ps.skip(i as int)));
        is_char_boundary_start_end_of_seq(x);
        lemma_concat_boundaries(x, y);
        lemma_split_boundaries(b, cursor as int);
        lemma_concat_boundaries(b.take(cursor as int), b.skip(cursor as int));
        assert(b.take(cursor as int) + b.skip(cursor as int) =~= b);
    }
    pos
}


/// `r` is the last character boundary of `b` before `c`.
pub open spec fn is_prev_boundary(b: Seq<u8>, c: int, r: int) -> bool {
    &&& r < c
    &&& valid_pos(b, r)
    &&& forall|k: int| r < k < c ==> !#[trigger] is_char_boundary(b, k)
}

/// The last character boundary of `b` before `c`.
pub open spec fn prev_boundary(b: Seq<u8>, c: int) -> int {
    choose|r: int| is_prev_boundary(b, c, r)
}

/// The position after the character at `c`.
pub open spec fn next_pos(b: Seq<u8>, c: int) -> int {
    c + encode_scalar(decode_utf8(b.skip(c))[0] as u32).len()
}

/// Index `k` is where the scan for line `line`, column `col` of `cs` first stops.
pub open spec fn lc_pos(cs: Seq<char>, line: int, col: int) -> int {
    choose|k: int| lc_index(cs, line, col, k)
}

/// The byte position of line `line`, column `col` of `b`: the first position at that line
/// and column, at the end of that line, or at the end of the text.
pub open spec fn lc_byte_pos(b: Seq<u8>, line: int, col: int) -> int {
    let cs = decode_utf8(b);
    bytes_of(cs.take(lc_pos(cs, line, col))).len() as int
}

/// The number of characters on line `line` of `b`.
pub open spec fn line_chars(b: Seq<u8>, line: int) -> int {
    decode_utf8(b.subrange(line_start_pos(b, line), line_end_pos(b, line))).len() as int
}

/// The position on line `line` of `b` at the column `col`, held to the line's length.
pub open spec fn column_on_line(b: Seq<u8>, line: int, col: int) -> int {
    let n = line_chars(b, line);
    lc_byte_pos(b, line, if col < n {
        col
    } else {
        n
    })
}

/// The anchor after a move: one is dropped at the old cursor when extending without one;
/// it goes when not extending.
pub open spec fn anchor_for_move(s: TextEditState, extend: bool) -> Option<int> {
    if extend && s.anchor is None {
        Some(s.cursor)
    } else if !extend {
        None
    } else {
        s.anchor
    }
}

/// The state after the cursor moved to `c`, extending the selection or not: the new
/// position is notified, and the selection change when extending.
pub open spec fn move_result(s: TextEditState, extend: bool, c: int) -> TextEditState {
    let mid = TextEditState { cursor: c, anchor: anchor_for_move(s, extend), ..s };
    let ev = s.events.push(cursor_event(mid));
    TextEditState {
        events: if extend {
            ev.push(TextEditEvent::SelectionChanged)
        } else {
            ev
        },
        ..mid
    }
}

/// The state after the cursor collapsed a selection to `c` (no anchor).
pub open spec fn collapse_result(s: TextEditState, c: int) -> TextEditState {
    let mid = TextEditState { cursor: c, anchor: None, ..s };
    TextEditState { events: s.events.push(cursor_event(mid)), ..mid }
}

/// A character to the left: nothing at the start; collapsing a selection to its start
/// when not extending; else to the previous character boundary.
pub open spec fn left_moved(s: TextEditState, extend: bool) -> TextEditState {
    if s.cursor == 0 {
        s
    } else if !extend && has_sel(s) {
        collapse_result(s, (sel_range(s)->0).0)
    } else {
        move_result(s, extend, prev_boundary(text_bytes(s), s.cursor))
    }
}

/// A character to the right: nothing at the end; collapsing a selection to its end when
/// not extending; else past the character at the cursor.
pub open spec fn right_moved(s: TextEditState, extend: bool) -> TextEditState {
    if s.cursor >= text_bytes(s).len() {
        s
    } else if !extend && has_sel(s) {
        collapse_result(s, (sel_range(s)->0).1)
    } else {
        move_result(s, extend, next_pos(text_bytes(s), s.cursor))
    }
}

/// A line up: to the start from the first line; else to the same column on the line
/// above, held to its length.
pub open spec fn up_moved(s: TextEditState, extend: bool) -> TextEditState {
    let (line, col) = cursor_lc(s);
    if line == 0 {
        move_result(s, extend, 0)
    } else {
        move_result(s, extend, column_on_line(text_bytes(s), line - 1, col))
    }
}

/// A line down: to the end from the last line; else to the same column on the line
/// below, held to its length.
pub open spec fn down_moved(s: TextEditState, extend: bool) -> TextEditState {
    let (line, col) = cursor_lc(s);
    if line >= line_total(text_bytes(s)) - 1 {
        move_result(s, extend, text_bytes(s).len() as int)
    } else {
        move_result(s, extend, column_on_line(text_bytes(s), line + 1, col))
    }
}

/// `page` lines up, to the same column held to that line's length.
pub open spec fn page_up_moved(s: TextEditState, extend: bool, page: int) -> TextEditState {
    let (line, col) = cursor_lc(s);
    let target = if line > page {
        line - page
    } else {
        0
    };
    move_result(s, extend, column_on_line(text_bytes(s), target, col))
}

/// `page` lines down (at most to the last line), to the same column held to that line's
/// length.
pub open spec fn page_down_moved(s: TextEditState, extend: bool, page: int) -> TextEditState {
    let (line, col) = cursor_lc(s);
    let last = line_total(text_bytes(s)) - 1;
    let target = if line + page < last {
        line + page
    } else {
        last
    };
    move_result(s, extend, column_on_line(text_bytes(s), target, col))
}

proof fn lemma_prev_boundary_unique(b: Seq<u8>, c: int, r: int)
    requires
        is_prev_boundary(b, c, r),
    ensures
        prev_boundary(b, c) == r,
{
    let q = prev_boundary(b, c);
    assert(is_prev_boundary(b, c, q));
    if q < r {
        assert(is_char_boundary(b, r));
    } else if r < q {
        assert(is_char_boundary(b, q));
    }
}

proof fn lemma_lc_pos_unique(cs: Seq<char>, line: int, col: int, k: int)
    requires
        lc_index(cs, line, col, k),
    ensures
        lc_pos(cs, line, col) == k,
{
    let q = lc_pos(cs, line, col);
    assert(lc_index(cs, line, col, q));
    if q < k {
        assert(lc_stop(cs, q, line, col));
    } else if k < q {
        assert(lc_stop(cs, k, line, col));
    }
}

/// The last character boundary before `c` (which is past 0).
fn prev_char_boundary(s: &str, c: usize) -> (r: usize)
    requires
        0 < c <= bytes_of(s@).len(),
    ensures
        is_prev_boundary(bytes_of(s@), c as int, r as int),
        r == prev_boundary(bytes_of(s@), c as int),
{
    proof {
        is_char_boundary_start_end_of_seq(bytes_of(s@));
    }
    let mut p = c - 1;
    while p > 0 && !s.is_char_boundary(p)
        invariant
            p < c <= bytes_of(s@).len(),
            is_char_boundary(bytes_of(s@), 0),
            forall|k: int| p < k < c ==> !#[trigger] is_char_boundary(bytes_of(s@), k),
        decreases p,
    {
        p = p - 1;
    }
    proof {
        lemma_prev_boundary_unique(bytes_of(s@), c as int, p as int);
    }
    p
}

/// The position after the character at `c` (before the end).
fn next_char_pos(s: &str, c: usize) -> (r: usize)
    requires
        valid_pos(bytes_of(s@), c as int),
        c < bytes_of(s@).len(),
    ensures
        r == next_pos(bytes_of(s@), c as int),
        valid_pos(bytes_of(s@), r as int),
        c < r,
{
    let ghost b = bytes_of(s@);
    let (head, rest) = s.split_at(c);
    proof {
        assert(bytes_of(rest@) =~= b.skip(c as int));
        vstd::utf8::encode_utf8_decode_utf8(rest@);
        if rest@.len() == 0 {
            assert(bytes_of(rest@) =~= Seq::<u8>::empty());
        }
        lemma_bytes_take_step(rest@, 0);
        assert(rest@.take(0) =~= Seq::<char>::empty());
        assert(bytes_of(Seq::<char>::empty()) =~= Seq::<u8>::empty());
        lemma_char_prefix_boundary(rest@, 1);
        lemma_split_boundaries(b, c as int);
        lemma_concat_boundaries(b.take(c as int), b.skip(c as int));
        assert(b.take(c as int) + b.skip(c as int) =~= b);
    }
    let n = s.as_bytes().len();
    let ch = vstd::string::StrSliceExecFns::get_char(rest, 0);
    let w = char_len(ch);
    proof {
        assert(w == bytes_of(rest@.take(1)).len());
        assert(w <= bytes_of(rest@).len());
    }
    c + w
}


/// To the start of the cursor's line.
pub open spec fn line_start_moved(s: TextEditState, extend: bool) -> TextEditState {
    move_result(s, extend, line_start_pos(text_bytes(s), cursor_lc(s).0))
}

/// To the end of the cursor's line.
pub open spec fn line_end_moved(s: TextEditState, extend: bool) -> TextEditState {
    move_result(s, extend, line_end_pos(text_bytes(s), cursor_lc(s).0))
}

/// A word to the right: nothing at the end.
pub open spec fn word_right_moved(s: TextEditState, extend: bool) -> TextEditState {
    if s.cursor >= text_bytes(s).len() {
        s
    } else {
        move_result(s, extend, word_right_pos(text_bytes(s), s.cursor))
    }
}

/// A word to the left: nothing at the start.
pub open spec fn word_left_moved(s: TextEditState, extend: bool) -> TextEditState {
    if s.cursor == 0 {
        s
    } else {
        move_result(s, extend, word_left_pos(text_bytes(s), s.cursor))
    }
}

impl TextEdit {
    fn move_to(&mut self, extend: bool, c: usize)
        requires
            valid_pos(text_bytes(old(self)@), c as int),
        ensures
            final(self)@ == move_result(old(self)@, extend, c as int),
    {
        self.buffer.facts();
        if extend && self.buffer.selection_anchor.is_none() {
            let here = self.buffer.cursor_pos;
            self.buffer.set_anchor(Some(here));
        } else if !extend {
            self.buffer.set_anchor(None);
        }
        self.buffer.set_cursor(c);
        self.emit_cursor_position();
        if extend {
            self.events.push(TextEditEvent::SelectionChanged);
        }
    }

    fn collapse_to(&mut self, c: usize)
        requires
            valid_pos(text_bytes(old(self)@), c as int),
        ensures
            final(self)@ == collapse_result(old(self)@, c as int),
    {
        self.buffer.set_cursor(c);
        self.buffer.set_anchor(None);
        self.emit_cursor_position();
    }

    /// The position on line `line` at column `col`, held to the line's length.
    fn column_position(&self, line: usize, col: usize) -> (r: usize)
        ensures
            r == column_on_line(text_bytes(self@), line as int, col as int),
            valid_pos(text_bytes(self@), r as int),
    {
        self.buffer.facts();
        let text = self.buffer.text();
        let b = text.as_bytes();
        proof {
            lemma_line_bounds(b@, line as int);
            vstd::utf8::encode_utf8_decode_utf8(text@);
        }
        let st = line_start_of(b, line);
        let en = line_end_of(b, line);
        let n = chars_between(text, st, en);
        let tc = if col < n {
            col
        } else {
            n
        };
        let (k, byte) = line_column_to_pos(text, line, tc);
        proof {
            lemma_lc_pos_unique(text@, line as int, tc as int, k as int);
            lemma_char_prefix_boundary(text@, k as int);
        }
        byte
    }

    fn move_cursor_left(&mut self, extend: bool)
        ensures
            final(self)@ == left_moved(old(self)@, extend),
    {
        self.buffer.facts();
        let c = self.buffer.cursor_pos;
        if c == 0 {
            return ;
        }
        if !extend && self.has_selection() {
            let (start, _) = self.selection_range().unwrap();
            self.collapse_to(start);
            return ;
        }
        let p = prev_char_boundary(self.buffer.text(), c);
        self.move_to(extend, p);
    }

    fn move_cursor_right(&mut self, extend: bool)
        ensures
            final(self)@ == right_moved(old(self)@, extend),
    {
        self.buffer.facts();
        let c = self.buffer.cursor_pos;
        if c >= self.buffer.len() {
            return ;
        }
        if !extend && self.has_selection() {
            let (_, end) = self.selection_range().unwrap();
            self.collapse_to(end);
            return ;
        }
        let p = next_char_pos(self.buffer.text(), c);
        self.move_to(extend, p);
    }

    fn move_cursor_to_start(&mut self, extend: bool)
        ensures
            final(self)@ == move_result(old(self)@, extend, 0),
    {
        self.buffer.facts();
        proof {
            is_char_boundary_start_end_of_seq(self.buffer.bytes());
        }
        self.move_to(extend, 0);
    }

    fn move_cursor_to_end(&mut self, extend: bool)
        ensures
            final(self)@ == move_result(old(self)@, extend, text_bytes(old(self)@).len() as int),
    {
        self.buffer.facts();
        proof {
            is_char_boundary_start_end_of_seq(self.buffer.bytes());
        }
        let n = self.buffer.len();
        self.move_to(extend, n);
    }

    fn move_cursor_up(&mut self, extend: bool)
        ensures
            final(self)@ == up_moved(old(self)@, extend),
    {
        let (line, col) = self.cursor_line_column();
        if line == 0 {
            self.move_cursor_to_start(extend);
            return ;
        }
        let p = self.column_position(line - 1, col);
        self.move_to(extend, p);
    }

    fn move_cursor_down(&mut self, extend: bool)
        requires
            text_bytes(old(self)@).len() < usize::MAX,
        ensures
            final(self)@ == down_moved(old(self)@, extend),
    {
        self.buffer.facts();
        let (line, col) = self.cursor_line_column();
        let total = line_total_of(self.buffer.text().as_bytes());
        proof {
            lemma_line_bounds(self.buffer.bytes(), 0);
        }
        if line >= total - 1 {
            self.move_cursor_to_end(extend);
            return ;
        }
        let p = self.column_position(line + 1, col);
        self.move_to(extend, p);
    }

    fn move_cursor_to_line_start(&mut self, extend: bool)
        ensures
            final(self)@ == line_start_moved(old(self)@, extend),
    {
        self.buffer.facts();
        let (line, _) = self.cursor_line_column();
        let b = self.buffer.text().as_bytes();
        proof {
            lemma_line_bounds(b@, line as int);
        }
        let p = line_start_of(b, line);
        self.move_to(extend, p);
    }

    fn move_cursor_to_line_end(&mut self, extend: bool)
        ensures
            final(self)@ == line_end_moved(old(self)@, extend),
    {
        self.buffer.facts();
        let (line, _) = self.cursor_line_column();
        let b = self.buffer.text().as_bytes();
        proof {
            lemma_line_bounds(b@, line as int);
        }
        let p = line_end_of(b, line);
        self.move_to(extend, p);
    }

    fn move_cursor_word_right(&mut self, extend: bool)
        ensures
            final(self)@ == word_right_moved(old(self)@, extend),
    {
        self.buffer.facts();
        let c = self.buffer.cursor_pos;
        if c >= self.buffer.len() {
            return ;
        }
        let p = word_right_from(self.buffer.text(), c);
        self.move_to(extend, p);
    }

    fn move_cursor_word_left(&mut self, extend: bool)
        ensures
            final(self)@ == word_left_moved(old(self)@, extend),
    {
        self.buffer.facts();
        let c = self.buffer.cursor_pos;
        if c == 0 {
            return ;
        }
        let p = word_left_from(self.buffer.text(), c);
        self.move_to(extend, p);
    }

    fn page_up(&mut self, extend: bool, page_lines: usize)
        ensures
            final(self)@ == page_up_moved(old(self)@, extend, page_lines as int),
    {
        let (line, col) = self.cursor_line_column();
        let target = if line > page_lines {
            line - page_lines
        } else {
            0
        };
        let p = self.column_position(target, col);
        self.move_to(extend, p);
    }

    fn page_down(&mut self, extend: bool, page_lines: usize)
        requires
            text_bytes(old(self)@).len() < usize::MAX,
            cursor_lc(old(self)@).0 + page_lines <= usize::MAX,
        ensures
            final(self)@ == page_down_moved(old(self)@, extend, page_lines as int),
    {
        self.buffer.facts();
        let (line, col) = self.cursor_line_column();
        let total = line_total_of(self.buffer.text().as_bytes());
        proof {
            lemma_line_bounds(self.buffer.bytes(), 0);
        }
        let last = total - 1;
        let target = if line + page_lines < last {
            line + page_lines
        } else {
            last
        };
        let p = self.column_position(target, col);
        self.move_to(extend, p);
    }
}


/// A key the editor reacts to.
#[derive(Debug, Clone, Copy, PartialEq, Eq, Structural)]
pub enum TextEditKey {
    ArrowLeft,
    ArrowRight,
    ArrowUp,
    ArrowDown,
    Home,
    End,
    PageUp,
    PageDown,
    Backspace,
    Delete,
    Enter,
    Tab,
    A,
    B,
    C,
    F,
    G,
    H,
    I,
    U,
    V,
    X,
    Y,
    Z,
    F3,
    /// Any other key (its text, if any, is typed).
    Other,
}

/// What a key press asks of the editor.
#[derive(Debug, Clone, Copy, PartialEq, Eq, Structural)]
pub enum TextEditCommand {
    Left,
    Right,
    Up,
    Down,
    Home,
    End,
    PageUp,
    PageDown,
    Backspace,
    Delete,
    Enter,
    Tab,
    Copy,
    Cut,
    Paste,
    Undo,
    Redo,
    SelectAll,
    Bold,
    Italic,
    Underline,
    Find,
    FindReplace,
    FindNext,
    FindPrevious,
    /// Type the key's text.
    Typed,
}

/// The command of a key with the control and shift modifiers: navigation and editing keys
/// always; letter shortcuts with control (Ctrl+Shift+Z redoes, Ctrl+Z undoes); F3 and
/// Ctrl+G find the next match, the previous one with shift; anything else types.
pub open spec fn key_command(key: TextEditKey, ctrl: bool, shift: bool) -> TextEditCommand {
    match key {
        TextEditKey::ArrowLeft => TextEditCommand::Left,
        TextEditKey::ArrowRight => TextEditCommand::Right,
        TextEditKey::ArrowUp => TextEditCommand::Up,
        TextEditKey::ArrowDown => TextEditCommand::Down,
        TextEditKey::Home => TextEditCommand::Home,
        TextEditKey::End => TextEditCommand::End,
        TextEditKey::PageUp => TextEditCommand::PageUp,
        TextEditKey::PageDown => TextEditCommand::PageDown,
        TextEditKey::Backspace => TextEditCommand::Backspace,
        TextEditKey::Delete => TextEditCommand::Delete,
        TextEditKey::Enter => TextEditCommand::Enter,
        TextEditKey::Tab => TextEditCommand::Tab,
        TextEditKey::F3 => if shift {
            TextEditCommand::FindPrevious
        } else {
            TextEditCommand::FindNext
        },
        TextEditKey::Other => TextEditCommand::Typed,
        _ => if !ctrl {
            TextEditCommand::Typed
        } else {
            match key {
                TextEditKey::C => TextEditCommand::Copy,
                TextEditKey::X => TextEditCommand::Cut,
                TextEditKey::V => TextEditCommand::Paste,
                TextEditKey::Z => if shift {
                    TextEditCommand::Redo
                } else {
                    TextEditCommand::Undo
                },
                TextEditKey::Y => TextEditCommand::Redo,
                TextEditKey::A => TextEditCommand::SelectAll,
                TextEditKey::B => TextEditCommand::Bold,
                TextEditKey::I => TextEditCommand::Italic,
                TextEditKey::U => TextEditCommand::Underline,
                TextEditKey::F => TextEditCommand::Find,
                TextEditKey::H => TextEditCommand::FindReplace,
                _ => if shift {
                    TextEditCommand::FindPrevious
                } else {
                    TextEditCommand::FindNext
                },
            }
        },
    }
}

/// The command of a key press.
pub fn command_for_key(key: TextEditKey, ctrl: bool, shift: bool) -> (r: TextEditCommand)
    ensures
        r == key_command(key, ctrl, shift),
{
    match key {
        TextEditKey::ArrowLeft => TextEditCommand::Left,
        TextEditKey::ArrowRight => TextEditCommand::Right,
        TextEditKey::ArrowUp => TextEditCommand::Up,
        TextEditKey::ArrowDown => TextEditCommand::Down,
        TextEditKey::Home => TextEditCommand::Home,
        TextEditKey::End => TextEditCommand::End,
        TextEditKey::PageUp => TextEditCommand::PageUp,
        TextEditKey::PageDown => TextEditCommand::PageDown,
        TextEditKey::Backspace => TextEditCommand::Backspace,
        TextEditKey::Delete => TextEditCommand::Delete,
        TextEditKey::Enter => TextEditCommand::Enter,
        TextEditKey::Tab => TextEditCommand::Tab,
        TextEditKey::F3 => {
            if shift {
                TextEditCommand::FindPrevious
            } else {
                TextEditCommand::FindNext
            }
        },
        TextEditKey::Other => TextEditCommand::Typed,
        TextEditKey::C if ctrl => TextEditCommand::Copy,
        TextEditKey::X if ctrl => TextEditCommand::Cut,
        TextEditKey::V if ctrl => TextEditCommand::Paste,
        TextEditKey::Z if ctrl && shift => TextEditCommand::Redo,
        TextEditKey::Z if ctrl => TextEditCommand::Undo,
        TextEditKey::Y if ctrl => TextEditCommand::Redo,
        TextEditKey::A if ctrl => TextEditCommand::SelectAll,
        TextEditKey::B if ctrl => TextEditCommand::Bold,
        TextEditKey::I if ctrl => TextEditCommand::Italic,
        TextEditKey::U if ctrl => TextEditCommand::Underline,
        TextEditKey::F if ctrl => TextEditCommand::Find,
        TextEditKey::H if ctrl => TextEditCommand::FindReplace,
        TextEditKey::G if ctrl => {
            if shift {
                TextEditCommand::FindPrevious
            } else {
                TextEditCommand::FindNext
            }
        },
        _ => TextEditCommand::Typed,
    }
}

/// Backspace (unless read-only): deletes the selection; else, past the start, the
/// character before the cursor, or with control back to the start of the previous word.
pub open spec fn backspaced(old: TextEditState, ctrl: bool, new: TextEditState) -> bool {
    if old.read_only {
        new == old
    } else if has_sel(old) {
        selection_deleted(old, new)
    } else if old.cursor > 0 {
        let st = if ctrl {
            word_left_pos(text_bytes(old), old.cursor)
        } else {
            prev_boundary(text_bytes(old), old.cursor)
        };
        &&& range_removed(old, st, old.cursor, new)
        &&& new.anchor is None
        &&& new.events == old.events.push(TextEditEvent::TextChanged).push(cursor_event(new))
    } else {
        new == old
    }
}

/// Delete (unless read-only): deletes the selection; else, before the end, the character
/// after the cursor, or with control up to the end of the next word; the cursor stays.
pub open spec fn forward_deleted(old: TextEditState, ctrl: bool, new: TextEditState) -> bool {
    if old.read_only {
        new == old
    } else if has_sel(old) {
        selection_deleted(old, new)
    } else if old.cursor < text_bytes(old).len() {
        let en = if ctrl {
            word_right_pos(text_bytes(old), old.cursor)
        } else {
            next_pos(text_bytes(old), old.cursor)
        };
        &&& range_removed(old, old.cursor, en, new)
        &&& new.anchor == old.anchor
        &&& new.events == old.events.push(TextEditEvent::TextChanged)
    } else {
        new == old
    }
}

/// `n` spaces.
pub open spec fn spaces(n: int) -> Seq<char> {
    Seq::new(n as nat, |i: int| ' ')
}

impl TextEdit {
    fn set_merge(&mut self, enabled: bool)
        ensures
            final(self)@ == (TextEditState {
                history: UndoView { merge_enabled: enabled, ..old(self)@.history },
                ..old(self)@
            }),
    {
        self.buffer.set_merge(enabled);
    }

    fn backspace(&mut self, ctrl: bool)
        ensures
            backspaced(old(self)@, ctrl, final(self)@),
    {
        if self.read_only {
            return ;
        }
        if self.has_selection() {
            self.delete_selection();
            return ;
        }
        self.buffer.facts();
        let c = self.buffer.cursor_pos;
        if c == 0 {
            return ;
        }
        let start = if ctrl {
            word_left_from(self.buffer.text(), c)
        } else {
            prev_char_boundary(self.buffer.text(), c)
        };
        self.buffer.delete_range(start, c);
        self.events.push(TextEditEvent::TextChanged);
        self.emit_cursor_position();
    }

    fn delete_forward(&mut self, ctrl: bool)
        ensures
            forward_deleted(old(self)@, ctrl, final(self)@),
    {
        if self.read_only {
            return ;
        }
        if self.has_selection() {
            self.delete_selection();
            return ;
        }
        self.buffer.facts();
        let c = self.buffer.cursor_pos;
        if c >= self.buffer.len() {
            return ;
        }
        let end = if ctrl {
            word_right_from(self.buffer.text(), c)
        } else {
            next_char_pos(self.buffer.text(), c)
        };
        let anchor = self.buffer.selection_anchor;
        self.buffer.delete_range(c, end);
        self.buffer.facts();
        proof {
            if anchor is Some {
                assert(anchor == Some(c));
            }
        }
        self.buffer.set_anchor(anchor);
        self.events.push(TextEditEvent::TextChanged);
    }

    fn tab_spaces(&self) -> (r: String)
        ensures
            r@ == spaces(self@.tab_width),
    {
        let mut r = String::new();
        let mut i: usize = 0;
        proof {
            reveal_strlit(" ");
        }
        while i < self.tab_width
            invariant
                i <= self.tab_width,
                r@ == spaces(i as int),
                " "@ == seq![' '],
            decreases self.tab_width - i,
        {
            vstd::string::StringExecFns::append(&mut r, " ");
            i = i + 1;
            proof {
                assert(r@ =~= spaces(i as int));
            }
        }
        r
    }
}


proof fn lemma_line_col_bound(cs: Seq<char>)
    ensures
        0 <= line_col(cs).0,
        0 <= line_col(cs).1,
        line_col(cs).0 + line_col(cs).1 <= cs.len(),
    decreases cs.len(),
{
    if cs.len() > 0 {
        lemma_line_col_bound(cs.drop_last());
    }
}

proof fn lemma_newline_bytes()
    ensures
        bytes_of(seq!['\n']).len() == 1,
{
    let one = seq!['\n'];
    assert(one.drop_first() =~= Seq::<char>::empty());
    assert(encode_utf8(Seq::<char>::empty()) =~= Seq::<u8>::empty());
    assert(encode_scalar('\n' as u32).len() == 1);
}

proof fn lemma_spaces_bytes(n: int)
    requires
        n >= 0,
    ensures
        bytes_of(spaces(n)).len() == n,
    decreases n,
{
    if n > 0 {
        lemma_spaces_bytes(n - 1);
        assert(spaces(n).drop_first() =~= spaces(n - 1));
        assert(spaces(n)[0] == ' ');
        assert(encode_scalar(' ' as u32).len() == 1);
    } else {
        assert(spaces(n) =~= Seq::<char>::empty());
    }
}

/// The cursor's line is at most the text's length.
proof fn lemma_cursor_line_bound(s: TextEditState)
    requires
        state_ok(s),
    ensures
        0 <= cursor_lc(s).0 <= text_bytes(s).len(),
{
    let b = text_bytes(s);
    let pre = b.take(s.cursor);
    lemma_split_boundaries(b, s.cursor);
    vstd::utf8::decode_utf8_encode_utf8(pre);
    crate::utf8_text::lemma_chars_le_bytes(decode_utf8(pre));
    lemma_line_col_bound(decode_utf8(pre));
}

/// Whether a command moves the cursor.
pub open spec fn is_nav(cmd: TextEditCommand) -> bool {
    ||| cmd == TextEditCommand::Left
    ||| cmd == TextEditCommand::Right
    ||| cmd == TextEditCommand::Up
    ||| cmd == TextEditCommand::Down
    ||| cmd == TextEditCommand::Home
    ||| cmd == TextEditCommand::End
    ||| cmd == TextEditCommand::PageUp
    ||| cmd == TextEditCommand::PageDown
}

/// Whether a command edits the text from the keyboard.
pub open spec fn is_edit(cmd: TextEditCommand) -> bool {
    ||| cmd == TextEditCommand::Backspace
    ||| cmd == TextEditCommand::Delete
    ||| cmd == TextEditCommand::Enter
    ||| cmd == TextEditCommand::Tab
    ||| cmd == TextEditCommand::Typed
}

/// The state after a cursor-moving command (control moves by words, or to the text's
/// start and end).
pub open spec fn nav_result(old: TextEditState, cmd: TextEditCommand, ctrl: bool, shift: bool, page: int) -> TextEditState {
    match cmd {
        TextEditCommand::Left => if ctrl {
            word_left_moved(old, shift)
        } else {
            left_moved(old, shift)
        },
        TextEditCommand::Right => if ctrl {
            word_right_moved(old, shift)
        } else {
            right_moved(old, shift)
        },
        TextEditCommand::Up => up_moved(old, shift),
        TextEditCommand::Down => down_moved(old, shift),
        TextEditCommand::Home => if ctrl {
            move_result(old, shift, 0)
        } else {
            line_start_moved(old, shift)
        },
        TextEditCommand::End => if ctrl {
            move_result(old, shift, text_bytes(old).len() as int)
        } else {
            line_end_moved(old, shift)
        },
        TextEditCommand::PageUp => page_up_moved(old, shift, page),
        _ => page_down_moved(old, shift, page),
    }
}

/// The result of an editing command: Backspace, Delete, Enter (a newline that ends
/// merging), Tab (spaces) and typing the key's text (which lets merging go on).
pub open spec fn edit_pressed(
    old: TextEditState,
    cmd: TextEditCommand,
    ctrl: bool,
    alt: bool,
    text: Seq<char>,
    new: TextEditState,
    handled: bool,
) -> bool {
    match cmd {
        TextEditCommand::Backspace => handled && backspaced(old, ctrl, new),
        TextEditCommand::Delete => handled && forward_deleted(old, ctrl, new),
        TextEditCommand::Enter => handled && (old.read_only ==> new == old) && (!old.read_only
            ==> exists|mid: TextEditState|
            #[trigger] typed(old, seq!['\n'], mid) && new == (TextEditState {
                history: UndoView { merge_enabled: false, ..mid.history },
                ..mid
            })),
        TextEditCommand::Tab => handled && ((old.read_only || old.tab_width == 0) ==> new == old)
            && (!(old.read_only || old.tab_width == 0) ==> typed(old, spaces(old.tab_width), new)),
        _ => if text.len() > 0 && !ctrl && !alt && !old.read_only {
            handled && exists|mid: TextEditState|
                #[trigger] typed(old, text, mid) && new == (TextEditState {
                    history: UndoView { merge_enabled: true, ..mid.history },
                    ..mid
                })
        } else {
            !handled && new == old
        },
    }
}

/// The result of the other commands: clipboard, history, select all, formatting and
/// find requests.
pub open spec fn other_pressed(
    old: TextEditState,
    cmd: TextEditCommand,
    clipboard: Option<Seq<char>>,
    new: TextEditState,
    out: Option<Seq<char>>,
) -> bool {
    match cmd {
        TextEditCommand::Copy => new == old && (out is Some == has_sel(old)) && (out matches Some(
            t,
        ) ==> bytes_of(t) == text_bytes(old).subrange(
            (sel_range(old)->0).0,
            (sel_range(old)->0).1,
        )),
        TextEditCommand::Cut => (out is Some == !(old.read_only || !has_sel(old))) && (out is None
            ==> new == old) && (out matches Some(t) ==> bytes_of(t) == text_bytes(old).subrange(
            (sel_range(old)->0).0,
            (sel_range(old)->0).1,
        ) && selection_deleted(old, new)),
        TextEditCommand::Paste => out is None && match clipboard {
            Some(c) => ((old.read_only || c.len() == 0) ==> new == old) && (!(old.read_only
                || c.len() == 0) ==> typed(old, c, new)),
            None => new == old,
        },
        TextEditCommand::Undo => out is None && ((old.read_only || old.history.index == 0)
            ==> new == old) && (!(old.read_only || old.history.index == 0) ==> undone(old, new)),
        TextEditCommand::Redo => out is None && ((old.read_only || old.history.index
            >= old.history.commands.len()) ==> new == old) && (!(old.read_only
            || old.history.index >= old.history.commands.len()) ==> redone(old, new)),
        TextEditCommand::SelectAll => out is None && (text_bytes(old).len() == 0 ==> new == old)
            && (text_bytes(old).len() > 0 ==> new == (TextEditState {
            anchor: Some(0),
            cursor: text_bytes(old).len() as int,
            events: old.events.push(TextEditEvent::SelectionChanged),
            ..old
        })),
        TextEditCommand::Bold => out is None && flag_toggled(
            old,
            only_flag(true, false, false, false),
            new,
        ),
        TextEditCommand::Italic => out is None && flag_toggled(
            old,
            only_flag(false, true, false, false),
            new,
        ),
        TextEditCommand::Underline => out is None && flag_toggled(
            old,
            only_flag(false, false, true, false),
            new,
        ),
        TextEditCommand::Find => out is None && new == (TextEditState {
            events: old.events.push(TextEditEvent::FindRequested),
            ..old
        }),
        TextEditCommand::FindReplace => out is None && new == (TextEditState {
            events: old.events.push(TextEditEvent::FindReplaceRequested),
            ..old
        }),
        TextEditCommand::FindNext => out is None && new == (TextEditState {
            events: old.events.push(TextEditEvent::FindNextRequested),
            ..old
        }),
        _ => out is None && new == (TextEditState {
            events: old.events.push(TextEditEvent::FindPreviousRequested),
            ..old
        }),
    }
}

/// The result of a key press: the new state, whether it was handled (always, but for
/// text that cannot be typed), and text for the clipboard (copy and cut).
pub open spec fn key_pressed(
    old: TextEditState,
    cmd: TextEditCommand,
    ctrl: bool,
    shift: bool,
    alt: bool,
    text: Seq<char>,
    page: int,
    clipboard: Option<Seq<char>>,
    new: TextEditState,
    handled: bool,
    out: Option<Seq<char>>,
) -> bool {
    if is_nav(cmd) {
        handled && out is None && new == nav_result(old, cmd, ctrl, shift, page)
    } else if is_edit(cmd) {
        out is None && edit_pressed(old, cmd, ctrl, alt, text, new, handled)
    } else {
        handled && other_pressed(old, cmd, clipboard, new, out)
    }
}

pub open spec fn opt_text_view(t: Option<&str>) -> Option<Seq<char>> {
    match t {
        Some(s) => Some(s@),
        None => None,
    }
}

pub open spec fn opt_string_view(t: Option<String>) -> Option<Seq<char>> {
    match t {
        Some(s) => Some(s@),
        None => None,
    }
}

impl TextEdit {
    fn handle_navigation(&mut self, cmd: TextEditCommand, ctrl: bool, shift: bool, page_lines: usize)
        requires
            is_nav(cmd),
            text_bytes(old(self)@).len() + page_lines + 1 <= usize::MAX,
        ensures
            final(self)@ == nav_result(old(self)@, cmd, ctrl, shift, page_lines as int),
    {
        self.check_state();
        proof {
            lemma_cursor_line_bound(self@);
        }
        match cmd {
            TextEditCommand::Left => {
                if ctrl {
                    self.move_cursor_word_left(shift);
                } else {
                    self.move_cursor_left(shift);
                }
            },
            TextEditCommand::Right => {
                if ctrl {
                    self.move_cursor_word_right(shift);
                } else {
                    self.move_cursor_right(shift);
                }
            },
            TextEditCommand::Up => self.move_cursor_up(shift),
            TextEditCommand::Down => self.move_cursor_down(shift),
            TextEditCommand::Home => {
                if ctrl {
                    self.move_cursor_to_start(shift);
                } else {
                    self.move_cursor_to_line_start(shift);
                }
            },
            TextEditCommand::End => {
                if ctrl {
                    self.move_cursor_to_end(shift);
                } else {
                    self.move_cursor_to_line_end(shift);
                }
            },
            TextEditCommand::PageUp => self.page_up(shift, page_lines),
            _ => self.page_down(shift, page_lines),
        }
    }

    fn handle_editing(&mut self, cmd: TextEditCommand, ctrl: bool, alt: bool, text: &str) -> (handled: bool)
        requires
            is_edit(cmd),
            text_bytes(old(self)@).len() + old(self)@.tab_width + bytes_of(text@).len() + 1
                <= usize::MAX,
        ensures
            edit_pressed(old(self)@, cmd, ctrl, alt, text@, final(self)@, handled),
    {
        let ghost s0 = self@;
        proof {
            crate::utf8_text::lemma_chars_le_bytes(text@);
            lemma_newline_bytes();
            lemma_spaces_bytes(self@.tab_width);
        }
        match cmd {
            TextEditCommand::Backspace => {
                self.backspace(ctrl);
                true
            },
            TextEditCommand::Delete => {
                self.delete_forward(ctrl);
                true
            },
            TextEditCommand::Enter => {
                if self.read_only {
                    return true;
                }
                let nl = "\n";
                proof {
                    reveal_strlit("\n");
                    assert(nl@ =~= seq!['\n']);
                }
                self.insert_text(nl);
                let ghost mid = self@;
                self.set_merge(false);
                proof {
                    assert(typed(s0, seq!['\n'], mid));
                }
                true
            },
            TextEditCommand::Tab => {
                if self.read_only {
                    return true;
                }
                let sp = self.tab_spaces();
                self.insert_text(sp.as_str());
                true
            },
            _ => {
                if text.as_bytes().len() > 0 && !ctrl && !alt && !self.read_only {
                    self.insert_text(text);
                    let ghost mid = self@;
                    self.set_merge(true);
                    proof {
                        assert(typed(s0, text@, mid));
                    }
                    true
                } else {
                    false
                }
            },
        }
    }

    fn handle_other(&mut self, cmd: TextEditCommand, clipboard: Option<&str>) -> (out: Option<String>)
        requires
            !is_nav(cmd),
            !is_edit(cmd),
            text_bytes(old(self)@).len() + match clipboard {
                Some(c) => bytes_of(c@).len() as int,
                None => 0int,
            } <= usize::MAX,
        ensures
            other_pressed(old(self)@, cmd, opt_text_view(clipboard), final(self)@, opt_string_view(out)),
    {
        match cmd {
            TextEditCommand::Copy => self.copy(),
            TextEditCommand::Cut => self.cut(),
            TextEditCommand::Paste => {
                match clipboard {
                    Some(c) => self.paste(c),
                    None => {},
                }
                None
            },
            TextEditCommand::Undo => {
                self.undo();
                None
            },
            TextEditCommand::Redo => {
                self.redo();
                None
            },
            TextEditCommand::SelectAll => {
                self.select_all();
                None
            },
            TextEditCommand::Bold => {
                self.toggle_bold();
                None
            },
            TextEditCommand::Italic => {
                self.toggle_italic();
                None
            },
            TextEditCommand::Underline => {
                self.toggle_underline();
                None
            },
            TextEditCommand::Find => {
                self.events.push(TextEditEvent::FindRequested);
                None
            },
            TextEditCommand::FindReplace => {
                self.events.push(TextEditEvent::FindReplaceRequested);
                None
            },
            TextEditCommand::FindNext => {
                self.events.push(TextEditEvent::FindNextRequested);
                None
            },
            _ => {
                self.events.push(TextEditEvent::FindPreviousRequested);
                None
            },
        }
    }

    /// Handle a key press (`text`: what the key types; `page_lines`: how many lines a page
    /// holds; `clipboard`: the clipboard's text, for pasting). Returns whether the key was
    /// handled, and the text to put on the clipboard for copy and cut.
    pub fn handle_key_press(
        &mut self,
        key: TextEditKey,
        shift: bool,
        ctrl: bool,
        alt: bool,
        text: &str,
        page_lines: usize,
        clipboard: Option<&str>,
    ) -> (r: (bool, Option<String>))
        requires
            text_bytes(old(self)@).len() + old(self)@.tab_width + bytes_of(text@).len()
                + match clipboard {
                Some(c) => bytes_of(c@).len() as int,
                None => 0int,
            } + page_lines + 1 <= usize::MAX,
        ensures
            key_pressed(
                old(self)@,
                key_command(key, ctrl, shift),
                ctrl,
                shift,
                alt,
                text@,
                page_lines as int,
                opt_text_view(clipboard),
                final(self)@,
                r.0,
                opt_string_view(r.1),
            ),
    {
        let cmd = command_for_key(key, ctrl, shift);
        if matches!(cmd, TextEditCommand::Left | TextEditCommand::Right | TextEditCommand::Up
            | TextEditCommand::Down | TextEditCommand::Home | TextEditCommand::End
            | TextEditCommand::PageUp | TextEditCommand::PageDown) {
            self.handle_navigation(cmd, ctrl, shift, page_lines);
            (true, None)
        } else if matches!(cmd, TextEditCommand::Backspace | TextEditCommand::Delete
            | TextEditCommand::Enter | TextEditCommand::Tab | TextEditCommand::Typed) {
            let handled = self.handle_editing(cmd, ctrl, alt, text);
            (handled, None)
        } else {
            let out = self.handle_other(cmd, clipboard);
            (true, out)
        }
    }
}


/// The position a click at line `line`, column `col` lands on: the line held to the last
/// one, the column to the line's length.
pub open spec fn position_on(b: Seq<u8>, line: int, col: int) -> int {
    let last = line_total(b) - 1;
    column_on_line(b, if line < last {
        line
    } else {
        last
    }, col)
}

impl TextEdit {
    /// The number of lines (a trailing newline opens none; at least one).
    pub fn line_count(&self) -> (r: usize)
        requires
            text_bytes(self@).len() < usize::MAX,
        ensures
            r == line_total(text_bytes(self@)),
    {
        line_total_of(self.buffer.text().as_bytes())
    }

    /// The byte position where a line starts (the end, for lines past the last).
    pub fn line_start(&self, line: usize) -> (r: usize)
        ensures
            r == line_start_pos(text_bytes(self@), line as int),
    {
        line_start_of(self.buffer.text().as_bytes(), line)
    }

    /// The byte position where a line ends: its newline, or the end of the text.
    pub fn line_end(&self, line: usize) -> (r: usize)
        ensures
            r == line_end_pos(text_bytes(self@), line as int),
    {
        line_end_of(self.buffer.text().as_bytes(), line)
    }

    /// The byte position at line `line`, column `col`, both held to the text.
    pub fn position_at(&self, line: usize, col: usize) -> (r: usize)
        requires
            text_bytes(self@).len() < usize::MAX,
        ensures
            r == position_on(text_bytes(self@), line as int, col as int),
            valid_pos(text_bytes(self@), r as int),
    {
        self.buffer.facts();
        proof {
            lemma_line_bounds(self.buffer.bytes(), 0);
        }
        let last = self.line_count() - 1;
        let l = if line < last {
            line
        } else {
            last
        };
        self.column_position(l, col)
    }

    /// A mouse press at line `line`, column `col` (`left`: the left button): the cursor
    /// goes there, extending the selection with shift when there is an anchor, else
    /// starting one there; a drag starts. Returns whether it was handled.
    pub fn handle_mouse_press(&mut self, left: bool, shift: bool, line: usize, col: usize) -> (handled: bool)
        requires
            text_bytes(old(self)@).len() < usize::MAX,
        ensures
            handled == left,
            !left ==> final(self)@ == old(self)@,
            left ==> {
                let p = position_on(text_bytes(old(self)@), line as int, col as int);
                let mid = if shift && old(self)@.anchor is Some {
                    TextEditState { cursor: p, ..old(self)@ }
                } else {
                    TextEditState { cursor: p, anchor: Some(p), ..old(self)@ }
                };
                final(self)@ == TextEditState {
                    dragging: true,
                    events: old(self)@.events.push(cursor_event(mid)),
                    ..mid
                }
            },
    {
        if !left {
            return false;
        }
        let p = self.position_at(line, col);
        if !(shift && self.buffer.selection_anchor.is_some()) {
            self.buffer.set_anchor(Some(p));
        }
        self.buffer.set_cursor(p);
        self.is_dragging = true;
        self.emit_cursor_position();
        true
    }

    /// A mouse release: the drag ends; an anchor at the cursor is dropped, any other
    /// outcome notified as a selection change. Returns whether it was handled.
    pub fn handle_mouse_release(&mut self, left: bool) -> (handled: bool)
        ensures
            handled == left,
            !left ==> final(self)@ == old(self)@,
            left ==> final(self)@ == (if old(self)@.anchor == Some(old(self)@.cursor) {
                TextEditState { dragging: false, anchor: None, ..old(self)@ }
            } else {
                TextEditState {
                    dragging: false,
                    events: old(self)@.events.push(TextEditEvent::SelectionChanged),
                    ..old(self)@
                }
            }),
    {
        if !left {
            return false;
        }
        self.is_dragging = false;
        let at_cursor = match self.buffer.selection_anchor {
            Some(a) => a == self.buffer.cursor_pos,
            None => false,
        };
        if at_cursor {
            self.buffer.set_anchor(None);
        } else {
            self.events.push(TextEditEvent::SelectionChanged);
        }
        true
    }

    /// A mouse move to line `line`, column `col` while dragging: the cursor follows.
    /// Returns whether a drag is under way.
    pub fn handle_mouse_move(&mut self, line: usize, col: usize) -> (handled: bool)
        requires
            text_bytes(old(self)@).len() < usize::MAX,
        ensures
            handled == old(self)@.dragging,
            ({
                let p = position_on(text_bytes(old(self)@), line as int, col as int);
                final(self)@ == (if !old(self)@.dragging || p == old(self)@.cursor {
                    old(self)@
                } else {
                    TextEditState {
                        cursor: p,
                        events: old(self)@.events.push(
                            cursor_event(TextEditState { cursor: p, ..old(self)@ }),
                        ),
                        ..old(self)@
                    }
                })
            }),
    {
        let p = self.position_at(line, col);
        if !self.is_dragging {
            return false;
        }
        if self.buffer.cursor_pos != p {
            self.buffer.set_cursor(p);
            self.emit_cursor_position();
        }
        true
    }

    /// Losing focus drops the selection anchor.
    pub fn handle_focus_out(&mut self)
        ensures
            final(self)@ == (if old(self)@.anchor is Some {
                TextEditState {
                    anchor: None,
                    events: old(self)@.events.push(TextEditEvent::SelectionChanged),
                    ..old(self)@
                }
            } else {
                old(self)@
            }),
    {
        self.clear_selection();
    }

    /// The text to search.
    pub fn search_text(&self) -> (r: String)
        ensures
            r@ == self@.doc.spec_text(),
    {
        owned(self.buffer.text())
    }

    /// Move the cursor for a search, snapped to a character boundary at or before `pos`,
    /// dropping the anchor; a move is notified.
    pub fn search_set_cursor_position(&mut self, pos: usize)
        ensures
            snapped(text_bytes(old(self)@), pos as int, final(self)@.cursor),
            final(self)@ == (if final(self)@.cursor == old(self)@.cursor {
                old(self)@
            } else {
                let mid = TextEditState { cursor: final(self)@.cursor, anchor: None, ..old(self)@ };
                TextEditState { events: old(self)@.events.push(cursor_event(mid)), ..mid }
            }),
    {
        let p = snap_to_char_boundary(self.buffer.text(), pos);
        if p != self.buffer.cursor_pos {
            self.buffer.set_cursor(p);
            self.buffer.set_anchor(None);
            self.emit_cursor_position();
        }
    }

    /// Put the cursor at `pos` (snapped), keeping the anchor, to show it.
    pub fn scroll_to_position(&mut self, pos: usize)
        ensures
            snapped(text_bytes(old(self)@), pos as int, final(self)@.cursor),
            final(self)@ == (TextEditState { cursor: final(self)@.cursor, ..old(self)@ }),
    {
        let p = snap_to_char_boundary(self.buffer.text(), pos);
        self.buffer.set_cursor(p);
    }

    /// Replace the bytes `start..end` (each snapped to a boundary) with `replacement`
    /// (unstyled), recording a deletion of what was there, if anything, and an insertion
    /// of the replacement, if not empty; the cursor after it, no anchor. Nothing happens
    /// when read-only.
    pub fn replace_range(&mut self, start: usize, end: usize, replacement: &str)
        requires
            start <= end,
            text_bytes(old(self)@).len() + bytes_of(replacement@).len() <= usize::MAX,
        ensures
            old(self)@.read_only ==> final(self)@ == old(self)@,
            !old(self)@.read_only ==> exists|st: int, en: int|
                {
                    let b = text_bytes(old(self)@);
                    let n = bytes_of(replacement@).len() as int;
                    let h1 = if st < en {
                        push_step(old(self)@.history, del_edit(b, st, en))
                    } else {
                        old(self)@.history
                    };
                    &&& #[trigger] snapped(text_bytes(old(self)@), start as int, st)
                    &&& #[trigger] snapped(text_bytes(old(self)@), end as int, en)
                    &&& text_bytes(final(self)@) == b.take(st) + bytes_of(replacement@) + b.skip(en)
                    &&& final(self)@.cursor == st + n
                    &&& final(self)@.anchor is None
                    &&& final(self)@.history == (if n > 0 {
                        push_step(h1, ins_edit(st, replacement@))
                    } else {
                        h1
                    })
                    &&& final(self)@.doc.spec_block_runs() == old(self)@.doc.spec_block_runs()
                    &&& final(self)@.cursor_format == old(self)@.cursor_format
                    &&& same_settings(final(self)@, old(self)@)
                    &&& final(self)@.events == old(self)@.events.push(
                        TextEditEvent::TextChanged,
                    ).push(cursor_event(final(self)@))
                },
    {
        if self.read_only {
            return ;
        }
        self.check_state();
        let ghost s0 = self@;
        let ghost b = text_bytes(s0);
        let st = snap_to_char_boundary(self.buffer.text(), start);
        let en = snap_to_char_boundary(self.buffer.text(), end);
        proof {
            crate::utf8_text::lemma_chars_le_bytes(replacement@);
            if st > en {
                assert(is_char_boundary(b, st as int));
            }
        }
        if st < en {
            self.buffer.delete_range(st, en);
        } else {
            self.buffer.set_cursor(st);
            self.buffer.set_anchor(None);
        }
        let ghost mid = self.buffer.bytes();
        proof {
            assert(mid == b.take(st as int) + b.skip(en as int));
            assert(mid.take(st as int) =~= b.take(st as int));
            assert(mid.skip(st as int) =~= b.skip(en as int));
        }
        if replacement.as_bytes().len() > 0 {
            self.buffer.insert_at_cursor(replacement, CharFormat::new());
        } else {
            proof {
                assert(b.take(st as int) + bytes_of(replacement@) + b.skip(en as int) =~= mid);
            }
        }
        self.events.push(TextEditEvent::TextChanged);
        self.emit_cursor_position();
        proof {
            assert(snapped(b, start as int, st as int));
            assert(snapped(b, end as int, en as int));
        }
    }

    /// Highlight these search matches (byte ranges).
    pub fn set_search_matches(&mut self, matches: Vec<(usize, usize)>)
        ensures
            final(self)@ == (TextEditState { search_matches: matches@, ..old(self)@ }),
    {
        self.search_matches = matches;
    }

    /// Focus a search match, or none.
    pub fn set_current_match_index(&mut self, index: Option<usize>)
        ensures
            final(self)@ == (TextEditState { current_match: index, ..old(self)@ }),
    {
        self.current_search_match = index;
    }

    /// Remove the search highlights.
    pub fn clear_search_highlights(&mut self)
        ensures
            final(self)@ == (TextEditState {
                search_matches: Seq::empty(),
                current_match: None,
                ..old(self)@
            }),
    {
        self.search_matches = Vec::new();
        self.current_search_match = None;
    }

    /// The highlighted search matches.
    pub fn search_matches(&self) -> (r: &[(usize, usize)])
        ensures
            r@ == self@.search_matches,
    {
        self.search_matches.as_slice()
    }

    /// The focused search match.
    pub fn current_search_match(&self) -> (r: Option<usize>)
        ensures
            r == self@.current_match,
    {
        self.current_search_match
    }
}

impl Default for TextEdit {
    fn default() -> (r: Self)
        ensures
            fresh_text(r@, Seq::empty(), 0),
            fresh_settings(r@),
    {
        TextEdit::new()
    }
}

} // verus!
