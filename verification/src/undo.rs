//! Undo/redo history of text edits, with merging of consecutive typing and deleting.

use vstd::prelude::*;
use vstd::string::StringExecFns;
use vstd::utf8::*;

use crate::utf8_text::{
    bytes_of, lemma_concat_boundaries, lemma_encode_concat, lemma_split_boundaries, owned,
};

verus! {

broadcast use vstd::utf8::group_utf8_lib;


/// An undoable edit: text inserted at, or deleted from, a byte position.
#[derive(Debug, Clone, PartialEq)]
pub enum EditCommand {
    /// Text was inserted at a byte position.
    Insert {
        /// Byte position where text was inserted.
        pos: usize,
        /// The inserted text.
        text: String,
    },
    /// Text was deleted from a byte position.
    Delete {
        /// Byte position where deletion started.
        pos: usize,
        /// The deleted text.
        text: String,
    },
}

/// An edit as a value: whether it inserts, its byte position and its text.
pub struct EditView {
    pub is_insert: bool,
    pub pos: int,
    pub text: Seq<char>,
}

impl View for EditCommand {
    type V = EditView;

    open spec fn view(&self) -> EditView {
        match self {
            EditCommand::Insert { pos, text } => EditView { is_insert: true, pos: *pos as int, text: text@ },
            EditCommand::Delete { pos, text } => EditView { is_insert: false, pos: *pos as int, text: text@ },
        }
    }
}

/// Whether a text holds a newline.
pub open spec fn has_newline(t: Seq<char>) -> bool {
    bytes_of(t).contains(10u8)
}

/// The edit that `a` followed by `b` merge into, if they merge: typing that continues where an
/// insertion ended (without a newline), or a deletion just before (backspace) or at (forward
/// delete) the position of an earlier deletion, neither holding a newline.
pub open spec fn merged_edit(a: EditView, b: EditView) -> Option<EditView> {
    if a.is_insert && b.is_insert {
        if a.pos + bytes_of(a.text).len() == b.pos && !has_newline(b.text) {
            Some(EditView { text: a.text + b.text, ..a })
        } else {
            None
        }
    } else if !a.is_insert && !b.is_insert {
        if has_newline(a.text) || has_newline(b.text) {
            None
        } else if b.pos + bytes_of(b.text).len() == a.pos {
            Some(EditView { is_insert: false, pos: b.pos, text: b.text + a.text })
        } else if b.pos == a.pos {
            Some(EditView { text: a.text + b.text, ..a })
        } else {
            None
        }
    } else {
        None
    }
}

fn contains_newline(s: &str) -> (r: bool)
    ensures
        r == has_newline(s@),
{
    let b = s.as_bytes();
    let mut i: usize = 0;
    while i < b.len()
        invariant
            i <= b@.len(),
            b@ == bytes_of(s@),
            forall|k: int| 0 <= k < i ==> b@[k] != 10u8,
        decreases b.len() - i,
    {
        if b[i] == 10 {
            assert(b@[i as int] == 10u8);
            return true;
        }
        i = i + 1;
    }
    false
}

/// The byte length of an edit's text.
pub open spec fn edit_len(e: EditView) -> int {
    bytes_of(e.text).len() as int
}

/// The bytes `t` after edit `e`: its text inserted at, or its byte length removed from,
/// its position.
pub open spec fn apply_edit(e: EditView, t: Seq<u8>) -> Seq<u8> {
    if e.is_insert {
        t.take(e.pos) + bytes_of(e.text) + t.skip(e.pos)
    } else {
        t.take(e.pos) + t.skip(e.pos + edit_len(e))
    }
}

/// Whether edit `e` applies to `t`: its position is a character boundary of `t`, and a
/// deletion removes exactly its text, ending on a boundary.
pub open spec fn edit_fits(e: EditView, t: Seq<u8>) -> bool {
    &&& 0 <= e.pos <= t.len()
    &&& is_char_boundary(t, e.pos)
    &&& !e.is_insert ==> {
        &&& e.pos + edit_len(e) <= t.len()
        &&& is_char_boundary(t, e.pos + edit_len(e))
        &&& t.subrange(e.pos, e.pos + edit_len(e)) == bytes_of(e.text)
    }
}

/// Whether `texts` is a history of the commands: each text is valid UTF-8 that fits in
/// memory, and `texts[i + 1]` is what command `i` makes of `texts[i]`.
pub open spec fn history_ok(cmds: Seq<EditView>, texts: Seq<Seq<u8>>) -> bool {
    &&& texts.len() == cmds.len() + 1
    &&& forall|i: int| 0 <= i < texts.len() ==> valid_utf8(#[trigger] texts[i])
    &&& forall|i: int| 0 <= i < texts.len() ==> (#[trigger] texts[i]).len() <= usize::MAX
    &&& forall|i: int|
        0 <= i < cmds.len() ==> edit_fits(#[trigger] cmds[i], texts[i]) && texts[i + 1]
            == apply_edit(cmds[i], texts[i])
}

/// An edit that fits valid UTF-8 gives valid UTF-8, and can be taken back: after an
/// insertion the inserted bytes sit between boundaries and removing them gives `t` again;
/// after a deletion its position is a boundary where putting the text back gives `t`.
pub proof fn lemma_apply_edit(e: EditView, t: Seq<u8>)
    requires
        valid_utf8(t),
        edit_fits(e, t),
    ensures
        valid_utf8(apply_edit(e, t)),
        e.is_insert ==> {
            let u = apply_edit(e, t);
            &&& u.len() == t.len() + edit_len(e)
            &&& is_char_boundary(u, e.pos)
            &&& is_char_boundary(u, e.pos + edit_len(e))
            &&& u.take(e.pos) + u.skip(e.pos + edit_len(e)) == t
        },
        !e.is_insert ==> {
            let u = apply_edit(e, t);
            &&& u.len() == t.len() - edit_len(e)
            &&& is_char_boundary(u, e.pos)
            &&& u.take(e.pos) + bytes_of(e.text) + u.skip(e.pos) == t
        },
{
    let p = e.pos;
    let n = edit_len(e);
    let bt = bytes_of(e.text);
    lemma_split_boundaries(t, p);
    let x = t.take(p);
    let y = t.skip(p);
    is_char_boundary_start_end_of_seq(x);
    if e.is_insert {
        is_char_boundary_start_end_of_seq(bt);
        lemma_concat_boundaries(x, bt);
        let xb = x + bt;
        lemma_concat_boundaries(xb, y);
        let u = xb + y;
        assert(u == apply_edit(e, t));
        assert(is_char_boundary(xb, p));
        assert(is_char_boundary(u, p));
        assert(is_char_boundary(xb, p + n));
        assert(is_char_boundary(u, p + n));
        assert(u.take(p) =~= x);
        assert(u.skip(p + n) =~= y);
        assert(x + y =~= t);
    } else {
        assert(is_char_boundary(y, n));
        lemma_split_boundaries(y, n);
        let z = y.skip(n);
        assert(t.skip(p + n) =~= z);
        lemma_concat_boundaries(x, z);
        let u = x + z;
        assert(u == apply_edit(e, t));
        assert(u.take(p) =~= x);
        assert(u.skip(p) =~= z);
        assert(x + bt + z =~= t);
    }
}

/// Applying two edits that merge is applying their merged edit: the merged edit fits the
/// first text and gives the last.
pub proof fn lemma_merge_apply(a: EditView, c: EditView, t0: Seq<u8>)
    requires
        valid_utf8(t0),
        edit_fits(a, t0),
        edit_fits(c, apply_edit(a, t0)),
        merged_edit(a, c) is Some,
    ensures
        edit_fits(merged_edit(a, c)->0, t0),
        apply_edit(merged_edit(a, c)->0, t0) == apply_edit(c, apply_edit(a, t0)),
{
    let m = merged_edit(a, c)->0;
    let t1 = apply_edit(a, t0);
    let p = a.pos;
    let na = edit_len(a);
    let nc = edit_len(c);
    lemma_apply_edit(a, t0);
    if a.is_insert {
        lemma_encode_concat(a.text, c.text);
        assert(bytes_of(m.text) == bytes_of(a.text) + bytes_of(c.text));
        assert(t1.take(p + na) =~= t0.take(p) + bytes_of(a.text));
        assert(t1.skip(p + na) =~= t0.skip(p));
        assert(apply_edit(m, t0) =~= apply_edit(c, t1));
    } else if c.pos + nc == p {
        let q = c.pos;
        lemma_encode_concat(c.text, a.text);
        assert(bytes_of(m.text) == bytes_of(c.text) + bytes_of(a.text));
        assert(t1.take(p) =~= t0.take(p));
        assert(t1.subrange(q, p) =~= t0.subrange(q, p));
        assert(t0.subrange(q, p + na) =~= t0.subrange(q, p) + t0.subrange(p, p + na));
        // q is a boundary of t0: it is one of t1's prefix up to p, which t0 shares.
        lemma_split_boundaries(t1, p);
        assert(is_char_boundary(t1.take(p), q));
        lemma_split_boundaries(t0, p);
        lemma_concat_boundaries(t0.take(p), t0.skip(p));
        assert(t0.take(p) + t0.skip(p) =~= t0);
        assert(is_char_boundary(t0, q));
        assert(t1.take(q) =~= t0.take(q));
        assert(t1.skip(p) =~= t0.skip(p + na));
        assert(apply_edit(m, t0) =~= apply_edit(c, t1));
    } else {
        lemma_encode_concat(a.text, c.text);
        assert(bytes_of(m.text) == bytes_of(a.text) + bytes_of(c.text));
        assert(c.pos == p);
        assert(t1.skip(p) =~= t0.skip(p + na));
        assert(t1.subrange(p, p + nc) =~= t0.subrange(p + na, p + na + nc));
        assert(t0.subrange(p, p + na + nc) =~= t0.subrange(p, p + na) + t0.subrange(
            p + na,
            p + na + nc,
        ));
        // p + na + nc is a boundary of t0: it is nc into t1's suffix from p.
        lemma_split_boundaries(t1, p);
        assert(is_char_boundary(t1.skip(p), nc));
        lemma_split_boundaries(t0, p + na);
        lemma_concat_boundaries(t0.take(p + na), t0.skip(p + na));
        assert(t0.take(p + na) + t0.skip(p + na) =~= t0);
        assert(is_char_boundary(t0, p + na + nc));
        assert(t1.take(p) =~= t0.take(p));
        assert(t1.skip(p + nc) =~= t0.skip(p + na + nc));
        assert(apply_edit(m, t0) =~= apply_edit(c, t1));
    }
}

/// A merged edit does what its two edits do one after the other: when `a` fits a valid text
/// and `c` fits what `a` makes of it, the edit they merge into fits the text and makes of
/// it what `a` then `c` make.
pub proof fn law_merged_edit_applies_both(a: EditView, c: EditView, t: Seq<u8>)
    requires
        valid_utf8(t),
        edit_fits(a, t),
        edit_fits(c, apply_edit(a, t)),
        merged_edit(a, c) is Some,
    ensures
        edit_fits(merged_edit(a, c)->0, t),
        apply_edit(merged_edit(a, c)->0, t) == apply_edit(c, apply_edit(a, t)),
{
    lemma_merge_apply(a, c, t);
}

/// Which edits merge: an insertion never merges with a deletion; an insertion holding a
/// newline is never absorbed; deletions holding a newline never merge; and a merge keeps
/// the kind of its edits.
pub proof fn law_merge_kinds(a: EditView, c: EditView)
    ensures
        a.is_insert != c.is_insert ==> merged_edit(a, c) is None,
        a.is_insert && c.is_insert && has_newline(c.text) ==> merged_edit(a, c) is None,
        !a.is_insert && !c.is_insert && (has_newline(a.text) || has_newline(c.text)) ==> merged_edit(a, c) is None,
        merged_edit(a, c) matches Some(m) ==> m.is_insert == a.is_insert,
{
}

impl EditCommand {
    /// Try to merge `other` into this command; returns whether it did.
    pub fn try_merge(&mut self, other: &EditCommand) -> (merged: bool)
        ensures
            merged == (merged_edit(old(self)@, other@) is Some),
            merged ==> final(self)@ == merged_edit(old(self)@, other@)->0,
            !merged ==> final(self)@ == old(self)@,
            merged ==> forall|t: Seq<u8>|
                valid_utf8(t) && edit_fits(old(self)@, t) && edit_fits(other@, #[trigger] apply_edit(old(self)@, t))
                    ==> edit_fits(final(self)@, t) && apply_edit(final(self)@, t) == apply_edit(
                    other@,
                    apply_edit(old(self)@, t),
                ),
    {
        proof {
            assert forall|t: Seq<u8>|
                valid_utf8(t) && edit_fits(old(self)@, t) && edit_fits(other@, #[trigger] apply_edit(old(self)@, t))
                    && merged_edit(old(self)@, other@) is Some implies edit_fits(
                    merged_edit(old(self)@, other@)->0,
                    t,
                ) && apply_edit(merged_edit(old(self)@, other@)->0, t) == apply_edit(
                    other@,
                    apply_edit(old(self)@, t),
                ) by {
                lemma_merge_apply(old(self)@, other@, t);
            }
        }
        match (self, other) {
            (
                EditCommand::Insert { pos, text },
                EditCommand::Insert { pos: other_pos, text: other_text },
            ) => {
                let len = text.as_str().as_bytes().len();
                if *pos <= *other_pos && *other_pos - *pos == len && !contains_newline(
                    other_text.as_str(),
                ) {
                    text.append(other_text.as_str());
                    true
                } else {
                    false
                }
            },
            (
                EditCommand::Delete { pos, text },
                EditCommand::Delete { pos: other_pos, text: other_text },
            ) => {
                if contains_newline(text.as_str()) || contains_newline(other_text.as_str()) {
                    return false;
                }
                let other_len = other_text.as_str().as_bytes().len();
                if *other_pos <= *pos && *pos - *other_pos == other_len {
                    let mut new_text = owned(other_text.as_str());
                    new_text.append(text.as_str());
                    *text = new_text;
                    *pos = *other_pos;
                    true
                } else if *other_pos == *pos {
                    text.append(other_text.as_str());
                    true
                } else {
                    false
                }
            },
            _ => false,
        }
    }
}

/// The history as a value: the commands, the position in them, and whether the next
/// command may merge into the last one.
pub struct UndoView {
    pub commands: Seq<EditView>,
    pub index: int,
    pub merge_enabled: bool,
}

/// The most commands the history keeps.
pub open spec fn undo_limit() -> int {
    100
}

/// The history after pushing `c`: the redo part is dropped; then `c` merges into the last
/// command if merging is on and they merge; else it is appended, the oldest commands are
/// dropped beyond the limit, and the position moves to the end.
pub open spec fn push_step(v: UndoView, c: EditView) -> UndoView {
    let base = v.commands.take(v.index);
    if v.merge_enabled && base.len() > 0 && merged_edit(base.last(), c) is Some {
        UndoView { commands: base.drop_last().push(merged_edit(base.last(), c)->0), index: v.index, ..v }
    } else {
        let pushed = base.push(c);
        if pushed.len() > undo_limit() {
            UndoView {
                commands: pushed.skip(pushed.len() - undo_limit()),
                index: undo_limit(),
                ..v
            }
        } else {
            UndoView { commands: pushed, index: pushed.len() as int, ..v }
        }
    }
}

/// The history after an undo: the position steps back and merging stops.
pub open spec fn undo_step(v: UndoView) -> UndoView {
    if v.index > 0 {
        UndoView { index: v.index - 1, merge_enabled: false, ..v }
    } else {
        v
    }
}

/// The history after a redo: the position steps forward and merging stops.
pub open spec fn redo_step(v: UndoView) -> UndoView {
    if v.index < v.commands.len() {
        UndoView { index: v.index + 1, merge_enabled: false, ..v }
    } else {
        v
    }
}

/// Manages undo/redo history for text editing.
#[derive(Debug)]
pub struct UndoStack {
    commands: Vec<EditCommand>,
    index: usize,
    max_size: usize,
    merge_enabled: bool,
}

impl View for UndoStack {
    type V = UndoView;

    closed spec fn view(&self) -> UndoView {
        UndoView {
            commands: self.commands@.map_values(|c: EditCommand| c@),
            index: self.index as int,
            merge_enabled: self.merge_enabled,
        }
    }
}

impl UndoStack {
    #[verifier::type_invariant]
    spec fn inv(self) -> bool {
        &&& self.max_size == undo_limit()
        &&& self.index <= self.commands@.len() <= self.max_size
    }

    /// Create an empty history with merging enabled.
    pub fn new() -> (r: Self)
        ensures
            r@ == (UndoView { commands: Seq::empty(), index: 0, merge_enabled: true }),
    {
        let r = UndoStack { commands: Vec::new(), index: 0, max_size: 100, merge_enabled: true };
        assert(r@.commands =~= Seq::<EditView>::empty());
        r
    }

    /// Record a command.
    pub fn push(&mut self, command: EditCommand)
        ensures
            final(self)@ == push_step(old(self)@, command@),
            0 <= final(self)@.index <= final(self)@.commands.len() <= undo_limit(),
    {
        proof {
            use_type_invariant(&*self);
        }
        let ghost base = self@.commands.take(self.index as int);
        let index = self.index;
        let merge_enabled = self.merge_enabled;
        self.index = 0;
        let mut cmds: Vec<EditCommand> = Vec::new();
        std::mem::swap(&mut cmds, &mut self.commands);
        cmds.truncate(index);
        assert(cmds@.map_values(|c: EditCommand| c@) =~= base);
        if merge_enabled && cmds.len() > 0 {
            let mut last = cmds.pop().unwrap();
            let ghost rest = cmds@;
            assert(base =~= rest.map_values(|c: EditCommand| c@).push(last@));
            if last.try_merge(&command) {
                cmds.push(last);
                assert(cmds@.map_values(|c: EditCommand| c@) =~= base.drop_last().push(
                    merged_edit(base.last(), command@)->0,
                ));
                *self = UndoStack { commands: cmds, index, max_size: 100, merge_enabled };
                return;
            }
            cmds.push(last);
            assert(cmds@.map_values(|c: EditCommand| c@) =~= base);
        }
        cmds.push(command);
        let ghost pushed = base.push(command@);
        assert(cmds@.map_values(|c: EditCommand| c@) =~= pushed);
        if cmds.len() > 100 {
            let excess = cmds.len() - 100;
            let kept = cmds.split_off(excess);
            cmds = kept;
            assert(cmds@.map_values(|c: EditCommand| c@) =~= pushed.skip(
                pushed.len() - undo_limit(),
            ));
        }
        let n = cmds.len();
        *self = UndoStack { commands: cmds, index: n, max_size: 100, merge_enabled };
    }

    /// Whether there is a command to undo.
    pub fn can_undo(&self) -> (r: bool)
        ensures
            r == (self@.index > 0),
    {
        self.index > 0
    }

    /// Whether there is a command to redo.
    pub fn can_redo(&self) -> (r: bool)
        ensures
            r == (self@.index < self@.commands.len()),
    {
        self.index < self.commands.len()
    }

    /// Step back over the last command and return it, if any.
    pub fn undo(&mut self) -> (r: Option<&EditCommand>)
        ensures
            final(self)@ == undo_step(old(self)@),
            0 <= final(self)@.index <= final(self)@.commands.len() <= undo_limit(),
            match r {
                Some(c) => old(self)@.index > 0 && c@ == old(self)@.commands[old(self)@.index - 1],
                None => old(self)@.index == 0,
            },
    {
        proof {
            use_type_invariant(&*self);
        }
        if self.index > 0 {
            self.index = self.index - 1;
            self.merge_enabled = false;
            Some(&self.commands[self.index])
        } else {
            None
        }
    }

    /// Step forward over the next command and return it, if any.
    pub fn redo(&mut self) -> (r: Option<&EditCommand>)
        ensures
            final(self)@ == redo_step(old(self)@),
            0 <= final(self)@.index <= final(self)@.commands.len() <= undo_limit(),
            match r {
                Some(c) => old(self)@.index < old(self)@.commands.len() && c@ == old(
                    self,
                )@.commands[old(self)@.index],
                None => old(self)@.index >= old(self)@.commands.len(),
            },
    {
        proof {
            use_type_invariant(&*self);
        }
        if self.index < self.commands.len() {
            let i = self.index;
            self.index = self.index + 1;
            self.merge_enabled = false;
            Some(&self.commands[i])
        } else {
            None
        }
    }

    /// Forget all commands and enable merging.
    pub fn clear(&mut self)
        ensures
            final(self)@ == (UndoView { commands: Seq::empty(), index: 0, merge_enabled: true }),
    {
        *self = UndoStack::new();
    }

    /// Keep the next command from merging into the last one.
    pub fn break_merge(&mut self)
        ensures
            final(self)@ == (UndoView { merge_enabled: false, ..old(self)@ }),
    {
        proof {
            use_type_invariant(&*self);
        }
        self.merge_enabled = false;
    }

    /// Let the next command merge into the last one again.
    pub fn enable_merge(&mut self)
        ensures
            final(self)@ == (UndoView { merge_enabled: true, ..old(self)@ }),
    {
        proof {
            use_type_invariant(&*self);
        }
        self.merge_enabled = true;
    }
}

impl Default for UndoStack {
    fn default() -> (r: Self)
        ensures
            r@ == (UndoView { commands: Seq::empty(), index: 0, merge_enabled: true }),
    {
        UndoStack::new()
    }
}

/// Undoing and then redoing restores the history (merging stays off).
pub proof fn law_undo_then_redo(v: UndoView)
    requires
        0 < v.index <= v.commands.len(),
    ensures
        redo_step(undo_step(v)) == (UndoView { merge_enabled: false, ..v }),
{
}

/// Redoing and then undoing restores the history (merging stays off).
pub proof fn law_redo_then_undo(v: UndoView)
    requires
        0 <= v.index < v.commands.len(),
    ensures
        undo_step(redo_step(v)) == (UndoView { merge_enabled: false, ..v }),
{
}

/// After a push there is nothing to redo, and there is something to undo.
pub proof fn law_push_clears_redo(v: UndoView, c: EditView)
    requires
        0 <= v.index <= v.commands.len() <= undo_limit(),
    ensures
        push_step(v, c).index == push_step(v, c).commands.len(),
        push_step(v, c).index > 0,
        push_step(v, c).commands.len() <= undo_limit(),
{
}

/// A pushed command that does not merge is what the next undo gives back.
pub proof fn law_push_then_undo(v: UndoView, c: EditView)
    requires
        0 <= v.index <= v.commands.len() <= undo_limit(),
        !(v.merge_enabled && v.index > 0 && merged_edit(v.commands[v.index - 1], c) is Some),
    ensures
        push_step(v, c).commands[push_step(v, c).index - 1] == c,
        undo_step(push_step(v, c)).index == push_step(v, c).index - 1,
{
}

} // verus!
