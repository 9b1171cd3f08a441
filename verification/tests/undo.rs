use horizon_lattice::undo::{EditCommand, UndoStack};

fn ins(pos: usize, text: &str) -> EditCommand {
    EditCommand::Insert { pos, text: text.to_string() }
}

fn del(pos: usize, text: &str) -> EditCommand {
    EditCommand::Delete { pos, text: text.to_string() }
}

#[test]
fn undo_redo_round_trip() {
    let mut stack = UndoStack::new();
    assert!(!stack.can_undo());
    stack.push(ins(0, "Hello"));
    assert!(stack.can_undo());
    assert!(!stack.can_redo());
    assert_eq!(stack.undo(), Some(&ins(0, "Hello")));
    assert!(!stack.can_undo());
    assert!(stack.can_redo());
    assert_eq!(stack.redo(), Some(&ins(0, "Hello")));
    assert_eq!(stack.redo(), None);
}

#[test]
fn typing_merges_until_newline_or_break() {
    let mut stack = UndoStack::new();
    stack.push(ins(0, "a"));
    stack.push(ins(1, "b"));
    assert_eq!(stack.undo(), Some(&ins(0, "ab")));
    assert_eq!(stack.undo(), None);
    stack.redo();
    stack.push(ins(2, "\n"));
    assert_eq!(stack.undo(), Some(&ins(2, "\n")));
    stack.redo();
    stack.break_merge();
    stack.push(ins(3, "c"));
    stack.enable_merge();
    stack.push(ins(4, "d"));
    assert_eq!(stack.undo(), Some(&ins(3, "cd")));
}

#[test]
fn deletions_merge_backspace_and_forward() {
    let mut a = del(5, "c");
    assert!(a.try_merge(&del(4, "b")));
    assert_eq!(a, del(4, "bc"));
    let mut f = del(2, "x");
    assert!(f.try_merge(&del(2, "y")));
    assert_eq!(f, del(2, "xy"));
    let mut g = del(2, "x");
    assert!(!g.try_merge(&ins(2, "y")));
    assert_eq!(g, del(2, "x"));
}

#[test]
fn push_after_undo_drops_redo() {
    let mut stack = UndoStack::new();
    stack.push(ins(0, "a"));
    stack.break_merge();
    stack.push(ins(1, "b"));
    stack.undo();
    assert!(stack.can_redo());
    stack.push(del(0, "a"));
    assert!(!stack.can_redo());
    stack.clear();
    assert!(!stack.can_undo());
}

#[test]
fn history_is_bounded() {
    let mut stack = UndoStack::new();
    stack.break_merge();
    for i in 0..150usize {
        stack.push(ins(i * 10, "x"));
    }
    let mut n = 0;
    while stack.undo().is_some() {
        n += 1;
    }
    assert_eq!(n, 100);
}

fn apply(text: &str, c: &EditCommand) -> String {
    let mut s = text.to_string();
    match c {
        EditCommand::Insert { pos, text } => s.insert_str(*pos, text),
        EditCommand::Delete { pos, text } => s.replace_range(*pos..*pos + text.len(), ""),
    }
    s
}

#[test]
fn merged_edit_does_what_both_do() {
    let cases = [
        ("Hello", ins(5, " w"), ins(7, "orld")),
        ("Hello world", del(10, "d"), del(9, "l")),
        ("Hello world", del(5, " "), del(5, "w")),
    ];
    for (text, a, b) in cases.iter() {
        let mut merged = a.clone();
        assert!(merged.try_merge(b));
        assert_eq!(apply(text, &merged), apply(&apply(text, a), b));
    }
    let mut a = ins(0, "x");
    assert!(!a.try_merge(&del(0, "x")));
    assert!(!a.try_merge(&ins(1, "\n")));
    assert_eq!(a, ins(0, "x"));
}
