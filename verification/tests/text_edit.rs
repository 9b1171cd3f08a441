use horizon_lattice::char_format::CharFormat;
use horizon_lattice::text_edit::{TextEdit, TextEditEvent, TextEditKey, TextWrapMode};

fn key(edit: &mut TextEdit, k: TextEditKey, shift: bool, ctrl: bool) -> (bool, Option<String>) {
    edit.handle_key_press(k, shift, ctrl, false, "", 10, None)
}

#[test]
fn test_text_edit_creation() {
    let edit = TextEdit::new();
    assert!(edit.text().is_empty());
    assert_eq!(edit.cursor_position(), 0);
    assert!(!edit.has_selection());
    assert!(!edit.is_read_only());
    assert_eq!(edit.wrap_mode(), TextWrapMode::Word);
}

#[test]
fn test_text_edit_with_text() {
    let edit = TextEdit::with_text("Hello\nWorld");
    assert_eq!(edit.text(), "Hello\nWorld");
    assert_eq!(edit.cursor_position(), 11);
}

#[test]
fn test_text_edit_builder_pattern() {
    let edit = TextEdit::new()
        .with_placeholder("Enter text...")
        .with_wrap_mode(TextWrapMode::NoWrap)
        .with_read_only(true)
        .with_tab_width(2);
    assert_eq!(edit.placeholder(), "Enter text...");
    assert_eq!(edit.wrap_mode(), TextWrapMode::NoWrap);
    assert!(edit.is_read_only());
    assert_eq!(edit.tab_width(), 2);
}

#[test]
fn test_set_text() {
    let mut edit = TextEdit::new();
    edit.set_text("Hello World");
    assert_eq!(edit.text(), "Hello World");
    assert_eq!(edit.cursor_position(), 11);
}

#[test]
fn test_insert_text() {
    let mut edit = TextEdit::new();
    edit.insert_text("Hello");
    assert_eq!(edit.text(), "Hello");
    assert_eq!(edit.cursor_position(), 5);
    edit.insert_text(" World");
    assert_eq!(edit.text(), "Hello World");
}

#[test]
fn test_cursor_line_column() {
    let mut edit = TextEdit::with_text("Hello\nWorld\nTest");
    edit.set_cursor_position(0);
    assert_eq!(edit.cursor_line_column(), (0, 0));
    edit.set_cursor_position(3);
    assert_eq!(edit.cursor_line_column(), (0, 3));
    edit.set_cursor_position(6);
    assert_eq!(edit.cursor_line_column(), (1, 0));
    edit.set_cursor_position(8);
    assert_eq!(edit.cursor_line_column(), (1, 2));
}

#[test]
fn test_selection() {
    let mut edit = TextEdit::with_text("Hello World");
    assert!(!edit.has_selection());
    assert!(edit.selected_text().is_empty());
    edit.set_selection(0, 5);
    assert!(edit.has_selection());
    assert_eq!(edit.selected_text(), "Hello");
    assert_eq!(edit.selection_range(), Some((0, 5)));
    edit.clear_selection();
    assert!(!edit.has_selection());
}

#[test]
fn test_select_all() {
    let mut edit = TextEdit::with_text("Hello World");
    edit.select_all();
    assert!(edit.has_selection());
    assert_eq!(edit.selected_text(), "Hello World");
}

#[test]
fn test_delete_selection() {
    let mut edit = TextEdit::with_text("Hello World");
    edit.set_selection(0, 6);
    edit.delete_selection();
    assert_eq!(edit.text(), "World");
    assert!(!edit.has_selection());
}

#[test]
fn test_undo_redo() {
    let mut edit = TextEdit::new();
    edit.insert_text("Hello");
    assert_eq!(edit.text(), "Hello");
    assert!(edit.can_undo());
    assert!(!edit.can_redo());
    edit.undo();
    assert_eq!(edit.text(), "");
    assert!(!edit.can_undo());
    assert!(edit.can_redo());
    edit.redo();
    assert_eq!(edit.text(), "Hello");
}

#[test]
fn test_read_only_mode() {
    let mut edit = TextEdit::new();
    edit.set_read_only(true);
    edit.insert_text("Hello");
    assert!(edit.text().is_empty());
    edit.set_text("Initial");
    edit.set_cursor_position(0);
    edit.insert_text("X");
    assert_eq!(edit.text(), "Initial");
}

#[test]
fn text_edit_test_clear() {
    let mut edit = TextEdit::with_text("Hello World");
    edit.clear();
    assert!(edit.text().is_empty());
    assert_eq!(edit.cursor_position(), 0);
}

#[test]
fn test_append() {
    let mut edit = TextEdit::with_text("Hello");
    edit.append(" World");
    assert_eq!(edit.text(), "Hello World");
}

#[test]
fn test_text_changed_signal() {
    let mut edit = TextEdit::new();
    edit.insert_text("Hello");
    assert!(edit.take_events().contains(&TextEditEvent::TextChanged));
}

#[test]
fn test_cursor_position_changed_signal() {
    let mut edit = TextEdit::with_text("Hello\nWorld");
    edit.set_cursor_position(6);
    let events = edit.take_events();
    assert_eq!(events.last(), Some(&TextEditEvent::CursorPositionChanged(1, 0)));
}

#[test]
fn test_line_operations() {
    let edit = TextEdit::with_text("Line1\nLine2\nLine3");
    assert_eq!(edit.line_count(), 3);
    assert_eq!(edit.line_start(0), 0);
    assert_eq!(edit.line_start(1), 6);
    assert_eq!(edit.line_start(2), 12);
    assert_eq!(edit.line_end(0), 5);
    assert_eq!(edit.line_end(1), 11);
    assert_eq!(edit.line_end(2), 17);
}

#[test]
fn test_multiline_insert() {
    let mut edit = TextEdit::new();
    edit.insert_text("Hello\nWorld");
    assert_eq!(edit.text(), "Hello\nWorld");
    assert_eq!(edit.line_count(), 2);
}

#[test]
fn test_wrap_mode() {
    let mut edit = TextEdit::new();
    assert_eq!(edit.wrap_mode(), TextWrapMode::Word);
    edit.set_wrap_mode(TextWrapMode::NoWrap);
    assert_eq!(edit.wrap_mode(), TextWrapMode::NoWrap);
    edit.set_wrap_mode(TextWrapMode::Character);
    assert_eq!(edit.wrap_mode(), TextWrapMode::Character);
}

#[test]
fn test_searchable_set_matches() {
    let mut edit = TextEdit::new();
    edit.set_text("hello world hello");
    let matches = vec![(0, 5), (12, 17)];
    edit.set_search_matches(matches.clone());
    assert_eq!(edit.search_matches().len(), 2);
    edit.set_current_match_index(Some(1));
    assert_eq!(edit.current_search_match(), Some(1));
    edit.clear_search_highlights();
    assert!(edit.search_matches().is_empty());
    assert_eq!(edit.current_search_match(), None);
}

#[test]
fn test_toggle_bold_no_selection() {
    let mut edit = TextEdit::new();
    edit.set_text("Hello World");
    assert!(!edit.is_bold());
    edit.toggle_bold();
    assert!(edit.cursor_format().bold);
    edit.toggle_bold();
    assert!(!edit.cursor_format().bold);
}

#[test]
fn test_toggle_bold_with_selection() {
    let mut edit = TextEdit::new();
    edit.set_text("Hello World");
    edit.set_selection(0, 5);
    assert!(edit.has_selection());
    edit.toggle_bold();
    assert!(edit.has_formatting());
    assert!(edit.document().format_at(0).bold);
    assert!(edit.document().format_at(4).bold);
    assert!(!edit.document().format_at(5).bold);
    edit.set_selection(0, 5);
    edit.toggle_bold();
    assert!(!edit.document().format_at(0).bold);
}

#[test]
fn test_toggle_italic() {
    let mut edit = TextEdit::new();
    edit.set_text("Hello World");
    edit.set_selection(6, 11);
    edit.toggle_italic();
    assert!(edit.document().format_at(6).italic);
    assert!(edit.document().format_at(10).italic);
    assert!(!edit.document().format_at(0).italic);
}

#[test]
fn test_toggle_underline() {
    let mut edit = TextEdit::new();
    edit.set_text("Hello World");
    edit.set_selection(0, 5);
    edit.toggle_underline();
    assert!(edit.document().format_at(0).underline);
    assert!(!edit.document().format_at(6).underline);
}

#[test]
fn test_toggle_strikethrough() {
    let mut edit = TextEdit::new();
    edit.set_text("Hello World");
    edit.set_selection(0, 5);
    edit.toggle_strikethrough();
    assert!(edit.document().format_at(0).strikethrough);
    assert!(!edit.document().format_at(6).strikethrough);
}

#[test]
fn text_edit_test_multiple_formats() {
    let mut edit = TextEdit::new();
    edit.set_text("Hello World");
    edit.set_selection(0, 5);
    edit.toggle_bold();
    edit.set_selection(0, 5);
    edit.toggle_italic();
    let format = edit.document().format_at(0);
    assert!(format.bold);
    assert!(format.italic);
    assert!(!format.underline);
}

#[test]
fn test_insert_with_cursor_format() {
    let mut edit = TextEdit::new();
    let f = edit.cursor_format().with_bold(true);
    edit.set_cursor_format(f);
    edit.insert_text("Bold");
    assert!(edit.document().format_at(0).bold);
    assert!(edit.document().format_at(3).bold);
}

#[test]
fn test_format_state_queries() {
    let mut edit = TextEdit::new();
    edit.set_text("Hello World");
    assert!(!edit.is_bold());
    assert!(!edit.is_italic());
    assert!(!edit.is_underline());
    assert!(!edit.is_strikethrough());
    edit.set_selection(0, 5);
    edit.toggle_bold();
    edit.set_selection(0, 5);
    assert!(edit.is_bold());
}

#[test]
fn test_current_format_returns_cursor_format() {
    let mut edit = TextEdit::new();
    edit.set_text("Hello World");
    edit.set_cursor_format(CharFormat::new().with_bold(true).with_italic(true));
    let format = edit.current_format();
    assert!(format.bold);
    assert!(format.italic);
}

#[test]
fn test_delete_preserves_formatting() {
    let mut edit = TextEdit::new();
    edit.set_text("Hello World");
    edit.set_selection(6, 11);
    edit.toggle_bold();
    edit.set_selection(0, 6);
    edit.delete_selection();
    assert_eq!(edit.text(), "World");
    assert!(edit.document().format_at(0).bold);
}

#[test]
fn test_set_text_clears_formatting() {
    let mut edit = TextEdit::new();
    edit.set_text("Hello World");
    edit.set_selection(0, 5);
    edit.toggle_bold();
    assert!(edit.has_formatting());
    edit.set_text("New Text");
    assert!(!edit.has_formatting());
}

#[test]
fn typing_merges_and_undo_restores() {
    let mut edit = TextEdit::new();
    edit.handle_key_press(TextEditKey::Other, false, false, false, "a", 10, None);
    edit.handle_key_press(TextEditKey::Other, false, false, false, "b", 10, None);
    assert_eq!(edit.text(), "ab");
    edit.undo();
    assert_eq!(edit.text(), "");
    edit.redo();
    assert_eq!(edit.text(), "ab");
    assert_eq!(edit.cursor_position(), 2);
}

#[test]
fn enter_breaks_merging() {
    let mut edit = TextEdit::new();
    edit.handle_key_press(TextEditKey::Other, false, false, false, "a", 10, None);
    edit.handle_key_press(TextEditKey::Enter, false, false, false, "", 10, None);
    edit.handle_key_press(TextEditKey::Other, false, false, false, "b", 10, None);
    assert_eq!(edit.text(), "a\nb");
    edit.undo();
    assert_eq!(edit.text(), "a\n");
    edit.undo();
    assert_eq!(edit.text(), "a");
}

#[test]
fn backspace_and_delete_keys() {
    let mut edit = TextEdit::with_text("héllo wörld");
    key(&mut edit, TextEditKey::Backspace, false, false);
    assert_eq!(edit.text(), "héllo wörl");
    key(&mut edit, TextEditKey::Backspace, false, true);
    assert_eq!(edit.text(), "héllo ");
    key(&mut edit, TextEditKey::Home, false, false);
    key(&mut edit, TextEditKey::Delete, false, false);
    assert_eq!(edit.text(), "éllo ");
    key(&mut edit, TextEditKey::Delete, false, true);
    assert_eq!(edit.text(), " ");
    // The two forward deletions at the start merged into one edit.
    edit.undo();
    assert_eq!(edit.text(), "héllo ");
}

#[test]
fn arrow_keys_move_by_character_and_word() {
    let mut edit = TextEdit::with_text("ab cd");
    key(&mut edit, TextEditKey::ArrowLeft, false, false);
    assert_eq!(edit.cursor_position(), 4);
    key(&mut edit, TextEditKey::ArrowLeft, false, true);
    assert_eq!(edit.cursor_position(), 3);
    key(&mut edit, TextEditKey::ArrowLeft, false, true);
    assert_eq!(edit.cursor_position(), 0);
    key(&mut edit, TextEditKey::ArrowRight, false, true);
    assert_eq!(edit.cursor_position(), 2);
    key(&mut edit, TextEditKey::ArrowRight, true, false);
    assert_eq!(edit.selection_range(), Some((2, 3)));
    key(&mut edit, TextEditKey::ArrowLeft, false, false);
    assert_eq!(edit.cursor_position(), 2);
    assert!(!edit.has_selection());
}

#[test]
fn up_down_keep_column() {
    let mut edit = TextEdit::with_text("abcdef\nxy\nlonger line");
    edit.set_cursor_position(5);
    key(&mut edit, TextEditKey::ArrowDown, false, false);
    assert_eq!(edit.cursor_position(), 9);
    key(&mut edit, TextEditKey::ArrowDown, false, false);
    assert_eq!(edit.cursor_line_column(), (2, 2));
    key(&mut edit, TextEditKey::ArrowDown, false, false);
    assert_eq!(edit.cursor_position(), edit.text().len());
    key(&mut edit, TextEditKey::ArrowUp, false, false);
    key(&mut edit, TextEditKey::ArrowUp, false, false);
    key(&mut edit, TextEditKey::ArrowUp, false, false);
    assert_eq!(edit.cursor_position(), 0);
    key(&mut edit, TextEditKey::End, false, false);
    assert_eq!(edit.cursor_position(), 6);
    key(&mut edit, TextEditKey::End, false, true);
    assert_eq!(edit.cursor_position(), edit.text().len());
}

#[test]
fn clipboard_keys() {
    let mut edit = TextEdit::with_text("copy me");
    key(&mut edit, TextEditKey::A, false, true);
    let (_, copied) = key(&mut edit, TextEditKey::C, false, true);
    assert_eq!(copied, Some("copy me".to_string()));
    let (_, cut) = key(&mut edit, TextEditKey::X, false, true);
    assert_eq!(cut, Some("copy me".to_string()));
    assert_eq!(edit.text(), "");
    edit.handle_key_press(TextEditKey::V, false, true, false, "", 10, Some("pasted"));
    assert_eq!(edit.text(), "pasted");
}

#[test]
fn tab_inserts_spaces_and_find_keys_notify() {
    let mut edit = TextEdit::new().with_tab_width(3);
    key(&mut edit, TextEditKey::Tab, false, false);
    assert_eq!(edit.text(), "   ");
    edit.take_events();
    key(&mut edit, TextEditKey::F, false, true);
    key(&mut edit, TextEditKey::F3, true, false);
    assert_eq!(
        edit.take_events(),
        vec![TextEditEvent::FindRequested, TextEditEvent::FindPreviousRequested]
    );
    let (handled, _) = edit.handle_key_press(TextEditKey::Other, false, true, false, "q", 10, None);
    assert!(!handled);
}

#[test]
fn mouse_drag_selects() {
    let mut edit = TextEdit::with_text("one\ntwo");
    assert!(edit.handle_mouse_press(true, false, 0, 1));
    assert!(edit.handle_mouse_move(1, 2));
    edit.handle_mouse_release(true);
    assert_eq!(edit.selection_range(), Some((1, 6)));
    assert!(edit.handle_mouse_press(true, false, 5, 99));
    edit.handle_mouse_release(true);
    assert_eq!(edit.cursor_position(), 7);
    assert!(!edit.has_selection());
}

#[test]
fn replace_range_records_edits() {
    let mut edit = TextEdit::with_text("hello world hello");
    edit.replace_range(0, 5, "hi");
    assert_eq!(edit.text(), "hi world hello");
    assert_eq!(edit.cursor_position(), 2);
    edit.undo();
    assert_eq!(edit.text(), " world hello");
    edit.undo();
    assert_eq!(edit.text(), "hello world hello");
}

#[test]
fn set_bold_over_selection() {
    let mut edit = TextEdit::with_text("abcdef");
    edit.set_selection(1, 4);
    edit.set_bold(true);
    assert!(edit.document().format_at(2).bold);
    assert!(!edit.document().format_at(4).bold);
    edit.set_bold(false);
    assert!(!edit.has_formatting());
}
