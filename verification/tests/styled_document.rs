use horizon_lattice::char_format::{BlockFormat, CharFormat, FontFamily, FontWeight, HorizontalAlign};
use horizon_lattice::styled_document::StyledDocument;

#[test]
fn test_empty_document() {
    let doc = StyledDocument::new();
    assert!(doc.is_empty());
    assert_eq!(doc.text(), "");
    assert!(doc.format_runs().is_empty());
}

#[test]
fn test_from_text() {
    let doc = StyledDocument::from_text("Hello, world!");
    assert_eq!(doc.text(), "Hello, world!");
    assert!(!doc.is_empty());
    assert!(doc.format_runs().is_empty());
}

#[test]
fn test_insert_plain() {
    let mut doc = StyledDocument::new();
    doc.insert(0, "Hello", CharFormat::default());
    assert_eq!(doc.text(), "Hello");
    assert!(doc.format_runs().is_empty());
}

#[test]
fn test_insert_styled() {
    let mut doc = StyledDocument::new();
    doc.insert(0, "Hello", CharFormat::bold());
    assert_eq!(doc.text(), "Hello");
    assert_eq!(doc.format_runs().len(), 1);
    assert!(doc.format_runs()[0].format.bold);
}

#[test]
fn test_delete() {
    let mut doc = StyledDocument::from_text("Hello, world!");
    let deleted = doc.delete(5..7);
    assert_eq!(deleted, ", ");
    assert_eq!(doc.text(), "Helloworld!");
}

#[test]
fn test_format_at() {
    let mut doc = StyledDocument::from_text("Hello, world!");
    doc.set_format(0..5, CharFormat::bold());
    assert!(doc.format_at(0).bold);
    assert!(doc.format_at(4).bold);
    assert!(!doc.format_at(5).bold);
    assert!(!doc.format_at(10).bold);
}

#[test]
fn test_toggle_bold() {
    let mut doc = StyledDocument::from_text("Hello, world!");
    doc.toggle_format(0..5, CharFormat::new().with_bold(true));
    assert!(doc.format_at(0).bold);
    doc.toggle_format(0..5, CharFormat::new().with_bold(true));
    assert!(!doc.format_at(0).bold);
}

#[test]
fn styled_document_test_multiple_formats() {
    let mut doc = StyledDocument::from_text("Hello, world!");
    doc.set_format(0..5, CharFormat::bold());
    doc.set_format(7..12, CharFormat::italic());
    assert!(doc.format_at(0).bold);
    assert!(!doc.format_at(0).italic);
    assert!(!doc.format_at(6).bold);
    assert!(doc.format_at(7).italic);
    assert!(!doc.format_at(7).bold);
}

#[test]
fn test_overlapping_formats() {
    let mut doc = StyledDocument::from_text("Hello, world!");
    doc.set_format(0..7, CharFormat::bold());
    doc.set_format(4..12, CharFormat::italic());
    assert!(doc.format_at(0).bold);
    assert!(!doc.format_at(0).italic);
    assert!(!doc.format_at(4).bold);
    assert!(doc.format_at(4).italic);
    assert!(!doc.format_at(8).bold);
    assert!(doc.format_at(8).italic);
}

#[test]
fn test_insert_shifts_runs() {
    let mut doc = StyledDocument::from_text("Hello world");
    doc.set_format(6..11, CharFormat::bold());
    doc.insert(0, "Hi ", CharFormat::default());
    assert_eq!(doc.text(), "Hi Hello world");
    assert!(!doc.format_at(6).bold);
    assert!(doc.format_at(9).bold);
}

#[test]
fn test_delete_adjusts_runs() {
    let mut doc = StyledDocument::from_text("Hello, world!");
    doc.set_format(7..12, CharFormat::bold());
    doc.delete(5..7);
    assert_eq!(doc.text(), "Helloworld!");
    assert!(doc.format_at(5).bold);
}

#[test]
fn test_format_for_range_uniform() {
    let mut doc = StyledDocument::from_text("Hello");
    doc.set_format(0..5, CharFormat::bold());
    let format = doc.format_for_range(&(0..5));
    assert!(format.is_some());
    assert!(format.unwrap().bold);
}

#[test]
fn test_format_for_range_mixed() {
    let mut doc = StyledDocument::from_text("Hello, world!");
    doc.set_format(0..5, CharFormat::bold());
    let format = doc.format_for_range(&(0..10));
    assert!(format.is_none());
}

#[test]
fn test_font_family() {
    let mut doc = StyledDocument::from_text("Hello");
    let format = CharFormat::new().with_font_family(Some(FontFamily::Monospace));
    doc.set_format(0..5, format);
    let result = doc.format_at(0);
    assert_eq!(result.font_family, Some(FontFamily::Monospace));
}

#[test]
fn test_font_size() {
    let mut doc = StyledDocument::from_text("Hello");
    let format = CharFormat::new().with_font_size(Some(24.0f32.to_bits()));
    doc.set_format(0..5, format);
    let result = doc.format_at(0);
    assert_eq!(result.font_size.map(f32::from_bits), Some(24.0));
}

#[test]
fn test_font_weight() {
    let mut doc = StyledDocument::from_text("Hello");
    let format = CharFormat::new().with_font_weight(Some(FontWeight::BOLD()));
    doc.set_format(0..5, format);
    let result = doc.format_at(0);
    assert_eq!(result.font_weight, Some(FontWeight::BOLD()));
}

#[test]
fn test_combined_font_properties() {
    let arial = FontFamily::Named(1);
    let mut doc = StyledDocument::from_text("Test text");
    let format = CharFormat::new()
        .with_font_family(Some(arial))
        .with_font_size(Some(18.0f32.to_bits()))
        .with_font_weight(Some(FontWeight::MEDIUM()));
    doc.set_format(0..4, format);
    let result = doc.format_at(0);
    assert_eq!(result.font_family, Some(arial));
    assert_eq!(result.font_size.map(f32::from_bits), Some(18.0));
    assert_eq!(result.font_weight, Some(FontWeight::MEDIUM()));
    let default = doc.format_at(5);
    assert!(default.font_family.is_none());
    assert!(default.font_size.is_none());
    assert!(default.font_weight.is_none());
}

#[test]
fn test_is_styled_with_font_properties() {
    let f1 = CharFormat::new().with_font_family(Some(FontFamily::Serif));
    assert!(f1.is_styled());
    let f2 = CharFormat::new().with_font_size(Some(12.0f32.to_bits()));
    assert!(f2.is_styled());
    let f3 = CharFormat::new().with_font_weight(Some(FontWeight::LIGHT()));
    assert!(f3.is_styled());
    let f4 = CharFormat::new();
    assert!(!f4.is_styled());
}

#[test]
fn test_paragraph_count() {
    let doc = StyledDocument::new();
    assert_eq!(doc.paragraph_count(), 1);
    let doc = StyledDocument::from_text("Hello");
    assert_eq!(doc.paragraph_count(), 1);
    let doc = StyledDocument::from_text("Hello\nWorld");
    assert_eq!(doc.paragraph_count(), 2);
    let doc = StyledDocument::from_text("Line 1\nLine 2\nLine 3");
    assert_eq!(doc.paragraph_count(), 3);
}

#[test]
fn test_paragraph_range() {
    let doc = StyledDocument::from_text("Hello\nWorld\nTest");
    assert_eq!(doc.paragraph_range(0), Some(0..6));
    assert_eq!(doc.paragraph_range(1), Some(6..12));
    assert_eq!(doc.paragraph_range(2), Some(12..16));
    assert_eq!(doc.paragraph_range(3), None);
}

#[test]
fn test_paragraph_at() {
    let doc = StyledDocument::from_text("Hello\nWorld\nTest");
    assert_eq!(doc.paragraph_at(0), 0);
    assert_eq!(doc.paragraph_at(5), 0);
    assert_eq!(doc.paragraph_at(6), 1);
    assert_eq!(doc.paragraph_at(11), 1);
    assert_eq!(doc.paragraph_at(12), 2);
    assert_eq!(doc.paragraph_at(15), 2);
}

#[test]
fn test_block_format_default() {
    let doc = StyledDocument::from_text("Hello\nWorld");
    assert_eq!(doc.block_format_at(0).alignment, HorizontalAlign::Left);
    assert_eq!(doc.block_format_at(1).alignment, HorizontalAlign::Left);
}

#[test]
fn test_set_alignment() {
    let mut doc = StyledDocument::from_text("Hello\nWorld\nTest");
    doc.set_alignment(1..2, HorizontalAlign::Center);
    assert_eq!(doc.block_format_at(0).alignment, HorizontalAlign::Left);
    assert_eq!(doc.block_format_at(1).alignment, HorizontalAlign::Center);
    assert_eq!(doc.block_format_at(2).alignment, HorizontalAlign::Left);
}

#[test]
fn test_set_alignment_range() {
    let mut doc = StyledDocument::from_text("Line 1\nLine 2\nLine 3\nLine 4");
    doc.set_alignment(1..3, HorizontalAlign::Right);
    assert_eq!(doc.block_format_at(0).alignment, HorizontalAlign::Left);
    assert_eq!(doc.block_format_at(1).alignment, HorizontalAlign::Right);
    assert_eq!(doc.block_format_at(2).alignment, HorizontalAlign::Right);
    assert_eq!(doc.block_format_at(3).alignment, HorizontalAlign::Left);
}

#[test]
fn test_block_format_for_range() {
    let mut doc = StyledDocument::from_text("Line 1\nLine 2\nLine 3");
    doc.set_alignment(0..3, HorizontalAlign::Center);
    let format = doc.block_format_for_range(&(0..3));
    assert!(format.is_some());
    assert_eq!(format.unwrap().alignment, HorizontalAlign::Center);
    doc.set_alignment(1..2, HorizontalAlign::Right);
    let format = doc.block_format_for_range(&(0..3));
    assert!(format.is_none());
}

#[test]
fn test_block_format_factories() {
    assert_eq!(BlockFormat::left().alignment, HorizontalAlign::Left);
    assert_eq!(BlockFormat::center().alignment, HorizontalAlign::Center);
    assert_eq!(BlockFormat::right().alignment, HorizontalAlign::Right);
    assert_eq!(BlockFormat::justified().alignment, HorizontalAlign::Justified);
}

#[test]
fn test_block_format_is_styled() {
    assert!(!BlockFormat::new().is_styled());
    assert!(!BlockFormat::left().is_styled());
    assert!(BlockFormat::center().is_styled());
    assert!(BlockFormat::right().is_styled());
    assert!(BlockFormat::justified().is_styled());
}

#[test]
fn set_format_merges_touching_runs() {
    let mut doc = StyledDocument::from_text("abcdefgh");
    doc.set_format(0..3, CharFormat::bold());
    doc.set_format(3..6, CharFormat::bold());
    assert_eq!(doc.format_runs().len(), 1);
    assert_eq!(doc.format_runs()[0].range, 0..6);
    // Setting the plain format removes the styling.
    doc.set_format(0..6, CharFormat::new());
    assert!(doc.format_runs().is_empty());
}

#[test]
fn multibyte_text_positions() {
    let mut doc = StyledDocument::from_text("héllo");
    assert_eq!(doc.len(), 6);
    doc.insert(3, "X", CharFormat::italic());
    assert_eq!(doc.text(), "héXllo");
    assert!(doc.format_at(3).italic);
    let deleted = doc.delete(1..3);
    assert_eq!(deleted, "é");
    assert_eq!(doc.text(), "hXllo");
    assert!(doc.format_at(1).italic);
}

#[test]
fn test_to_styled_spans() {
    let mut doc = StyledDocument::from_text("Hello, world!");
    doc.set_format(0..5, CharFormat::bold());

    let spans = doc.to_styled_spans();

    assert_eq!(spans.len(), 2);
    assert_eq!(spans[0].0, "Hello");
    assert!(spans[0].1.bold);
    assert_eq!(spans[1].0, ", world!");
    assert!(!spans[1].1.bold);
}

#[test]
fn styled_spans_of_empty_document_and_middle_run() {
    let doc = StyledDocument::new();
    assert!(doc.to_styled_spans().is_empty());

    let mut doc = StyledDocument::from_text("abcdef");
    doc.set_format(2..4, CharFormat::italic());
    let spans = doc.to_styled_spans();
    assert_eq!(spans.len(), 3);
    assert_eq!(spans[0].0, "ab");
    assert!(!spans[0].1.italic);
    assert_eq!(spans[1].0, "cd");
    assert!(spans[1].1.italic);
    assert_eq!(spans[2].0, "ef");
}

#[test]
fn styled_spans_cut_run_past_end() {
    let mut doc = StyledDocument::from_text("héllo");
    doc.set_format(1..20, CharFormat::bold());
    let spans = doc.to_styled_spans();
    assert_eq!(spans.len(), 2);
    assert_eq!(spans[0].0, "h");
    assert_eq!(spans[1].0, "éllo");
    assert!(spans[1].1.bold);
}

#[test]
fn paragraphs_split_text_and_formats() {
    let mut doc = StyledDocument::from_text("Hello\nWorld\n");
    doc.set_format(3..8, CharFormat::bold());
    doc.set_alignment(1..2, HorizontalAlign::Center);
    let paras = doc.to_paragraphs();
    assert_eq!(paras.len(), 3);
    assert_eq!(paras[0].0, "Hello");
    assert_eq!(paras[0].1.len(), 1);
    assert_eq!(paras[0].1[0].0, 3..5);
    assert!(paras[0].1[0].1.bold);
    assert_eq!(paras[0].2.alignment, HorizontalAlign::Left);
    assert_eq!(paras[1].0, "World");
    assert_eq!(paras[1].1[0].0, 0..2);
    assert_eq!(paras[1].2.alignment, HorizontalAlign::Center);
    assert_eq!(paras[2].0, "");
    assert!(paras[2].1.is_empty());
}

#[test]
fn delete_undoes_insert() {
    let mut doc = StyledDocument::from_text("Hello world");
    doc.set_format(0..5, CharFormat::new().with_bold(true));
    doc.set_format(6..11, CharFormat::new().with_underline(true));
    let before: Vec<CharFormat> = (0..12).map(|p| doc.format_at(p)).collect();
    doc.insert(5, ", big", CharFormat::new().with_italic(true));
    assert_eq!(doc.text(), "Hello, big world");
    let deleted = doc.delete(5..10);
    assert_eq!(deleted, ", big");
    assert_eq!(doc.text(), "Hello world");
    let after: Vec<CharFormat> = (0..12).map(|p| doc.format_at(p)).collect();
    assert_eq!(after, before);
}

#[test]
fn inserted_text_carries_its_own_format() {
    let mut doc = StyledDocument::from_text("Hello");
    doc.set_format(0..5, CharFormat::bold());
    doc.insert(2, "XY", CharFormat::default());
    assert_eq!(doc.text(), "HeXYllo");
    assert!(doc.format_at(0).bold);
    assert!(!doc.format_at(2).bold);
    assert!(!doc.format_at(3).bold);
    assert!(doc.format_at(4).bold);
}

#[test]
fn styled_insert_into_empty_document_makes_one_run() {
    let mut doc = StyledDocument::new();
    doc.insert(0, "Hello", CharFormat::bold());
    assert_eq!(doc.text(), "Hello");
    assert_eq!(doc.format_runs().len(), 1);
    assert!(doc.format_runs()[0].format.bold);
}

#[test]
fn spans_and_paragraphs_join_back_to_the_text() {
    let mut doc = StyledDocument::from_text("One bold\ntwo\n\nfour");
    doc.set_format(4..8, CharFormat::bold());
    doc.set_format(9..12, CharFormat::new().with_italic(true));
    let spans = doc.to_styled_spans();
    let joined: String = spans.iter().map(|(t, _)| t.as_str()).collect();
    assert_eq!(joined, doc.text());
    assert!(spans.iter().all(|(t, _)| !t.is_empty()));
    let paras = doc.to_paragraphs();
    assert_eq!(paras.len(), doc.paragraph_count());
    let texts: Vec<&str> = paras.iter().map(|p| p.0.as_str()).collect();
    assert_eq!(texts.join("\n"), doc.text());
    assert_eq!(doc.paragraph_count(), 4);
    assert_eq!(doc.paragraph_range(0), Some(0..9));
    assert_eq!(doc.paragraph_range(2), Some(13..14));
    assert_eq!(doc.paragraph_range(3), Some(14..18));
    assert_eq!(doc.paragraph_range(4), None);
    assert_eq!(doc.paragraph_at(5), 0);
    assert_eq!(doc.paragraph_at(13), 2);
    assert_eq!(doc.paragraph_at(18), 3);
}
