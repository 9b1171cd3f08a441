use horizon_lattice::time_edit::{
    EditSection, TimeEdit, TimeEditEvent, TimeEditPart, TimeFormat, TimeKey, TimeOfDay,
};

fn hms(h: u32, m: u32, s: u32) -> TimeOfDay {
    TimeOfDay::from_hms_opt(h, m, s).unwrap()
}

#[test]
fn test_time_format_properties() {
    assert!(!TimeFormat::Hour24.shows_seconds());
    assert!(TimeFormat::Hour24Seconds.shows_seconds());
    assert!(!TimeFormat::Hour12.shows_seconds());
    assert!(TimeFormat::Hour12Seconds.shows_seconds());

    assert!(!TimeFormat::Hour24.is_12_hour());
    assert!(!TimeFormat::Hour24Seconds.is_12_hour());
    assert!(TimeFormat::Hour12.is_12_hour());
    assert!(TimeFormat::Hour12Seconds.is_12_hour());
}

#[test]
fn test_time_edit_creation() {
    let time_edit = TimeEdit::new();
    assert_eq!(time_edit.time(), hms(0, 0, 0));
    assert_eq!(time_edit.display_format(), TimeFormat::Hour24);
    assert!(!time_edit.is_read_only());
}

#[test]
fn test_time_edit_with_time() {
    let time = hms(14, 30, 45);
    let time_edit = TimeEdit::new().with_time(time);
    assert_eq!(time_edit.time(), time);
}

#[test]
fn test_time_edit_time_range() {
    let min = hms(9, 0, 0);
    let max = hms(17, 0, 0);
    let time = hms(12, 30, 0);
    let time_edit = TimeEdit::new().with_time_range(min, max).with_time(time);
    assert_eq!(time_edit.minimum_time(), min);
    assert_eq!(time_edit.maximum_time(), max);
    assert_eq!(time_edit.time(), time);
}

#[test]
fn test_time_edit_clamping() {
    let min = hms(9, 0, 0);
    let max = hms(17, 0, 0);
    let before = hms(8, 0, 0);
    let after = hms(18, 0, 0);
    let mut time_edit = TimeEdit::new().with_time_range(min, max);
    time_edit.set_time(before);
    assert_eq!(time_edit.time(), min);
    time_edit.set_time(after);
    assert_eq!(time_edit.time(), max);
}

#[test]
fn test_time_edit_format_24_hour() {
    let time = hms(14, 30, 45);
    let edit = TimeEdit::new().with_time(time).with_display_format(TimeFormat::Hour24);
    assert_eq!(edit.format_time(), "14:30");
    let edit_sec = TimeEdit::new()
        .with_time(time)
        .with_display_format(TimeFormat::Hour24Seconds);
    assert_eq!(edit_sec.format_time(), "14:30:45");
}

#[test]
fn test_time_edit_format_12_hour() {
    let time_pm = hms(14, 30, 45);
    let time_am = hms(9, 15, 30);
    let edit_pm = TimeEdit::new().with_time(time_pm).with_display_format(TimeFormat::Hour12);
    assert_eq!(edit_pm.format_time(), "02:30 PM");
    let edit_am = TimeEdit::new().with_time(time_am).with_display_format(TimeFormat::Hour12);
    assert_eq!(edit_am.format_time(), "09:15 AM");
    let edit_sec = TimeEdit::new()
        .with_time(time_pm)
        .with_display_format(TimeFormat::Hour12Seconds);
    assert_eq!(edit_sec.format_time(), "02:30:45 PM");
}

#[test]
fn test_time_edit_midnight_noon() {
    let edit_midnight = TimeEdit::new()
        .with_time(hms(0, 0, 0))
        .with_display_format(TimeFormat::Hour12);
    assert_eq!(edit_midnight.format_time(), "12:00 AM");
    let edit_noon = TimeEdit::new()
        .with_time(hms(12, 0, 0))
        .with_display_format(TimeFormat::Hour12);
    assert_eq!(edit_noon.format_time(), "12:00 PM");
}

#[test]
fn test_time_edit_signal() {
    let mut time_edit = TimeEdit::new();
    let new_time = hms(14, 30, 0);
    time_edit.set_time(new_time);
    assert_eq!(time_edit.take_events(), vec![TimeEditEvent::TimeChanged(new_time)]);
}

#[test]
fn test_time_edit_builder_pattern() {
    let min = hms(9, 0, 0);
    let max = hms(17, 0, 0);
    let time = hms(12, 30, 0);
    let time_edit = TimeEdit::new()
        .with_time(time)
        .with_time_range(min, max)
        .with_display_format(TimeFormat::Hour12)
        .with_show_seconds(true)
        .with_read_only(true);
    assert_eq!(time_edit.time(), time);
    assert_eq!(time_edit.display_format(), TimeFormat::Hour12);
    assert!(time_edit.seconds_shown());
    assert!(time_edit.is_read_only());
}

#[test]
fn time_steps_wrap_within_section() {
    let mut edit = TimeEdit::new().with_time(hms(23, 59, 0));
    // A step with no section edited edits the minutes.
    assert!(edit.handle_key(TimeKey::ArrowUp, false, None));
    assert_eq!(edit.current_section(), EditSection::Minute);
    assert_eq!(edit.time(), hms(23, 0, 0));
    assert!(edit.handle_key(TimeKey::ArrowLeft, false, None));
    assert_eq!(edit.current_section(), EditSection::Hour);
    assert!(edit.handle_key(TimeKey::ArrowUp, false, None));
    assert_eq!(edit.time(), hms(0, 0, 0));
    assert!(edit.handle_key(TimeKey::ArrowDown, false, None));
    assert_eq!(edit.time(), hms(23, 0, 0));
}

#[test]
fn time_am_pm_keys() {
    let mut edit = TimeEdit::new()
        .with_time(hms(9, 5, 0))
        .with_display_format(TimeFormat::Hour12);
    // No section: the letter is not consumed.
    assert!(!edit.handle_key(TimeKey::Other, false, Some('p')));
    // Back from nothing lands on AM/PM in 12-hour form.
    assert!(edit.handle_key(TimeKey::Tab, true, None));
    assert_eq!(edit.current_section(), EditSection::AmPm);
    assert!(edit.handle_key(TimeKey::Other, false, Some('P')));
    assert_eq!(edit.time(), hms(21, 5, 0));
    assert!(edit.handle_key(TimeKey::Other, false, Some('p')));
    assert_eq!(edit.time(), hms(21, 5, 0));
    assert!(edit.handle_key(TimeKey::Other, false, Some('a')));
    assert_eq!(edit.time(), hms(9, 5, 0));
    assert!(!edit.handle_key(TimeKey::Other, false, Some('x')));
}

#[test]
fn time_home_end_and_read_only() {
    let min = hms(8, 0, 0);
    let max = hms(18, 30, 0);
    let mut edit = TimeEdit::new().with_time_range(min, max).with_time(hms(12, 0, 0));
    assert!(edit.handle_key(TimeKey::End, false, None));
    assert_eq!(edit.time(), max);
    assert!(edit.handle_key(TimeKey::Home, false, None));
    assert_eq!(edit.time(), min);
    edit.set_read_only(true);
    assert!(!edit.handle_key(TimeKey::ArrowUp, false, None));
    assert!(edit.handle_press(TimeEditPart::UpButton));
    assert_eq!(edit.time(), min);
    assert!(edit.handle_key(TimeKey::Enter, false, None));
    let events = edit.take_events();
    assert_eq!(events.last(), Some(&TimeEditEvent::EditingFinished));
}

#[test]
fn time_range_setters_move_time() {
    let mut edit = TimeEdit::new().with_time(hms(7, 0, 0));
    edit.set_minimum_time(hms(8, 0, 0));
    assert_eq!(edit.time(), hms(8, 0, 0));
    edit.set_maximum_time(hms(7, 30, 0));
    // With an empty range the time is brought to the minimum first.
    assert_eq!(edit.time(), hms(8, 0, 0));
    assert_eq!(edit.maximum_time(), hms(7, 30, 0));
    assert!(TimeOfDay::from_hms_opt(24, 0, 0).is_none());
    assert!(TimeOfDay::from_hms_nano_opt(23, 59, 59, 1_999_999_999).is_some());
}

#[test]
fn time_sections_cycle() {
    let mut edit = TimeEdit::new().with_display_format(TimeFormat::Hour24Seconds);
    edit.next_section();
    assert_eq!(edit.current_section(), EditSection::Hour);
    edit.next_section();
    edit.next_section();
    assert_eq!(edit.current_section(), EditSection::Second);
    edit.next_section();
    assert_eq!(edit.current_section(), EditSection::Unselected);
    assert!(edit.handle_press(TimeEditPart::MinuteSection));
    assert_eq!(edit.current_section(), EditSection::Minute);
    assert!(edit.handle_release());
    assert!(!edit.handle_release());
    assert!(!edit.handle_focus_out());
    assert_eq!(edit.current_section(), EditSection::Unselected);
}

#[test]
fn clicks_on_the_field_cycle_through_sections() {
    let mut edit = TimeEdit::new().with_display_format(TimeFormat::Hour12);
    let mut seen = Vec::new();
    for _ in 0..5 {
        let part = edit.text_field_part();
        seen.push(part);
        edit.handle_press(part);
        edit.handle_release();
    }
    assert_eq!(
        seen,
        vec![
            TimeEditPart::HourSection,
            TimeEditPart::MinuteSection,
            TimeEditPart::AmPmSection,
            TimeEditPart::HourSection,
            TimeEditPart::MinuteSection
        ]
    );
    let mut edit = TimeEdit::new().with_display_format(TimeFormat::Hour24Seconds);
    edit.handle_press(TimeEditPart::MinuteSection);
    assert_eq!(edit.text_field_part(), TimeEditPart::SecondSection);
    edit.handle_press(TimeEditPart::SecondSection);
    assert_eq!(edit.text_field_part(), TimeEditPart::HourSection);
}
