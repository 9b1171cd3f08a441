//! The time editor's model: a time of day kept within a range, edited section by section
//! (hour, minute, second, AM/PM) and shown in 12- or 24-hour form.

use vstd::prelude::*;
use vstd::string::StringExecFns;

use crate::decimal::{append_two_digits, two_digits};

verus! {

/// Display format for times.
#[derive(Debug, Clone, Copy, PartialEq, Eq, Structural)]
pub enum TimeFormat {
    /// 24-hour format without seconds: HH:MM
    Hour24,
    /// 24-hour format with seconds: HH:MM:SS
    Hour24Seconds,
    /// 12-hour format without seconds: hh:MM AM/PM
    Hour12,
    /// 12-hour format with seconds: hh:MM:SS AM/PM
    Hour12Seconds,
}

impl Default for TimeFormat {
    fn default() -> (r: Self)
        ensures
            r == TimeFormat::Hour24,
    {
        TimeFormat::Hour24
    }
}

impl TimeFormat {
    pub open spec fn spec_shows_seconds(self) -> bool {
        self == TimeFormat::Hour24Seconds || self == TimeFormat::Hour12Seconds
    }

    pub open spec fn spec_is_12_hour(self) -> bool {
        self == TimeFormat::Hour12 || self == TimeFormat::Hour12Seconds
    }

    /// Check if this format shows seconds.
    pub fn shows_seconds(&self) -> (r: bool)
        ensures
            r == self.spec_shows_seconds(),
    {
        match self {
            TimeFormat::Hour24Seconds | TimeFormat::Hour12Seconds => true,
            _ => false,
        }
    }

    /// Check if this format uses 12-hour clock.
    pub fn is_12_hour(&self) -> (r: bool)
        ensures
            r == self.spec_is_12_hour(),
    {
        match self {
            TimeFormat::Hour12 | TimeFormat::Hour12Seconds => true,
            _ => false,
        }
    }
}

/// A time of day: seconds since midnight and a fraction of a second in nanoseconds (up to
/// two seconds' worth, for a leap second).
#[derive(Debug, Clone, Copy, PartialEq, Eq, Structural)]
pub struct TimeOfDay {
    secs: u32,
    frac: u32,
}

/// The seconds since midnight of `h:m:s`.
pub open spec fn hms_secs(h: int, m: int, s: int) -> int {
    h * 3600 + m * 60 + s
}

impl TimeOfDay {
    #[verifier::type_invariant]
    spec fn inv(self) -> bool {
        self.secs < 86400 && self.frac < 2_000_000_000
    }

    /// Seconds since midnight.
    pub closed spec fn spec_secs(self) -> int {
        self.secs as int
    }

    /// Nanoseconds past the second.
    pub closed spec fn spec_frac(self) -> int {
        self.frac as int
    }

    /// The time `h:m:s` with no fraction of a second.
    pub closed spec fn spec_hms(h: int, m: int, s: int) -> TimeOfDay {
        TimeOfDay { secs: hms_secs(h, m, s) as u32, frac: 0 }
    }

    pub open spec fn spec_hour(self) -> int {
        self.spec_secs() / 3600
    }

    pub open spec fn spec_minute(self) -> int {
        self.spec_secs() % 3600 / 60
    }

    pub open spec fn spec_second(self) -> int {
        self.spec_secs() % 60
    }

    /// Whether this time comes before `other`.
    pub open spec fn spec_before(self, other: TimeOfDay) -> bool {
        self.spec_secs() < other.spec_secs() || (self.spec_secs() == other.spec_secs()
            && self.spec_frac() < other.spec_frac())
    }

    /// The parts of `spec_hms` are those it was made of.
    pub proof fn lemma_hms(h: int, m: int, s: int)
        requires
            0 <= h < 24,
            0 <= m < 60,
            0 <= s < 60,
        ensures
            Self::spec_hms(h, m, s).spec_secs() == hms_secs(h, m, s),
            Self::spec_hms(h, m, s).spec_frac() == 0,
            Self::spec_hms(h, m, s).spec_hour() == h,
            Self::spec_hms(h, m, s).spec_minute() == m,
            Self::spec_hms(h, m, s).spec_second() == s,
    {
        assert(hms_secs(h, m, s) / 3600 == h) by (nonlinear_arith)
            requires
                0 <= h < 24,
                0 <= m < 60,
                0 <= s < 60,
        ;
        assert(hms_secs(h, m, s) % 3600 / 60 == m) by (nonlinear_arith)
            requires
                0 <= h < 24,
                0 <= m < 60,
                0 <= s < 60,
        ;
        assert(hms_secs(h, m, s) % 60 == s) by (nonlinear_arith)
            requires
                0 <= h < 24,
                0 <= m < 60,
                0 <= s < 60,
        ;
    }

    /// Two times with the same seconds and fraction are the same time.
    pub proof fn lemma_same(a: TimeOfDay, b: TimeOfDay)
        requires
            a.spec_secs() == b.spec_secs(),
            a.spec_frac() == b.spec_frac(),
        ensures
            a == b,
    {
    }

    /// The time `hour:min:sec`, if each part is in range.
    pub fn from_hms_opt(hour: u32, min: u32, sec: u32) -> (r: Option<TimeOfDay>)
        ensures
            r == (if hour < 24 && min < 60 && sec < 60 {
                Some(Self::spec_hms(hour as int, min as int, sec as int))
            } else {
                None
            }),
    {
        if hour < 24 && min < 60 && sec < 60 {
            Some(TimeOfDay { secs: hour * 3600 + min * 60 + sec, frac: 0 })
        } else {
            None
        }
    }

    /// The time `hour:min:sec` and `nano` nanoseconds, if each part is in range (the
    /// nanoseconds may reach into a second second for a leap second).
    pub fn from_hms_nano_opt(hour: u32, min: u32, sec: u32, nano: u32) -> (r: Option<TimeOfDay>)
        ensures
            r is Some <==> (hour < 24 && min < 60 && sec < 60 && nano < 2_000_000_000),
            r matches Some(t) ==> t.spec_secs() == hms_secs(hour as int, min as int, sec as int)
                && t.spec_frac() == nano,
    {
        if hour < 24 && min < 60 && sec < 60 && nano < 2_000_000_000 {
            Some(TimeOfDay { secs: hour * 3600 + min * 60 + sec, frac: nano })
        } else {
            None
        }
    }

    /// Midnight.
    pub fn midnight() -> (r: TimeOfDay)
        ensures
            r == Self::spec_hms(0, 0, 0),
    {
        TimeOfDay { secs: 0, frac: 0 }
    }

    /// The hour (0 to 23).
    pub fn hour(&self) -> (r: u32)
        ensures
            r == self.spec_hour(),
            r < 24,
    {
        proof {
            use_type_invariant(self);
        }
        self.secs / 3600
    }

    /// The minute (0 to 59).
    pub fn minute(&self) -> (r: u32)
        ensures
            r == self.spec_minute(),
            r < 60,
    {
        self.secs % 3600 / 60
    }

    /// The second (0 to 59).
    pub fn second(&self) -> (r: u32)
        ensures
            r == self.spec_second(),
            r < 60,
    {
        self.secs % 60
    }

    /// The nanoseconds past the second.
    pub fn nanosecond(&self) -> (r: u32)
        ensures
            r == self.spec_frac(),
    {
        self.frac
    }

    /// Whether this time comes before `other`.
    pub fn before(&self, other: &TimeOfDay) -> (r: bool)
        ensures
            r == self.spec_before(*other),
    {
        self.secs < other.secs || (self.secs == other.secs && self.frac < other.frac)
    }
}

/// The section of the editor being edited.
#[derive(Debug, Clone, Copy, PartialEq, Eq, Structural)]
pub enum EditSection {
    /// No section is being edited.
    Unselected,
    Hour,
    Minute,
    Second,
    AmPm,
}

/// Parts of the editor a pointer can be over.
#[derive(Debug, Clone, Copy, PartialEq, Eq, Structural)]
pub enum TimeEditPart {
    /// Nothing of the editor.
    Outside,
    HourSection,
    MinuteSection,
    SecondSection,
    AmPmSection,
    /// Up (increment) button.
    UpButton,
    /// Down (decrement) button.
    DownButton,
}

/// Keys the editor handles.
#[derive(Debug, Clone, Copy, PartialEq, Eq, Structural)]
pub enum TimeKey {
    Enter,
    ArrowUp,
    ArrowDown,
    ArrowLeft,
    ArrowRight,
    Tab,
    Home,
    End,
    Other,
}

/// A notification the editor owes its listeners.
#[derive(Debug, Clone, Copy, PartialEq, Eq, Structural)]
pub enum TimeEditEvent {
    /// The time changed to this one.
    TimeChanged(TimeOfDay),
    /// Editing finished.
    EditingFinished,
}

/// The editor as a value.
pub struct TimeEditView {
    pub time: TimeOfDay,
    pub minimum: TimeOfDay,
    pub maximum: TimeOfDay,
    pub format: TimeFormat,
    pub show_seconds: Option<bool>,
    pub section: EditSection,
    pub read_only: bool,
    pub pressed: TimeEditPart,
    pub events: Seq<TimeEditEvent>,
}

/// `t` brought into `[min, max]`: the minimum when before it, else the maximum when after it.
pub open spec fn clamp_time(t: TimeOfDay, min: TimeOfDay, max: TimeOfDay) -> TimeOfDay {
    if t.spec_before(min) {
        min
    } else if max.spec_before(t) {
        max
    } else {
        t
    }
}

/// Whether seconds are shown: as set, or else as the format says.
pub open spec fn seconds_shown_of(v: TimeEditView) -> bool {
    match v.show_seconds {
        Some(b) => b,
        None => v.format.spec_shows_seconds(),
    }
}

/// The editor after asking for time `t`: it takes `t` brought into range, notifying a change.
pub open spec fn with_time_set(v: TimeEditView, t: TimeOfDay) -> TimeEditView {
    let c = clamp_time(t, v.minimum, v.maximum);
    if c != v.time {
        TimeEditView { time: c, events: v.events.push(TimeEditEvent::TimeChanged(c)), ..v }
    } else {
        v
    }
}

/// The section after the current one, in the order hour, minute, second (when shown), AM/PM
/// (in 12-hour form), then none.
pub open spec fn section_after(s: EditSection, show_seconds: bool, twelve: bool) -> EditSection {
    match s {
        EditSection::Unselected => EditSection::Hour,
        EditSection::Hour => EditSection::Minute,
        EditSection::Minute => if show_seconds {
            EditSection::Second
        } else if twelve {
            EditSection::AmPm
        } else {
            EditSection::Unselected
        },
        EditSection::Second => if twelve {
            EditSection::AmPm
        } else {
            EditSection::Unselected
        },
        EditSection::AmPm => EditSection::Unselected,
    }
}

/// The part of the text field a click selects: the section after the current one, going
/// round from the last section back to the hour.
pub open spec fn clicked_part(s: EditSection, show_seconds: bool, twelve: bool) -> TimeEditPart {
    match s {
        EditSection::Hour => TimeEditPart::MinuteSection,
        EditSection::Minute => if show_seconds {
            TimeEditPart::SecondSection
        } else if twelve {
            TimeEditPart::AmPmSection
        } else {
            TimeEditPart::HourSection
        },
        EditSection::Second => if twelve {
            TimeEditPart::AmPmSection
        } else {
            TimeEditPart::HourSection
        },
        _ => TimeEditPart::HourSection,
    }
}

/// The section before the current one, in the same order (none comes before the hour and
/// after the last section).
pub open spec fn section_before(s: EditSection, show_seconds: bool, twelve: bool) -> EditSection {
    match s {
        EditSection::Unselected => if twelve {
            EditSection::AmPm
        } else if show_seconds {
            EditSection::Second
        } else {
            EditSection::Minute
        },
        EditSection::Hour => EditSection::Unselected,
        EditSection::Minute => EditSection::Hour,
        EditSection::Second => EditSection::Minute,
        EditSection::AmPm => if show_seconds {
            EditSection::Second
        } else {
            EditSection::Minute
        },
    }
}

/// The section a click on the text selects: the sections in turn, back to the hour.
pub open spec fn section_clicked(s: EditSection, show_seconds: bool, twelve: bool) -> EditSection {
    match s {
        EditSection::Minute => if show_seconds {
            EditSection::Second
        } else if twelve {
            EditSection::AmPm
        } else {
            EditSection::Hour
        },
        EditSection::Second => if twelve {
            EditSection::AmPm
        } else {
            EditSection::Hour
        },
        EditSection::AmPm => EditSection::Hour,
        _ => section_after(s, show_seconds, twelve),
    }
}

/// The time one step up (`up`) or down in section `s`, wrapping within the section (the hour
/// around the day, minutes and seconds around the hour and minute; AM/PM flips by twelve
/// hours), with no fraction of a second; `None` when no section is edited.
pub open spec fn stepped_time(t: TimeOfDay, s: EditSection, up: bool) -> Option<TimeOfDay> {
    let h = t.spec_hour();
    let m = t.spec_minute();
    let sec = t.spec_second();
    match s {
        EditSection::Unselected => None,
        EditSection::Hour => Some(
            TimeOfDay::spec_hms(
                if up {
                    (h + 1) % 24
                } else if h == 0 {
                    23
                } else {
                    h - 1
                },
                m,
                sec,
            ),
        ),
        EditSection::Minute => Some(
            TimeOfDay::spec_hms(
                h,
                if up {
                    (m + 1) % 60
                } else if m == 0 {
                    59
                } else {
                    m - 1
                },
                sec,
            ),
        ),
        EditSection::Second => Some(
            TimeOfDay::spec_hms(
                h,
                m,
                if up {
                    (sec + 1) % 60
                } else if sec == 0 {
                    59
                } else {
                    sec - 1
                },
            ),
        ),
        EditSection::AmPm => Some(TimeOfDay::spec_hms((h + 12) % 24, m, sec)),
    }
}

/// The editor after a step up or down: nothing when read-only or no section is edited.
pub open spec fn with_step(v: TimeEditView, up: bool) -> TimeEditView {
    if v.read_only {
        v
    } else {
        match stepped_time(v.time, v.section, up) {
            Some(t) => with_time_set(v, t),
            None => v,
        }
    }
}

/// The editor after a step from the buttons, the wheel or the arrow keys: a step with no
/// section edited edits the minutes.
pub open spec fn with_minutes_default_step(v: TimeEditView, up: bool) -> TimeEditView {
    let v2 = if v.section == EditSection::Unselected {
        TimeEditView { section: EditSection::Minute, ..v }
    } else {
        v
    };
    with_step(v2, up)
}

/// The editor and whether the key was consumed, after a key press (`shift` held, `ch` the
/// character typed, if any).
pub open spec fn after_key(v: TimeEditView, key: TimeKey, shift: bool, ch: Option<char>) -> (
    TimeEditView,
    bool,
) {
    let show = seconds_shown_of(v);
    let twelve = v.format.spec_is_12_hour();
    match key {
        TimeKey::Enter => (TimeEditView { events: v.events.push(TimeEditEvent::EditingFinished), ..v }, true),
        TimeKey::ArrowUp => if v.read_only {
            (v, false)
        } else {
            (with_minutes_default_step(v, true), true)
        },
        TimeKey::ArrowDown => if v.read_only {
            (v, false)
        } else {
            (with_minutes_default_step(v, false), true)
        },
        TimeKey::ArrowLeft => (TimeEditView { section: section_before(v.section, show, twelve), ..v }, true),
        TimeKey::ArrowRight => (TimeEditView { section: section_after(v.section, show, twelve), ..v }, true),
        TimeKey::Tab => if shift {
            (TimeEditView { section: section_before(v.section, show, twelve), ..v }, true)
        } else {
            (TimeEditView { section: section_after(v.section, show, twelve), ..v }, true)
        },
        TimeKey::Home => (with_time_set(v, v.minimum), true),
        TimeKey::End => (with_time_set(v, v.maximum), true),
        TimeKey::Other => {
            let h = v.time.spec_hour();
            if twelve && v.section == EditSection::AmPm && ch is Some {
                let c = ch->0;
                if c == 'a' || c == 'A' {
                    if h >= 12 {
                        (
                            with_time_set(
                                v,
                                TimeOfDay::spec_hms(h - 12, v.time.spec_minute(), v.time.spec_second()),
                            ),
                            true,
                        )
                    } else {
                        (v, true)
                    }
                } else if c == 'p' || c == 'P' {
                    if h < 12 {
                        (
                            with_time_set(
                                v,
                                TimeOfDay::spec_hms(h + 12, v.time.spec_minute(), v.time.spec_second()),
                            ),
                            true,
                        )
                    } else {
                        (v, true)
                    }
                } else {
                    (v, false)
                }
            } else {
                (v, false)
            }
        },
    }
}

/// The hour as a 12-hour clock shows it: 12 for midnight and noon.
pub open spec fn twelve_hour(h: int) -> int {
    if h == 0 {
        12
    } else if h > 12 {
        h - 12
    } else {
        h
    }
}

/// The text the editor shows: hours, minutes and (when shown) seconds of two digits each,
/// separated by ':', in 12-hour form followed by " AM" or " PM".
pub open spec fn time_text(t: TimeOfDay, twelve: bool, show_seconds: bool) -> Seq<char> {
    let h = t.spec_hour();
    let hm = two_digits((if twelve {
        twelve_hour(h)
    } else {
        h
    }) as nat) + seq![':'] + two_digits(t.spec_minute() as nat);
    let hms = if show_seconds {
        hm + seq![':'] + two_digits(t.spec_second() as nat)
    } else {
        hm
    };
    if twelve {
        hms + (if h < 12 {
            seq![' ', 'A', 'M']
        } else {
            seq![' ', 'P', 'M']
        })
    } else {
        hms
    }
}

/// Setting a time keeps it within the range whenever the range is not empty: the time the
/// editor holds after `with_time_set` lies between the minimum and the maximum.
pub proof fn law_set_time_in_range(v: TimeEditView, t: TimeOfDay)
    requires
        !v.maximum.spec_before(v.minimum),
    ensures
        !with_time_set(v, t).time.spec_before(v.minimum),
        !v.maximum.spec_before(with_time_set(v, t).time),
{
}

/// A step up followed by a step down in the same section gives back the time (for a time
/// with no fraction of a second).
pub proof fn law_step_up_then_down(t: TimeOfDay, s: EditSection)
    requires
        s != EditSection::Unselected,
        t.spec_frac() == 0,
        0 <= t.spec_secs() < 86400,
    ensures
        stepped_time(stepped_time(t, s, true)->0, s, false) == Some(t),
{
    let h = t.spec_hour();
    let m = t.spec_minute();
    let sec = t.spec_second();
    assert(0 <= h < 24 && 0 <= m < 60 && 0 <= sec < 60) by (nonlinear_arith)
        requires
            0 <= t.spec_secs() < 86400,
            h == t.spec_secs() / 3600,
            m == t.spec_secs() % 3600 / 60,
            sec == t.spec_secs() % 60,
    ;
    assert(t.spec_secs() == hms_secs(h, m, sec)) by (nonlinear_arith)
        requires
            0 <= t.spec_secs(),
            h == t.spec_secs() / 3600,
            m == t.spec_secs() % 3600 / 60,
            sec == t.spec_secs() % 60,
    ;
    TimeOfDay::lemma_same(t, TimeOfDay::spec_hms(h, m, sec));
    match s {
        EditSection::Hour => {
            let h1 = (h + 1) % 24;
            TimeOfDay::lemma_hms(h1, m, sec);
        },
        EditSection::Minute => {
            let m1 = (m + 1) % 60;
            TimeOfDay::lemma_hms(h, m1, sec);
        },
        EditSection::Second => {
            let s1 = (sec + 1) % 60;
            TimeOfDay::lemma_hms(h, m, s1);
        },
        EditSection::AmPm => {
            let h1 = (h + 12) % 24;
            TimeOfDay::lemma_hms(h1, m, sec);
        },
        EditSection::Unselected => {},
    }
    TimeOfDay::lemma_hms(h, m, sec);
}

/// A step in the AM/PM section, up or down, moves the time by twelve hours around the
/// day, so that a morning time becomes the same time in the afternoon and the other way
/// round; the minute and the second are kept.
pub proof fn law_ampm_step_flips_half_day(t: TimeOfDay, up: bool)
    requires
        0 <= t.spec_secs() < 86400,
    ensures
        stepped_time(t, EditSection::AmPm, up) is Some,
        ({
            let u = stepped_time(t, EditSection::AmPm, up)->0;
            &&& u.spec_hour() == (t.spec_hour() + 12) % 24
            &&& u.spec_minute() == t.spec_minute()
            &&& u.spec_second() == t.spec_second()
            &&& (t.spec_hour() < 12 <==> u.spec_hour() >= 12)
            &&& (u.spec_secs() - t.spec_secs() == 43200 || t.spec_secs() - u.spec_secs() == 43200)
        }),
{
    let h = t.spec_hour();
    let m = t.spec_minute();
    let sec = t.spec_second();
    assert(0 <= h < 24 && 0 <= m < 60 && 0 <= sec < 60) by (nonlinear_arith)
        requires
            0 <= t.spec_secs() < 86400,
            h == t.spec_secs() / 3600,
            m == t.spec_secs() % 3600 / 60,
            sec == t.spec_secs() % 60,
    ;
    assert(t.spec_secs() == hms_secs(h, m, sec)) by (nonlinear_arith)
        requires
            0 <= t.spec_secs(),
            h == t.spec_secs() / 3600,
            m == t.spec_secs() % 3600 / 60,
            sec == t.spec_secs() % 60,
    ;
    TimeOfDay::lemma_hms((h + 12) % 24, m, sec);
}

/// A step in the hour, minute or second section moves that part by one, up or down,
/// wrapping around its range (the hour around the day, the minute and second around sixty),
/// and keeps the other parts; the result has no fraction of a second.
pub proof fn law_step_moves_one_part(t: TimeOfDay, s: EditSection, up: bool)
    requires
        0 <= t.spec_secs() < 86400,
        s == EditSection::Hour || s == EditSection::Minute || s == EditSection::Second,
    ensures
        stepped_time(t, s, up) is Some,
        ({
            let u = stepped_time(t, s, up)->0;
            let d: int = if up { 1 } else { -1 };
            &&& u.spec_frac() == 0
            &&& u.spec_hour() == (if s == EditSection::Hour {
                (t.spec_hour() + d + 24) % 24
            } else {
                t.spec_hour()
            })
            &&& u.spec_minute() == (if s == EditSection::Minute {
                (t.spec_minute() + d + 60) % 60
            } else {
                t.spec_minute()
            })
            &&& u.spec_second() == (if s == EditSection::Second {
                (t.spec_second() + d + 60) % 60
            } else {
                t.spec_second()
            })
        }),
{
    let h = t.spec_hour();
    let m = t.spec_minute();
    let sec = t.spec_second();
    assert(0 <= h < 24 && 0 <= m < 60 && 0 <= sec < 60) by (nonlinear_arith)
        requires
            0 <= t.spec_secs() < 86400,
            h == t.spec_secs() / 3600,
            m == t.spec_secs() % 3600 / 60,
            sec == t.spec_secs() % 60,
    ;
    match s {
        EditSection::Hour => {
            let h1 = if up { (h + 1) % 24 } else if h == 0 { 23 } else { h - 1 };
            TimeOfDay::lemma_hms(h1, m, sec);
        },
        EditSection::Minute => {
            let m1 = if up { (m + 1) % 60 } else if m == 0 { 59 } else { m - 1 };
            TimeOfDay::lemma_hms(h, m1, sec);
        },
        _ => {
            let s1 = if up { (sec + 1) % 60 } else if sec == 0 { 59 } else { sec - 1 };
            TimeOfDay::lemma_hms(h, m, s1);
        },
    }
}

/// A widget for entering and modifying times.
pub struct TimeEdit {
    time: TimeOfDay,
    minimum_time: TimeOfDay,
    maximum_time: TimeOfDay,
    display_format: TimeFormat,
    show_seconds: Option<bool>,
    current_section: EditSection,
    read_only: bool,
    pressed_part: TimeEditPart,
    events: Vec<TimeEditEvent>,
}

impl View for TimeEdit {
    type V = TimeEditView;

    closed spec fn view(&self) -> TimeEditView {
        TimeEditView {
            time: self.time,
            minimum: self.minimum_time,
            maximum: self.maximum_time,
            format: self.display_format,
            show_seconds: self.show_seconds,
            section: self.current_section,
            read_only: self.read_only,
            pressed: self.pressed_part,
            events: self.events@,
        }
    }
}

impl TimeEdit {
    /// A new editor at midnight, allowing the whole day (00:00:00 to 23:59:59), in 24-hour
    /// form, editable, with no section edited.
    pub fn new() -> (r: Self)
        ensures
            r@ == (TimeEditView {
                time: TimeOfDay::spec_hms(0, 0, 0),
                minimum: TimeOfDay::spec_hms(0, 0, 0),
                maximum: TimeOfDay::spec_hms(23, 59, 59),
                format: TimeFormat::Hour24,
                show_seconds: None,
                section: EditSection::Unselected,
                read_only: false,
                pressed: TimeEditPart::Outside,
                events: Seq::empty(),
            }),
    {
        let r = TimeEdit {
            time: TimeOfDay::midnight(),
            minimum_time: TimeOfDay::midnight(),
            maximum_time: TimeOfDay { secs: 86399, frac: 0 },
            display_format: TimeFormat::Hour24,
            show_seconds: None,
            current_section: EditSection::Unselected,
            read_only: false,
            pressed_part: TimeEditPart::Outside,
            events: Vec::new(),
        };
        assert(r@.events =~= Seq::<TimeEditEvent>::empty());
        r
    }

    /// Take the notifications owed, in the order they arose.
    pub fn take_events(&mut self) -> (r: Vec<TimeEditEvent>)
        ensures
            r@ == old(self)@.events,
            final(self)@ == (TimeEditView { events: Seq::empty(), ..old(self)@ }),
    {
        let mut out: Vec<TimeEditEvent> = Vec::new();
        std::mem::swap(&mut out, &mut self.events);
        assert(self@ =~= (TimeEditView { events: Seq::empty(), ..old(self)@ }));
        out
    }

    /// The current time.
    pub fn time(&self) -> (r: TimeOfDay)
        ensures
            r == self@.time,
    {
        self.time
    }

    /// `t` brought into this editor's range.
    pub fn clamp_time(&self, t: TimeOfDay) -> (r: TimeOfDay)
        ensures
            r == clamp_time(t, self@.minimum, self@.maximum),
    {
        if t.before(&self.minimum_time) {
            self.minimum_time
        } else if self.maximum_time.before(&t) {
            self.maximum_time
        } else {
            t
        }
    }

    /// Set the time, brought into range; a change is notified.
    pub fn set_time(&mut self, time: TimeOfDay)
        ensures
            final(self)@ == with_time_set(old(self)@, time),
    {
        let clamped = self.clamp_time(time);
        if self.time != clamped {
            self.time = clamped;
            self.events.push(TimeEditEvent::TimeChanged(clamped));
        }
    }

    /// This editor with its time set to `time`, brought into range (not notified).
    pub fn with_time(self, time: TimeOfDay) -> (r: Self)
        ensures
            r@ == (TimeEditView { time: clamp_time(time, self@.minimum, self@.maximum), ..self@ }),
    {
        let mut s = self;
        s.time = s.clamp_time(time);
        s
    }

    /// The earliest time allowed.
    pub fn minimum_time(&self) -> (r: TimeOfDay)
        ensures
            r == self@.minimum,
    {
        self.minimum_time
    }

    /// Set the earliest time allowed; a time before it moves to it (within the maximum).
    pub fn set_minimum_time(&mut self, time: TimeOfDay)
        ensures
            final(self)@ == ({
                let v = TimeEditView { minimum: time, ..old(self)@ };
                if old(self)@.time.spec_before(time) {
                    with_time_set(v, time)
                } else {
                    v
                }
            }),
    {
        self.minimum_time = time;
        if self.time.before(&time) {
            self.set_time(time);
        }
    }

    /// This editor with the earliest time allowed set to `time`; a time before it becomes it.
    pub fn with_minimum_time(self, time: TimeOfDay) -> (r: Self)
        ensures
            r@ == (TimeEditView {
                minimum: time,
                time: if self@.time.spec_before(time) {
                    time
                } else {
                    self@.time
                },
                ..self@
            }),
    {
        let mut s = self;
        s.minimum_time = time;
        if s.time.before(&time) {
            s.time = time;
        }
        s
    }

    /// The latest time allowed.
    pub fn maximum_time(&self) -> (r: TimeOfDay)
        ensures
            r == self@.maximum,
    {
        self.maximum_time
    }

    /// Set the latest time allowed; a time after it moves to it (within the minimum).
    pub fn set_maximum_time(&mut self, time: TimeOfDay)
        ensures
            final(self)@ == ({
                let v = TimeEditView { maximum: time, ..old(self)@ };
                if time.spec_before(old(self)@.time) {
                    with_time_set(v, time)
                } else {
                    v
                }
            }),
    {
        self.maximum_time = time;
        if time.before(&self.time) {
            self.set_time(time);
        }
    }

    /// This editor with the latest time allowed set to `time`; a time after it becomes it.
    pub fn with_maximum_time(self, time: TimeOfDay) -> (r: Self)
        ensures
            r@ == (TimeEditView {
                maximum: time,
                time: if time.spec_before(self@.time) {
                    time
                } else {
                    self@.time
                },
                ..self@
            }),
    {
        let mut s = self;
        s.maximum_time = time;
        if time.before(&s.time) {
            s.time = time;
        }
        s
    }

    /// Set the range of times allowed, and bring the time into it (a change is notified).
    pub fn set_time_range(&mut self, min: TimeOfDay, max: TimeOfDay)
        ensures
            final(self)@ == ({
                let v = TimeEditView { minimum: min, maximum: max, ..old(self)@ };
                with_time_set(v, clamp_time(v.time, min, max))
            }),
    {
        self.minimum_time = min;
        self.maximum_time = max;
        let clamped = self.clamp_time(self.time);
        if self.time != clamped {
            self.set_time(clamped);
        }
    }

    /// This editor with the range of times allowed set, and its time brought into it.
    pub fn with_time_range(self, min: TimeOfDay, max: TimeOfDay) -> (r: Self)
        ensures
            r@ == (TimeEditView { minimum: min, maximum: max, time: clamp_time(self@.time, min, max), ..self@ }),
    {
        let mut s = self;
        s.minimum_time = min;
        s.maximum_time = max;
        s.time = s.clamp_time(s.time);
        s
    }

    /// The display format.
    pub fn display_format(&self) -> (r: TimeFormat)
        ensures
            r == self@.format,
    {
        self.display_format
    }

    /// Set the display format.
    pub fn set_display_format(&mut self, format: TimeFormat)
        ensures
            final(self)@ == (TimeEditView { format: format, ..old(self)@ }),
    {
        self.display_format = format;
    }

    /// This editor with the given display format.
    pub fn with_display_format(self, format: TimeFormat) -> (r: Self)
        ensures
            r@ == (TimeEditView { format: format, ..self@ }),
    {
        let mut s = self;
        s.display_format = format;
        s
    }

    /// Whether seconds are shown: as set, or else as the format says.
    pub fn seconds_shown(&self) -> (r: bool)
        ensures
            r == seconds_shown_of(self@),
    {
        match self.show_seconds {
            Some(b) => b,
            None => self.display_format.shows_seconds(),
        }
    }

    /// Show or hide the seconds, whatever the format says.
    pub fn set_show_seconds(&mut self, show: bool)
        ensures
            final(self)@ == (TimeEditView { show_seconds: Some(show), ..old(self)@ }),
    {
        self.show_seconds = Some(show);
    }

    /// This editor with the seconds shown or hidden, whatever the format says.
    pub fn with_show_seconds(self, show: bool) -> (r: Self)
        ensures
            r@ == (TimeEditView { show_seconds: Some(show), ..self@ }),
    {
        let mut s = self;
        s.show_seconds = Some(show);
        s
    }

    /// Whether the editor is read-only.
    pub fn is_read_only(&self) -> (r: bool)
        ensures
            r == self@.read_only,
    {
        self.read_only
    }

    /// Make the editor read-only or editable; becoming read-only ends the editing of a
    /// section.
    pub fn set_read_only(&mut self, read_only: bool)
        ensures
            final(self)@ == (if read_only != old(self)@.read_only && read_only {
                TimeEditView { read_only: true, section: EditSection::Unselected, ..old(self)@ }
            } else {
                TimeEditView { read_only: read_only, ..old(self)@ }
            }),
    {
        if self.read_only != read_only {
            self.read_only = read_only;
            if read_only {
                self.current_section = EditSection::Unselected;
            }
        }
    }

    /// This editor, read-only or editable.
    pub fn with_read_only(self, read_only: bool) -> (r: Self)
        ensures
            r@ == (TimeEditView { read_only: read_only, ..self@ }),
    {
        let mut s = self;
        s.read_only = read_only;
        s
    }

    /// The section being edited.
    pub fn current_section(&self) -> (r: EditSection)
        ensures
            r == self@.section,
    {
        self.current_section
    }

    /// Whether the format uses the 12-hour clock.
    pub fn is_12_hour(&self) -> (r: bool)
        ensures
            r == self@.format.spec_is_12_hour(),
    {
        self.display_format.is_12_hour()
    }

    /// The part a click on the text field lands on (see `clicked_part`).
    pub fn text_field_part(&self) -> (r: TimeEditPart)
        ensures
            r == clicked_part(self@.section, seconds_shown_of(self@), self@.format.spec_is_12_hour()),
    {
        let show = self.seconds_shown();
        let twelve = self.is_12_hour();
        match self.current_section {
            EditSection::Hour => TimeEditPart::MinuteSection,
            EditSection::Minute => if show {
                TimeEditPart::SecondSection
            } else if twelve {
                TimeEditPart::AmPmSection
            } else {
                TimeEditPart::HourSection
            },
            EditSection::Second => if twelve {
                TimeEditPart::AmPmSection
            } else {
                TimeEditPart::HourSection
            },
            _ => TimeEditPart::HourSection,
        }
    }

    /// Edit the next section.
    pub fn next_section(&mut self)
        ensures
            final(self)@ == (TimeEditView {
                section: section_after(old(self)@.section, seconds_shown_of(old(self)@), old(self)@.format.spec_is_12_hour()),
                ..old(self)@
            }),
    {
        let show_seconds = self.seconds_shown();
        let twelve = self.is_12_hour();
        self.current_section = match self.current_section {
            EditSection::Unselected => EditSection::Hour,
            EditSection::Hour => EditSection::Minute,
            EditSection::Minute => if show_seconds {
                EditSection::Second
            } else if twelve {
                EditSection::AmPm
            } else {
                EditSection::Unselected
            },
            EditSection::Second => if twelve {
                EditSection::AmPm
            } else {
                EditSection::Unselected
            },
            EditSection::AmPm => EditSection::Unselected,
        };
    }

    /// Edit the previous section.
    pub fn previous_section(&mut self)
        ensures
            final(self)@ == (TimeEditView {
                section: section_before(old(self)@.section, seconds_shown_of(old(self)@), old(self)@.format.spec_is_12_hour()),
                ..old(self)@
            }),
    {
        let show_seconds = self.seconds_shown();
        let twelve = self.is_12_hour();
        self.current_section = match self.current_section {
            EditSection::Unselected => if twelve {
                EditSection::AmPm
            } else if show_seconds {
                EditSection::Second
            } else {
                EditSection::Minute
            },
            EditSection::Hour => EditSection::Unselected,
            EditSection::Minute => EditSection::Hour,
            EditSection::Second => EditSection::Minute,
            EditSection::AmPm => if show_seconds {
                EditSection::Second
            } else {
                EditSection::Minute
            },
        };
    }

    /// The section a click on the text selects.
    pub fn section_from_click(&self) -> (r: EditSection)
        ensures
            r == section_clicked(self@.section, seconds_shown_of(self@), self@.format.spec_is_12_hour()),
    {
        let show_seconds = self.seconds_shown();
        let twelve = self.is_12_hour();
        match self.current_section {
            EditSection::Unselected => EditSection::Hour,
            EditSection::Hour => EditSection::Minute,
            EditSection::Minute => if show_seconds {
                EditSection::Second
            } else if twelve {
                EditSection::AmPm
            } else {
                EditSection::Hour
            },
            EditSection::Second => if twelve {
                EditSection::AmPm
            } else {
                EditSection::Hour
            },
            EditSection::AmPm => EditSection::Hour,
        }
    }

    fn stepped(&self, up: bool) -> (r: Option<TimeOfDay>)
        ensures
            r == stepped_time(self@.time, self@.section, up),
    {
        let h = self.time.hour();
        let m = self.time.minute();
        let s = self.time.second();
        match self.current_section {
            EditSection::Unselected => None,
            EditSection::Hour => {
                let nh = if up {
                    (h + 1) % 24
                } else if h == 0 {
                    23
                } else {
                    h - 1
                };
                TimeOfDay::from_hms_opt(nh, m, s)
            },
            EditSection::Minute => {
                let nm = if up {
                    (m + 1) % 60
                } else if m == 0 {
                    59
                } else {
                    m - 1
                };
                TimeOfDay::from_hms_opt(h, nm, s)
            },
            EditSection::Second => {
                let ns = if up {
                    (s + 1) % 60
                } else if s == 0 {
                    59
                } else {
                    s - 1
                };
                TimeOfDay::from_hms_opt(h, m, ns)
            },
            EditSection::AmPm => TimeOfDay::from_hms_opt((h + 12) % 24, m, s),
        }
    }

    /// Step the edited section up; nothing when read-only or no section is edited.
    pub fn step_up_section(&mut self)
        ensures
            final(self)@ == with_step(old(self)@, true),
    {
        if self.read_only {
            return;
        }
        match self.stepped(true) {
            Some(t) => self.set_time(t),
            None => {},
        }
    }

    /// Step the edited section down; nothing when read-only or no section is edited.
    pub fn step_down_section(&mut self)
        ensures
            final(self)@ == with_step(old(self)@, false),
    {
        if self.read_only {
            return;
        }
        match self.stepped(false) {
            Some(t) => self.set_time(t),
            None => {},
        }
    }

    fn step_from_control(&mut self, up: bool)
        ensures
            final(self)@ == with_minutes_default_step(old(self)@, up),
    {
        if self.current_section == EditSection::Unselected {
            self.current_section = EditSection::Minute;
        }
        if up {
            self.step_up_section();
        } else {
            self.step_down_section();
        }
    }

    /// The text the editor shows.
    pub fn format_time(&self) -> (r: String)
        ensures
            r@ == time_text(self@.time, self@.format.spec_is_12_hour(), seconds_shown_of(self@)),
    {
        let show_seconds = self.seconds_shown();
        let twelve = self.is_12_hour();
        let hour = self.time.hour();
        let shown_hour = if !twelve {
            hour
        } else if hour == 0 {
            12
        } else if hour > 12 {
            hour - 12
        } else {
            hour
        };
        let mut s = String::new();
        proof {
            reveal_strlit(":");
            reveal_strlit(" AM");
            reveal_strlit(" PM");
        }
        append_two_digits(&mut s, shown_hour);
        s.append(":");
        append_two_digits(&mut s, self.time.minute());
        if show_seconds {
            s.append(":");
            append_two_digits(&mut s, self.time.second());
        }
        if twelve {
            if hour < 12 {
                s.append(" AM");
            } else {
                s.append(" PM");
            }
        }
        assert(s@ =~= time_text(self@.time, twelve, show_seconds));
        s
    }

    /// Handle a press of the primary button on `part`: the buttons step (the minutes when no
    /// section is edited) unless read-only, and a section of the text becomes the one
    /// edited; a press anywhere on the editor is consumed.
    pub fn handle_press(&mut self, part: TimeEditPart) -> (consumed: bool)
        ensures
            consumed == (part != TimeEditPart::Outside),
            final(self)@ == ({
                let v = TimeEditView { pressed: part, ..old(self)@ };
                match part {
                    TimeEditPart::UpButton => if v.read_only {
                        v
                    } else {
                        with_minutes_default_step(v, true)
                    },
                    TimeEditPart::DownButton => if v.read_only {
                        v
                    } else {
                        with_minutes_default_step(v, false)
                    },
                    TimeEditPart::HourSection => TimeEditView { section: EditSection::Hour, ..v },
                    TimeEditPart::MinuteSection => TimeEditView { section: EditSection::Minute, ..v },
                    TimeEditPart::SecondSection => TimeEditView { section: EditSection::Second, ..v },
                    TimeEditPart::AmPmSection => TimeEditView { section: EditSection::AmPm, ..v },
                    TimeEditPart::Outside => v,
                }
            }),
    {
        self.pressed_part = part;
        match part {
            TimeEditPart::UpButton => {
                if !self.read_only {
                    self.step_from_control(true);
                }
                true
            },
            TimeEditPart::DownButton => {
                if !self.read_only {
                    self.step_from_control(false);
                }
                true
            },
            TimeEditPart::HourSection => {
                self.current_section = EditSection::Hour;
                true
            },
            TimeEditPart::MinuteSection => {
                self.current_section = EditSection::Minute;
                true
            },
            TimeEditPart::SecondSection => {
                self.current_section = EditSection::Second;
                true
            },
            TimeEditPart::AmPmSection => {
                self.current_section = EditSection::AmPm;
                true
            },
            TimeEditPart::Outside => false,
        }
    }

    /// Handle a release of the primary button: a press on the editor is forgotten and the
    /// release consumed.
    pub fn handle_release(&mut self) -> (consumed: bool)
        ensures
            consumed == (old(self)@.pressed != TimeEditPart::Outside),
            final(self)@ == (TimeEditView { pressed: TimeEditPart::Outside, ..old(self)@ }),
    {
        if self.pressed_part != TimeEditPart::Outside {
            self.pressed_part = TimeEditPart::Outside;
            return true;
        }
        false
    }

    /// Handle the wheel turned up (`up`) or down (`moved` false: not turned): unless
    /// read-only, the minutes become the edited section when none is, and a turn steps.
    pub fn handle_wheel(&mut self, moved: bool, up: bool) -> (consumed: bool)
        ensures
            consumed == (!old(self)@.read_only && moved),
            final(self)@ == (if old(self)@.read_only {
                old(self)@
            } else if moved {
                with_minutes_default_step(old(self)@, up)
            } else if old(self)@.section == EditSection::Unselected {
                TimeEditView { section: EditSection::Minute, ..old(self)@ }
            } else {
                old(self)@
            }),
    {
        if self.read_only {
            return false;
        }
        if moved {
            self.step_from_control(up);
            true
        } else {
            if self.current_section == EditSection::Unselected {
                self.current_section = EditSection::Minute;
            }
            false
        }
    }

    /// Handle a key press (`shift` held, `ch` the first character typed, if any).
    pub fn handle_key(&mut self, key: TimeKey, shift: bool, ch: Option<char>) -> (consumed: bool)
        ensures
            (final(self)@, consumed) == after_key(old(self)@, key, shift, ch),
    {
        match key {
            TimeKey::Enter => {
                self.events.push(TimeEditEvent::EditingFinished);
                true
            },
            TimeKey::ArrowUp => {
                if self.read_only {
                    false
                } else {
                    self.step_from_control(true);
                    true
                }
            },
            TimeKey::ArrowDown => {
                if self.read_only {
                    false
                } else {
                    self.step_from_control(false);
                    true
                }
            },
            TimeKey::ArrowLeft => {
                self.previous_section();
                true
            },
            TimeKey::ArrowRight => {
                self.next_section();
                true
            },
            TimeKey::Tab => {
                if shift {
                    self.previous_section();
                } else {
                    self.next_section();
                }
                true
            },
            TimeKey::Home => {
                let t = self.minimum_time;
                self.set_time(t);
                true
            },
            TimeKey::End => {
                let t = self.maximum_time;
                self.set_time(t);
                true
            },
            TimeKey::Other => {
                if self.is_12_hour() && self.current_section == EditSection::AmPm {
                    match ch {
                        Some(c) => {
                            let h = self.time.hour();
                            let m = self.time.minute();
                            let s = self.time.second();
                            if c == 'a' || c == 'A' {
                                if h >= 12 {
                                    match TimeOfDay::from_hms_opt(h - 12, m, s) {
                                        Some(t) => self.set_time(t),
                                        None => {},
                                    }
                                }
                                true
                            } else if c == 'p' || c == 'P' {
                                if h < 12 {
                                    match TimeOfDay::from_hms_opt(h + 12, m, s) {
                                        Some(t) => self.set_time(t),
                                        None => {},
                                    }
                                }
                                true
                            } else {
                                false
                            }
                        },
                        None => false,
                    }
                } else {
                    false
                }
            },
        }
    }

    /// Losing focus ends the editing of a section, which is notified as editing finished.
    pub fn handle_focus_out(&mut self) -> (consumed: bool)
        ensures
            !consumed,
            final(self)@ == (TimeEditView {
                section: EditSection::Unselected,
                events: old(self)@.events.push(TimeEditEvent::EditingFinished),
                ..old(self)@
            }),
    {
        self.current_section = EditSection::Unselected;
        self.events.push(TimeEditEvent::EditingFinished);
        false
    }
}

} // verus!
