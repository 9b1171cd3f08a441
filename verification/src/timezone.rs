//! Time zone display: how zone names are shown and how UTC offsets are written.

use chrono::Offset;
use vstd::prelude::*;
use vstd::string::StringExecFns;

use crate::decimal::{append_two_digits, two_digits};
use crate::utf8_text::{owned, same_text};

verus! {

/// How to display timezone names in the picker.
#[derive(Debug, Clone, Copy, PartialEq, Eq, Structural)]
pub enum TimezoneDisplayFormat {
    /// Show IANA name only (e.g., "America/New_York")
    IanaName,
    /// Show IANA name with current offset (e.g., "America/New_York (UTC-05:00)")
    IanaNameWithOffset,
    /// Show abbreviation with offset (e.g., "EST (UTC-05:00)")
    AbbreviationWithOffset,
}

impl Default for TimezoneDisplayFormat {
    fn default() -> (r: Self)
        ensures
            r == TimezoneDisplayFormat::IanaName,
    {
        TimezoneDisplayFormat::IanaName
    }
}

/// The magnitude of an offset.
pub open spec fn abs_int(x: int) -> int {
    if x < 0 {
        -x
    } else {
        x
    }
}

/// An offset from UTC in seconds written as "UTC", its sign ('+' for zero), its hours and its
/// minutes, each of at least two digits ("UTC+05:30", "UTC-08:00"); leftover seconds are
/// dropped.
pub open spec fn utc_offset_text(offset_seconds: int) -> Seq<char> {
    let a = abs_int(offset_seconds);
    seq!['U', 'T', 'C'] + seq![
        if offset_seconds >= 0 {
            '+'
        } else {
            '-'
        },
    ] + two_digits((a / 3600) as nat) + seq![':'] + two_digits(((a % 3600) / 60) as nat)
}

/// Format a UTC offset in seconds to a string like "UTC+05:30" or "UTC-08:00".
pub fn format_utc_offset(offset_seconds: i32) -> (r: String)
    requires
        offset_seconds != i32::MIN,
    ensures
        r@ == utc_offset_text(offset_seconds as int),
{
    let abs_seconds: u32 = if offset_seconds < 0 {
        (-offset_seconds) as u32
    } else {
        offset_seconds as u32
    };
    let hours = abs_seconds / 3600;
    let minutes = (abs_seconds % 3600) / 60;
    proof {
        reveal_strlit("UTC+");
        reveal_strlit("UTC-");
        reveal_strlit(":");
    }
    let mut s = if offset_seconds >= 0 {
        String::from_str("UTC+")
    } else {
        String::from_str("UTC-")
    };
    append_two_digits(&mut s, hours);
    s.append(":");
    append_two_digits(&mut s, minutes);
    assert(s@ =~= utc_offset_text(offset_seconds as int));
    s
}


/// The time zones of the IANA database, as chrono-tz knows them.
#[verifier::external_type_specification]
#[verifier::external_body]
pub struct ExTz(chrono_tz::Tz);

/// The IANA name of a zone.
pub uninterp spec fn tz_name(tz: chrono_tz::Tz) -> Seq<char>;

/// The zone with an IANA name, if the database has one.
pub uninterp spec fn tz_parsed(name: Seq<char>) -> Option<chrono_tz::Tz>;

/// A text in lower case.
pub uninterp spec fn lowercase(s: Seq<char>) -> Seq<char>;

/// `chrono_tz::Tz::name`: the zone's IANA name (a table lookup, named here).
#[verifier::external_body]
fn name_of(tz: chrono_tz::Tz) -> (r: &'static str)
    ensures
        r@ == tz_name(tz),
{
    tz.name()
}

/// `<chrono_tz::Tz as FromStr>::from_str`: the zone with the given IANA name, if any (a
/// table lookup, named here).
#[verifier::external_body]
fn parse_tz(name: &str) -> (r: Option<chrono_tz::Tz>)
    ensures
        r == tz_parsed(name@),
{
    name.parse::<chrono_tz::Tz>().ok()
}

/// `==` on `chrono_tz::Tz`, a field-less enum deriving `PartialEq`: whether the zones are
/// the same.
#[verifier::external_body]
fn same_tz(a: chrono_tz::Tz, b: chrono_tz::Tz) -> (r: bool)
    ensures
        r == (a == b),
{
    a == b
}

/// Whether name `a` comes before name `b`: character by character, the first difference
/// decides by character code, and a name comes before any longer name it begins.
pub open spec fn name_before(a: Seq<char>, b: Seq<char>) -> bool
    decreases a.len(),
{
    if a.len() == 0 {
        b.len() > 0
    } else if b.len() == 0 {
        false
    } else if a[0] != b[0] {
        (a[0] as u32) < (b[0] as u32)
    } else {
        name_before(a.drop_first(), b.drop_first())
    }
}

/// `chrono_tz::TZ_VARIANTS`: every zone of the database (597 of them in this version),
/// each once, in the order of their names.
#[verifier::external_body]
fn all_timezones() -> (r: Vec<chrono_tz::Tz>)
    ensures
        r@.len() == 597,
        forall|t: chrono_tz::Tz| r@.contains(t),
        r@.no_duplicates(),
        forall|i: int, j: int|
            0 <= i < j < r@.len() ==> name_before(tz_name(#[trigger] r@[i]), tz_name(#[trigger] r@[j])),
{
    chrono_tz::TZ_VARIANTS.to_vec()
}

/// `str::to_lowercase` of std: the text in lower case (named: it follows the Unicode
/// tables).
#[verifier::external_body]
fn to_lowercase(s: &str) -> (r: String)
    ensures
        r@ == lowercase(s@),
{
    s.to_lowercase()
}

/// The zone's current offset from UTC in seconds (`Utc::now()` in the zone, its offset's
/// `local_minus_utc`). It depends on the clock; chrono keeps every fixed offset strictly
/// within a day, which is what is stated.
#[verifier::external_body]
pub fn get_utc_offset_seconds(tz: chrono_tz::Tz) -> (r: i32)
    ensures
        -86400 < r < 86400,
{
    chrono::Utc::now().with_timezone(&tz).offset().fix().local_minus_utc()
}

/// The zone's current abbreviation, such as "EST" or "UTC" (`Utc::now()` in the zone,
/// formatted with `%Z`). It depends on the clock; nothing is stated of it.
#[verifier::external_body]
pub fn get_timezone_abbreviation(tz: chrono_tz::Tz) -> (r: String) {
    chrono::Utc::now().with_timezone(&tz).format("%Z").to_string()
}

/// The IANA names of the common zones, shown first in the picker.
pub open spec fn common_timezone_names() -> Seq<Seq<char>> {
    seq![
        "UTC"@,
        "America/New_York"@,
        "America/Chicago"@,
        "America/Denver"@,
        "America/Los_Angeles"@,
        "America/Anchorage"@,
        "Pacific/Honolulu"@,
        "Europe/London"@,
        "Europe/Paris"@,
        "Europe/Berlin"@,
        "Europe/Moscow"@,
        "Asia/Tokyo"@,
        "Asia/Shanghai"@,
        "Asia/Kolkata"@,
        "Asia/Dubai"@,
        "Asia/Singapore"@,
        "Australia/Sydney"@,
        "Pacific/Auckland"@,
    ]
}

/// Common timezones shown at the top of the timezone picker.
#[allow(non_snake_case)]
pub fn COMMON_TIMEZONES() -> (r: Vec<&'static str>)
    ensures
        r@.map_values(|s: &str| s@) == common_timezone_names(),
{
    let r = vec![
        "UTC",
        "America/New_York",
        "America/Chicago",
        "America/Denver",
        "America/Los_Angeles",
        "America/Anchorage",
        "Pacific/Honolulu",
        "Europe/London",
        "Europe/Paris",
        "Europe/Berlin",
        "Europe/Moscow",
        "Asia/Tokyo",
        "Asia/Shanghai",
        "Asia/Kolkata",
        "Asia/Dubai",
        "Asia/Singapore",
        "Australia/Sydney",
        "Pacific/Auckland",
    ];
    assert(r@.map_values(|s: &str| s@) =~= common_timezone_names());
    r
}

/// A zone's display text: its IANA name; or that name, or its abbreviation, followed by
/// its offset in brackets, as in "America/New_York (UTC-05:00)".
pub open spec fn timezone_text(
    name: Seq<char>,
    abbrev: Seq<char>,
    offset: int,
    format: TimezoneDisplayFormat,
) -> Seq<char> {
    match format {
        TimezoneDisplayFormat::IanaName => name,
        TimezoneDisplayFormat::IanaNameWithOffset => name + seq![' ', '('] + utc_offset_text(offset)
            + seq![')'],
        TimezoneDisplayFormat::AbbreviationWithOffset => abbrev + seq![' ', '('] + utc_offset_text(
            offset,
        ) + seq![')'],
    }
}

/// The display text of a zone with the given name, abbreviation and offset.
pub fn timezone_display_text(
    name: &str,
    abbrev: &str,
    offset_seconds: i32,
    format: TimezoneDisplayFormat,
) -> (r: String)
    requires
        offset_seconds != i32::MIN,
    ensures
        r@ == timezone_text(name@, abbrev@, offset_seconds as int, format),
{
    proof {
        reveal_strlit(" (");
        reveal_strlit(")");
    }
    match format {
        TimezoneDisplayFormat::IanaName => owned(name),
        TimezoneDisplayFormat::IanaNameWithOffset => {
            let mut s = owned(name);
            s.append(" (");
            let off = format_utc_offset(offset_seconds);
            s.append(off.as_str());
            s.append(")");
            s
        },
        TimezoneDisplayFormat::AbbreviationWithOffset => {
            let mut s = owned(abbrev);
            s.append(" (");
            let off = format_utc_offset(offset_seconds);
            s.append(off.as_str());
            s.append(")");
            s
        },
    }
}

/// Whether `text` displays zone `tz` in `format` for some current offset (within a day)
/// and abbreviation.
pub open spec fn displays(tz: chrono_tz::Tz, format: TimezoneDisplayFormat, text: Seq<char>) -> bool {
    exists|o: int, a: Seq<char>|
        -86400 < o < 86400 && text == #[trigger] timezone_text(tz_name(tz), a, o, format)
}

/// Format a timezone for display, with its current offset (and abbreviation).
pub fn format_timezone(tz: chrono_tz::Tz, format: TimezoneDisplayFormat) -> (r: String)
    ensures
        displays(tz, format, r@),
        format == TimezoneDisplayFormat::IanaName ==> r@ == tz_name(tz),
{
    let name = name_of(tz);
    let offset = get_utc_offset_seconds(tz);
    let abbrev = match format {
        TimezoneDisplayFormat::AbbreviationWithOffset => get_timezone_abbreviation(tz),
        _ => String::new(),
    };
    let r = timezone_display_text(name, abbrev.as_str(), offset, format);
    proof {
        assert(r@ == timezone_text(tz_name(tz), abbrev@, offset as int, format));
    }
    r
}

/// The zones that the common names parse to, in order.
pub open spec fn parsed_zones(names: Seq<Seq<char>>) -> Seq<chrono_tz::Tz>
    decreases names.len(),
{
    if names.len() == 0 {
        Seq::empty()
    } else {
        let prev = parsed_zones(names.drop_last());
        match tz_parsed(names.last()) {
            Some(t) => prev.push(t),
            None => prev,
        }
    }
}

/// A timezone picker model as a value: its zones, display format, and display texts.
pub struct TimezoneModelState {
    pub zones: Seq<chrono_tz::Tz>,
    pub format: TimezoneDisplayFormat,
    pub texts: Seq<Seq<char>>,
}

/// Each text displays its zone in the format.
pub open spec fn texts_ok(zones: Seq<chrono_tz::Tz>, format: TimezoneDisplayFormat, texts: Seq<Seq<char>>) -> bool {
    &&& texts.len() == zones.len()
    &&& forall|i: int| 0 <= i < zones.len() ==> displays(zones[i], format, #[trigger] texts[i])
}

/// A picker model of time zones: all zones of the database (or only the common ones), the
/// common ones first, each with its display text.
#[derive(Debug)]
pub struct TimezoneComboModel {
    timezones: Vec<chrono_tz::Tz>,
    display_format: TimezoneDisplayFormat,
    display_cache: Vec<String>,
}

impl View for TimezoneComboModel {
    type V = TimezoneModelState;

    closed spec fn view(&self) -> TimezoneModelState {
        TimezoneModelState {
            zones: self.timezones@,
            format: self.display_format,
            texts: self.display_cache@.map_values(|s: String| s@),
        }
    }
}

/// The parsed common zones.
fn parse_common() -> (r: Vec<chrono_tz::Tz>)
    ensures
        r@ == parsed_zones(common_timezone_names()),
{
    let names = COMMON_TIMEZONES();
    let ghost ns = names@.map_values(|s: &str| s@);
    let mut r: Vec<chrono_tz::Tz> = Vec::new();
    let mut i: usize = 0;
    proof {
        assert(ns.take(0) =~= Seq::<Seq<char>>::empty());
    }
    while i < names.len()
        invariant
            ns == names@.map_values(|s: &str| s@),
            ns == common_timezone_names(),
            i <= names@.len(),
            r@ == parsed_zones(ns.take(i as int)),
        decreases names.len() - i,
    {
        proof {
            assert(ns.take(i + 1).drop_last() =~= ns.take(i as int));
            assert(ns.take(i + 1).last() == names@[i as int]@);
        }
        match parse_tz(names[i]) {
            Some(t) => r.push(t),
            None => {},
        }
        i = i + 1;
    }
    proof {
        assert(ns.take(names@.len() as int) =~= ns);
    }
    r
}

/// Whether a name is one of the common ones.
fn is_common_name(name: &str) -> (r: bool)
    ensures
        r == common_timezone_names().contains(name@),
{
    let names = COMMON_TIMEZONES();
    let ghost ns = names@.map_values(|s: &str| s@);
    let mut i: usize = 0;
    while i < names.len()
        invariant
            ns == names@.map_values(|s: &str| s@),
            ns == common_timezone_names(),
            i <= names@.len(),
            forall|k: int| 0 <= k < i ==> ns[k] != name@,
        decreases names.len() - i,
    {
        if same_text(names[i], name) {
            assert(ns[i as int] == name@);
            return true;
        }
        i = i + 1;
    }
    false
}

/// A copy of a list of zones.
fn copy_zones(zones: &Vec<chrono_tz::Tz>) -> (r: Vec<chrono_tz::Tz>)
    ensures
        r@ == zones@,
{
    let mut r: Vec<chrono_tz::Tz> = Vec::new();
    let mut i: usize = 0;
    while i < zones.len()
        invariant
            i <= zones@.len(),
            r@ == zones@.take(i as int),
        decreases zones.len() - i,
    {
        r.push(zones[i]);
        i = i + 1;
        proof {
            assert(r@ =~= zones@.take(i as int));
        }
    }
    proof {
        assert(zones@.take(zones@.len() as int) =~= zones@);
    }
    r
}

/// The display texts of the zones.
fn display_texts(zones: &Vec<chrono_tz::Tz>, format: TimezoneDisplayFormat) -> (r: Vec<String>)
    ensures
        texts_ok(zones@, format, r@.map_values(|s: String| s@)),
{
    let mut r: Vec<String> = Vec::new();
    let mut i: usize = 0;
    while i < zones.len()
        invariant
            i <= zones@.len(),
            r@.len() == i,
            forall|k: int| 0 <= k < i ==> displays(zones@[k], format, #[trigger] r@[k]@),
        decreases zones.len() - i,
    {
        let t = format_timezone(zones[i], format);
        r.push(t);
        i = i + 1;
    }
    proof {
        let texts = r@.map_values(|s: String| s@);
        assert forall|k: int| 0 <= k < zones@.len() implies displays(zones@[k], format, #[trigger] texts[k]) by {
            assert(texts[k] == r@[k]@);
        }
    }
    r
}

impl TimezoneComboModel {
    #[verifier::type_invariant]
    spec fn inv(self) -> bool {
        self.display_cache@.len() == self.timezones@.len()
    }

    /// A model of all zones in the default (IANA name) format, the common ones first.
    pub fn new() -> (r: Self)
        ensures
            r@.format == TimezoneDisplayFormat::IanaName,
            r@.zones.take(parsed_zones(common_timezone_names()).len() as int) == parsed_zones(
                common_timezone_names(),
            ),
            r@.zones.len() >= parsed_zones(common_timezone_names()).len(),
            forall|i: int|
                parsed_zones(common_timezone_names()).len() <= i < r@.zones.len()
                    ==> !common_timezone_names().contains(tz_name(#[trigger] r@.zones[i])),
            forall|t: chrono_tz::Tz|
                !common_timezone_names().contains(#[trigger] tz_name(t)) ==> r@.zones.skip(
                    parsed_zones(common_timezone_names()).len() as int,
                ).contains(t),
            r@.zones.skip(parsed_zones(common_timezone_names()).len() as int).no_duplicates(),
            forall|i: int, j: int|
                parsed_zones(common_timezone_names()).len() <= i < j < r@.zones.len() ==> name_before(
                    tz_name(#[trigger] r@.zones[i]),
                    tz_name(#[trigger] r@.zones[j]),
                ),
            texts_ok(r@.zones, r@.format, r@.texts),
    {
        TimezoneComboModel::with_format(TimezoneDisplayFormat::IanaName)
    }

    /// A model of all zones: the common ones first (those that parse), then every other
    /// zone of the database whose name is not a common one; texts in `format`.
    pub fn with_format(format: TimezoneDisplayFormat) -> (r: Self)
        ensures
            r@.format == format,
            r@.zones.take(parsed_zones(common_timezone_names()).len() as int) == parsed_zones(
                common_timezone_names(),
            ),
            r@.zones.len() >= parsed_zones(common_timezone_names()).len(),
            forall|i: int|
                parsed_zones(common_timezone_names()).len() <= i < r@.zones.len()
                    ==> !common_timezone_names().contains(tz_name(#[trigger] r@.zones[i])),
            forall|t: chrono_tz::Tz|
                !common_timezone_names().contains(#[trigger] tz_name(t)) ==> r@.zones.skip(
                    parsed_zones(common_timezone_names()).len() as int,
                ).contains(t),
            r@.zones.skip(parsed_zones(common_timezone_names()).len() as int).no_duplicates(),
            forall|i: int, j: int|
                parsed_zones(common_timezone_names()).len() <= i < j < r@.zones.len() ==> name_before(
                    tz_name(#[trigger] r@.zones[i]),
                    tz_name(#[trigger] r@.zones[j]),
                ),
            texts_ok(r@.zones, r@.format, r@.texts),
    {
        let mut timezones = parse_common();
        let ghost common = timezones@;
        let all = all_timezones();
        let mut i: usize = 0;
        while i < all.len()
            invariant
                i <= all@.len(),
                all@.no_duplicates(),
                forall|t: chrono_tz::Tz| all@.contains(t),
                timezones@.len() >= common.len(),
                timezones@.take(common.len() as int) == common,
                forall|k: int|
                    common.len() <= k < timezones@.len() ==> !common_timezone_names().contains(
                        tz_name(#[trigger] timezones@[k]),
                    ),
                forall|k: int|
                    0 <= k < i && !common_timezone_names().contains(tz_name(#[trigger] all@[k]))
                        ==> timezones@.skip(common.len() as int).contains(all@[k]),
                forall|k: int|
                    common.len() <= k < timezones@.len() ==> exists|j: int|
                        0 <= j < i && all@[j] == #[trigger] timezones@[k],
                timezones@.skip(common.len() as int).no_duplicates(),
                forall|a: int, b: int|
                    0 <= a < b < all@.len() ==> name_before(tz_name(#[trigger] all@[a]), tz_name(#[trigger] all@[b])),
                forall|a: int, b: int|
                    common.len() <= a < b < timezones@.len() ==> name_before(
                        tz_name(#[trigger] timezones@[a]),
                        tz_name(#[trigger] timezones@[b]),
                    ),
            decreases all.len() - i,
        {
            let tz = all[i];
            let name = name_of(tz);
            if !is_common_name(name) {
                let ghost before = timezones@;
                timezones.push(tz);
                proof {
                    let c = common.len() as int;
                    assert(timezones@.take(c) =~= before.take(c));
                    assert(timezones@.skip(c) =~= before.skip(c).push(tz));
                    assert(timezones@.skip(c).last() == tz);
                    assert forall|k: int| 0 <= k < i + 1 && !common_timezone_names().contains(
                        tz_name(#[trigger] all@[k]),
                    ) implies timezones@.skip(c).contains(all@[k]) by {
                        if k < i {
                            let w = choose|w: int| 0 <= w < before.skip(c).len() && before.skip(c)[w] == all@[k];
                            assert(timezones@.skip(c)[w] == all@[k]);
                        } else {
                            assert(timezones@.skip(c)[timezones@.skip(c).len() - 1] == all@[k]);
                        }
                    }
                    assert forall|k: int| c <= k < timezones@.len() implies exists|j: int|
                        0 <= j < i + 1 && all@[j] == #[trigger] timezones@[k] by {
                        if k < timezones@.len() - 1 {
                            assert(timezones@[k] == before[k]);
                            let j = choose|j: int| 0 <= j < i && all@[j] == before[k];
                            assert(all@[j] == timezones@[k]);
                        } else {
                            assert(all@[i as int] == timezones@[k]);
                        }
                    }
                    assert forall|a: int, b: int|
                        c <= a < b < timezones@.len() implies name_before(
                        tz_name(#[trigger] timezones@[a]),
                        tz_name(#[trigger] timezones@[b]),
                    ) by {
                        if b == timezones@.len() - 1 {
                            assert(timezones@[a] == before[a]);
                            let j = choose|j: int| 0 <= j < i && all@[j] == #[trigger] before[a];
                            assert(name_before(tz_name(all@[j]), tz_name(all@[i as int])));
                        } else {
                            assert(timezones@[a] == before[a]);
                            assert(timezones@[b] == before[b]);
                        }
                    }
                    assert forall|a: int, b: int|
                        0 <= a < b < timezones@.skip(c).len() implies timezones@.skip(c)[a]
                        != timezones@.skip(c)[b] by {
                        if b == timezones@.skip(c).len() - 1 {
                            let j = choose|j: int| 0 <= j < i && all@[j] == #[trigger] timezones@[c + a];
                            assert(timezones@[c + a] == before[c + a]);
                            assert(all@[j] != all@[i as int]);
                        } else {
                            assert(timezones@.skip(c)[a] == before.skip(c)[a]);
                            assert(timezones@.skip(c)[b] == before.skip(c)[b]);
                        }
                    }
                }
            }
            i = i + 1;
        }
        proof {
            let c = common.len() as int;
            assert forall|t: chrono_tz::Tz| !common_timezone_names().contains(#[trigger] tz_name(t))
                implies timezones@.skip(c).contains(t) by {
                assert(all@.contains(t));
                let k = choose|k: int| 0 <= k < all@.len() && all@[k] == t;
                assert(!common_timezone_names().contains(tz_name(all@[k])));
            }
        }
        let display_cache = display_texts(&timezones, format);
        TimezoneComboModel { timezones, display_format: format, display_cache }
    }

    /// A model of the common zones only, in the default format.
    pub fn common_only() -> (r: Self)
        ensures
            r@.format == TimezoneDisplayFormat::IanaName,
            r@.zones == parsed_zones(common_timezone_names()),
            texts_ok(r@.zones, r@.format, r@.texts),
    {
        TimezoneComboModel::common_only_with_format(TimezoneDisplayFormat::IanaName)
    }

    /// A model of the common zones only (those that parse), texts in `format`.
    pub fn common_only_with_format(format: TimezoneDisplayFormat) -> (r: Self)
        ensures
            r@.format == format,
            r@.zones == parsed_zones(common_timezone_names()),
            texts_ok(r@.zones, r@.format, r@.texts),
    {
        let timezones = parse_common();
        let display_cache = display_texts(&timezones, format);
        TimezoneComboModel { timezones, display_format: format, display_cache }
    }

    /// The zone at an index, if any.
    pub fn timezone(&self, index: usize) -> (r: Option<chrono_tz::Tz>)
        ensures
            r == (if index < self@.zones.len() {
                Some(self@.zones[index as int])
            } else {
                None
            }),
    {
        if index < self.timezones.len() {
            Some(self.timezones[index])
        } else {
            None
        }
    }

    /// The first index of a zone, if the model has it.
    pub fn find_timezone(&self, tz: chrono_tz::Tz) -> (r: Option<usize>)
        ensures
            match r {
                Some(i) => i < self@.zones.len() && self@.zones[i as int] == tz && forall|k: int|
                    0 <= k < i ==> self@.zones[k] != tz,
                None => forall|k: int| 0 <= k < self@.zones.len() ==> self@.zones[k] != tz,
            },
    {
        let mut i: usize = 0;
        while i < self.timezones.len()
            invariant
                i <= self@.zones.len(),
                forall|k: int| 0 <= k < i ==> self@.zones[k] != tz,
            decreases self.timezones.len() - i,
        {
            if same_tz(self.timezones[i], tz) {
                return Some(i);
            }
            i = i + 1;
        }
        None
    }

    /// The display format.
    pub fn display_format(&self) -> (r: TimezoneDisplayFormat)
        ensures
            r == self@.format,
    {
        self.display_format
    }

    /// Set the display format; a new one rebuilds the texts.
    pub fn set_display_format(&mut self, format: TimezoneDisplayFormat)
        ensures
            final(self)@.zones == old(self)@.zones,
            final(self)@.format == format,
            format == old(self)@.format ==> final(self)@ == old(self)@,
            format != old(self)@.format ==> texts_ok(final(self)@.zones, format, final(self)@.texts),
    {
        if self.display_format != format {
            let cache = display_texts(&self.timezones, format);
            let zones = copy_zones(&self.timezones);
            *self = TimezoneComboModel { timezones: zones, display_format: format, display_cache: cache };
        }
    }

    /// Rebuild the texts (the current offsets may have changed).
    pub fn refresh_cache(&mut self)
        ensures
            final(self)@.zones == old(self)@.zones,
            final(self)@.format == old(self)@.format,
            texts_ok(final(self)@.zones, final(self)@.format, final(self)@.texts),
    {
        let format = self.display_format;
        let cache = display_texts(&self.timezones, format);
        let zones = copy_zones(&self.timezones);
        *self = TimezoneComboModel { timezones: zones, display_format: format, display_cache: cache };
    }

    /// The number of zones.
    pub fn row_count(&self) -> (r: usize)
        ensures
            r == self@.zones.len(),
    {
        self.timezones.len()
    }

    /// The display text at an index, if any.
    pub fn text(&self, index: usize) -> (r: Option<String>)
        ensures
            match r {
                Some(t) => index < self@.texts.len() && t@ == self@.texts[index as int],
                None => index >= self@.texts.len(),
            },
    {
        proof {
            use_type_invariant(self);
        }
        if index < self.display_cache.len() {
            Some(owned(self.display_cache[index].as_str()))
        } else {
            None
        }
    }
}


/// Whether `needle` occurs in `hay`.
pub open spec fn has_substring(hay: Seq<char>, needle: Seq<char>) -> bool {
    exists|k: int|
        0 <= k <= hay.len() - needle.len() && #[trigger] hay.subrange(k, k + needle.len())
            == needle
}

/// The characters of a text.
fn chars_of(s: &str) -> (r: Vec<char>)
    ensures
        r@ == s@,
{
    let mut r: Vec<char> = Vec::new();
    for c in it: s.chars()
        invariant
            it.seq() == s@,
            r@ == s@.take(it.index() as int),
    {
        r.push(c);
        proof {
            assert(r@ =~= s@.take(it.index() + 1));
        }
    }
    proof {
        assert(s@.take(s@.len() as int) =~= s@);
    }
    r
}

/// Whether `needle` occurs in `hay`.
fn contains_text(hay: &str, needle: &str) -> (r: bool)
    ensures
        r == has_substring(hay@, needle@),
{
    let h = chars_of(hay);
    let n = chars_of(needle);
    let hl = h.len();
    if n.len() > h.len() {
        return false;
    }
    let mut k: usize = 0;
    while k <= h.len() - n.len()
        invariant
            h@ == hay@,
            n@ == needle@,
            hl == h@.len(),
            n@.len() <= h@.len(),
            k <= h@.len() - n@.len() + 1,
            forall|j: int| 0 <= j < k ==> #[trigger] h@.subrange(j, j + n@.len()) != n@,
        decreases h.len() - n.len() + 1 - k,
    {
        let mut i: usize = 0;
        let mut same = true;
        while i < n.len()
            invariant
                h@ == hay@,
                n@ == needle@,
                hl == h@.len(),
                k + n@.len() <= h@.len(),
                i <= n@.len(),
                same == forall|j: int| 0 <= j < i ==> h@[k + j] == n@[j],
            decreases n.len() - i,
        {
            if h[k + i] != n[i] {
                same = false;
            }
            i = i + 1;
        }
        if same {
            assert(h@.subrange(k as int, k + n@.len()) =~= n@);
            return true;
        }
        proof {
            let j0 = choose|j: int| 0 <= j < n@.len() && h@[k + j] != n@[j];
            assert(h@.subrange(k as int, k + n@.len())[j0] != n@[j0]);
        }
        k = k + 1;
    }
    false
}

/// Whether zone `i` of the model matches a filter for `needle`: its display text or its
/// IANA name holds it (both lower-cased first, for a case-insensitive filter).
pub open spec fn zone_matches(s: TimezoneModelState, i: int, needle: Seq<char>, case_insensitive: bool) -> bool {
    let fold = |t: Seq<char>|
        if case_insensitive {
            lowercase(t)
        } else {
            t
        };
    has_substring(fold(s.texts[i]), fold(needle)) || has_substring(
        fold(tz_name(s.zones[i])),
        fold(needle),
    )
}

impl TimezoneComboModel {
    /// The first index whose display text is `text`, else the first whose IANA name is.
    pub fn find_text(&self, text: &str) -> (r: Option<usize>)
        ensures
            match r {
                Some(i) => i < self@.zones.len() && (self@.texts[i as int] == text@ || (forall|
                    k: int,
                | 0 <= k < self@.texts.len() ==> self@.texts[k] != text@) && tz_name(
                    self@.zones[i as int],
                ) == text@),
                None => (forall|k: int| 0 <= k < self@.texts.len() ==> self@.texts[k] != text@)
                    && forall|k: int| 0 <= k < self@.zones.len() ==> tz_name(self@.zones[k]) != text@,
            },
    {
        proof {
            use_type_invariant(self);
        }
        let mut i: usize = 0;
        while i < self.display_cache.len()
            invariant
                i <= self@.texts.len(),
                self@.texts.len() == self@.zones.len(),
                forall|k: int| 0 <= k < i ==> self@.texts[k] != text@,
            decreases self.display_cache.len() - i,
        {
            if same_text(self.display_cache[i].as_str(), text) {
                return Some(i);
            }
            i = i + 1;
        }
        let mut j: usize = 0;
        while j < self.timezones.len()
            invariant
                j <= self@.zones.len(),
                self@.texts.len() == self@.zones.len(),
                forall|k: int| 0 <= k < self@.texts.len() ==> self@.texts[k] != text@,
                forall|k: int| 0 <= k < j ==> tz_name(self@.zones[k]) != text@,
            decreases self.timezones.len() - j,
        {
            if same_text(name_of(self.timezones[j]), text) {
                return Some(j);
            }
            j = j + 1;
        }
        None
    }

    /// The indices, in order, of the zones whose display text or IANA name holds `prefix`
    /// (ignoring case when asked).
    pub fn filter(&self, prefix: &str, case_insensitive: bool) -> (r: Vec<usize>)
        ensures
            forall|k: int| 0 <= k < r@.len() ==> r@[k] < self@.zones.len() && zone_matches(
                self@,
                r@[k] as int,
                prefix@,
                case_insensitive,
            ),
            forall|a: int, b: int| 0 <= a < b < r@.len() ==> r@[a] < r@[b],
            forall|i: int|
                0 <= i < self@.zones.len() && zone_matches(self@, i, prefix@, case_insensitive)
                    ==> r@.contains(i as usize),
    {
        proof {
            use_type_invariant(self);
        }
        let needle = if case_insensitive {
            to_lowercase(prefix)
        } else {
            owned(prefix)
        };
        let mut r: Vec<usize> = Vec::new();
        let mut i: usize = 0;
        while i < self.timezones.len()
            invariant
                i <= self@.zones.len(),
                self@.texts.len() == self@.zones.len(),
                needle@ == (if case_insensitive {
                    lowercase(prefix@)
                } else {
                    prefix@
                }),
                forall|k: int| 0 <= k < r@.len() ==> r@[k] < i && zone_matches(
                    self@,
                    r@[k] as int,
                    prefix@,
                    case_insensitive,
                ),
                forall|a: int, b: int| 0 <= a < b < r@.len() ==> r@[a] < r@[b],
                forall|j: int|
                    0 <= j < i && zone_matches(self@, j, prefix@, case_insensitive) ==> r@.contains(
                        j as usize,
                    ),
            decreases self.timezones.len() - i,
        {
            let text = self.display_cache[i].as_str();
            let name = name_of(self.timezones[i]);
            let text_match = if case_insensitive {
                let t = to_lowercase(text);
                contains_text(t.as_str(), needle.as_str())
            } else {
                contains_text(text, needle.as_str())
            };
            let name_match = if case_insensitive {
                let t = to_lowercase(name);
                contains_text(t.as_str(), needle.as_str())
            } else {
                contains_text(name, needle.as_str())
            };
            proof {
                assert(self@.texts[i as int] == self.display_cache@[i as int]@);
            }
            if text_match || name_match {
                let ghost before = r@;
                r.push(i);
                proof {
                    assert forall|j: int|
                        0 <= j < i + 1 && zone_matches(self@, j, prefix@, case_insensitive)
                            implies r@.contains(j as usize) by {
                        if j < i {
                            assert(before.contains(j as usize));
                            let w = choose|x: int| 0 <= x < before.len() && before[x] == j as usize;
                            assert(r@[w] == j as usize);
                        } else {
                            assert(r@[before.len() as int] == i);
                        }
                    }
                }
            } else {
                proof {
                    assert forall|j: int|
                        0 <= j < i + 1 && zone_matches(self@, j, prefix@, case_insensitive)
                            implies r@.contains(j as usize) by {
                        if j == i {
                            assert(false);
                        }
                    }
                }
            }
            i = i + 1;
        }
        r
    }
}

impl Default for TimezoneComboModel {
    fn default() -> (r: Self)
        ensures
            r@.format == TimezoneDisplayFormat::IanaName,
            texts_ok(r@.zones, r@.format, r@.texts),
    {
        TimezoneComboModel::new()
    }
}


/// Whether `needle` occurs in `hay` at `k`.
pub open spec fn occurs_at(hay: Seq<char>, needle: Seq<char>, k: int) -> bool {
    0 <= k <= hay.len() - needle.len() && hay.subrange(k, k + needle.len()) == needle
}

/// `k` is where `needle` first occurs in `hay`.
pub open spec fn first_occurrence(hay: Seq<char>, needle: Seq<char>, k: int) -> bool {
    occurs_at(hay, needle, k) && forall|j: int| 0 <= j < k ==> !#[trigger] occurs_at(hay, needle, j)
}

/// The zone named by what follows the first "zoneinfo/" in a path, if any.
pub open spec fn zone_of_link(path: Seq<char>) -> Option<chrono_tz::Tz> {
    let needle = "zoneinfo/"@;
    if exists|k: int| #[trigger] occurs_at(path, needle, k) {
        let k = choose|k: int| first_occurrence(path, needle, k);
        tz_parsed(path.skip(k + needle.len()))
    } else {
        None
    }
}

/// Where `needle` first occurs in `hay`, if it does.
fn first_index_of(hay: &str, needle: &str) -> (r: Option<usize>)
    ensures
        match r {
            Some(k) => first_occurrence(hay@, needle@, k as int),
            None => forall|k: int| !#[trigger] occurs_at(hay@, needle@, k),
        },
{
    let h = chars_of(hay);
    let n = chars_of(needle);
    let hl = h.len();
    if n.len() > h.len() {
        return None;
    }
    let mut k: usize = 0;
    while k <= h.len() - n.len()
        invariant
            h@ == hay@,
            n@ == needle@,
            hl == h@.len(),
            n@.len() <= h@.len(),
            k <= h@.len() - n@.len() + 1,
            forall|j: int| 0 <= j < k ==> !#[trigger] occurs_at(h@, n@, j),
        decreases h.len() - n.len() + 1 - k,
    {
        let mut i: usize = 0;
        let mut same = true;
        while i < n.len()
            invariant
                h@ == hay@,
                n@ == needle@,
                hl == h@.len(),
                k + n@.len() <= h@.len(),
                i <= n@.len(),
                same == forall|j: int| 0 <= j < i ==> h@[k + j] == n@[j],
            decreases n.len() - i,
        {
            if h[k + i] != n[i] {
                same = false;
            }
            i = i + 1;
        }
        if same {
            assert(h@.subrange(k as int, k + n@.len()) =~= n@);
            return Some(k);
        }
        proof {
            let j0 = choose|j: int| 0 <= j < n@.len() && h@[k + j] != n@[j];
            assert(h@.subrange(k as int, k + n@.len())[j0] != n@[j0]);
        }
        k = k + 1;
    }
    None
}

proof fn lemma_first_occurrence_unique(hay: Seq<char>, needle: Seq<char>, k: int)
    requires
        first_occurrence(hay, needle, k),
    ensures
        (choose|j: int| first_occurrence(hay, needle, j)) == k,
{
    let q = choose|j: int| first_occurrence(hay, needle, j);
    assert(first_occurrence(hay, needle, q));
    if q < k {
        assert(occurs_at(hay, needle, q));
    } else if k < q {
        assert(occurs_at(hay, needle, k));
    }
}

/// The local zone, from the `TZ` variable's value if it names a zone, else from the
/// target of the `/etc/localtime` link (what follows "zoneinfo/" in it), if either is
/// given and names a zone.
pub fn local_timezone_from(tz_var: Option<&str>, localtime_link: Option<&str>) -> (r: Option<chrono_tz::Tz>)
    ensures
        r == (match tz_var {
            Some(n) if tz_parsed(n@) is Some => tz_parsed(n@),
            _ => match localtime_link {
                Some(p) => zone_of_link(p@),
                None => None,
            },
        }),
{
    match tz_var {
        Some(n) => {
            match parse_tz(n) {
                Some(t) => {
                    return Some(t);
                },
                None => {},
            }
        },
        None => {},
    }
    match localtime_link {
        Some(p) => {
            proof {
                reveal_strlit("zoneinfo/");
            }
            let total = vstd::string::StrSliceExecFns::unicode_len(p);
            match first_index_of(p, "zoneinfo/") {
                Some(k) => {
                    proof {
                        lemma_first_occurrence_unique(p@, "zoneinfo/"@, k as int);
                        assert(occurs_at(p@, "zoneinfo/"@, k as int));
                        assert(k + 9 <= total);
                    }
                    let rest = vstd::string::StrSliceExecFns::substring_char(p, k + 9, total);
                    proof {
                        assert(rest@ =~= p@.skip(k + 9));
                    }
                    parse_tz(rest)
                },
                None => None,
            }
        },
        None => None,
    }
}

} // verus!
