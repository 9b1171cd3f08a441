use chrono_tz::Tz;
use horizon_lattice::timezone::{
    format_timezone, local_timezone_from, timezone_display_text, TimezoneComboModel, COMMON_TIMEZONES,
};
use horizon_lattice::timezone::{format_utc_offset, TimezoneDisplayFormat};

#[test]
fn test_format_utc_offset() {
    assert_eq!(format_utc_offset(0), "UTC+00:00");
    assert_eq!(format_utc_offset(3600), "UTC+01:00");
    assert_eq!(format_utc_offset(-18000), "UTC-05:00");
    assert_eq!(format_utc_offset(19800), "UTC+05:30");
    assert_eq!(format_utc_offset(-28800), "UTC-08:00");
}

#[test]
fn utc_offset_large_and_partial() {
    // Hours past two digits are written in full; leftover seconds are dropped.
    assert_eq!(format_utc_offset(360000), "UTC+100:00");
    assert_eq!(format_utc_offset(-59), "UTC-00:00");
    assert_eq!(format_utc_offset(45 * 60 + 30), "UTC+00:45");
    assert_eq!(format_utc_offset(i32::MAX), "UTC+596523:14");
}

#[test]
fn timezone_display_format_default() {
    assert_eq!(TimezoneDisplayFormat::default(), TimezoneDisplayFormat::IanaName);
}

#[test]
fn test_timezone_model_creation() {
    let model = TimezoneComboModel::new();
    assert!(model.row_count() > 0);
    assert!(model.row_count() >= COMMON_TIMEZONES().len());
}

#[test]
fn test_common_timezones_first() {
    let model = TimezoneComboModel::new();
    assert_eq!(model.timezone(0), Some(chrono_tz::UTC));
    for (i, name) in COMMON_TIMEZONES().iter().enumerate() {
        if let Ok(expected_tz) = name.parse::<Tz>() {
            assert_eq!(model.timezone(i), Some(expected_tz), "Expected {} at index {}", name, i);
        }
    }
}

#[test]
fn test_find_timezone() {
    let model = TimezoneComboModel::new();
    let idx = model.find_timezone(chrono_tz::America::New_York);
    assert!(idx.is_some());
    assert_eq!(model.timezone(idx.unwrap()), Some(chrono_tz::America::New_York));
}

#[test]
fn test_filter_timezones() {
    let model = TimezoneComboModel::new();
    let results = model.filter("America", true);
    assert!(!results.is_empty());
    for idx in results {
        let tz = model.timezone(idx).unwrap();
        assert!(
            tz.name().contains("America"),
            "Expected timezone containing 'America', got {}",
            tz.name()
        );
    }
}

#[test]
fn test_common_only_model() {
    let model = TimezoneComboModel::common_only();
    assert_eq!(model.row_count(), COMMON_TIMEZONES().len());
}

#[test]
fn test_display_formats() {
    let tz = chrono_tz::UTC;
    let iana = format_timezone(tz, TimezoneDisplayFormat::IanaName);
    assert_eq!(iana, "UTC");
    let with_offset = format_timezone(tz, TimezoneDisplayFormat::IanaNameWithOffset);
    assert!(with_offset.starts_with("UTC"));
    assert!(with_offset.contains("UTC+00:00") || with_offset.contains("(UTC"));
}

#[test]
fn display_text_of_each_format() {
    assert_eq!(
        timezone_display_text("Asia/Kolkata", "IST", 19800, TimezoneDisplayFormat::IanaNameWithOffset),
        "Asia/Kolkata (UTC+05:30)"
    );
    assert_eq!(
        timezone_display_text("America/New_York", "EST", -18000, TimezoneDisplayFormat::AbbreviationWithOffset),
        "EST (UTC-05:00)"
    );
    assert_eq!(
        timezone_display_text("Europe/Paris", "CET", 3600, TimezoneDisplayFormat::IanaName),
        "Europe/Paris"
    );
}

#[test]
fn find_text_and_case_sensitive_filter() {
    let model = TimezoneComboModel::common_only();
    assert_eq!(model.find_text("Asia/Tokyo"), Some(11));
    assert_eq!(model.find_text("Nowhere/City"), None);
    assert!(model.filter("america", false).is_empty());
    assert_eq!(model.filter("america", true).len(), 5);
    assert_eq!(model.text(0), Some("UTC".to_string()));
    assert_eq!(model.text(99), None);
}

#[test]
fn local_timezone_from_variable_or_link() {
    assert_eq!(local_timezone_from(Some("Europe/Berlin"), None), Some(chrono_tz::Europe::Berlin));
    assert_eq!(
        local_timezone_from(Some("Not/AZone"), Some("/usr/share/zoneinfo/Asia/Tokyo")),
        Some(chrono_tz::Asia::Tokyo)
    );
    assert_eq!(local_timezone_from(None, Some("/etc/other")), None);
    assert_eq!(local_timezone_from(None, None), None);
}

#[test]
fn display_format_switch_rebuilds_texts() {
    let mut model = TimezoneComboModel::common_only();
    model.set_display_format(TimezoneDisplayFormat::IanaNameWithOffset);
    assert_eq!(model.display_format(), TimezoneDisplayFormat::IanaNameWithOffset);
    assert!(model.text(0).unwrap().starts_with("UTC ("));
    model.refresh_cache();
    assert_eq!(model.row_count(), 18);
}

#[test]
fn full_model_holds_every_zone_once() {
    let model = TimezoneComboModel::new();
    assert_eq!(model.row_count(), chrono_tz::TZ_VARIANTS.len());
    for tz in chrono_tz::TZ_VARIANTS.iter() {
        assert!(model.find_timezone(*tz).is_some());
    }
    assert!(model.find_timezone(chrono_tz::Asia::Kathmandu).unwrap() >= COMMON_TIMEZONES().len());
}

#[test]
fn zones_after_the_common_ones_follow_name_order() {
    let model = TimezoneComboModel::new();
    let start = COMMON_TIMEZONES().len();
    let names: Vec<&str> = (start..model.row_count()).map(|i| model.timezone(i).unwrap().name()).collect();
    assert!(names.windows(2).all(|w| w[0] < w[1]));
}
