use roxlit::events::UpdateInfo;
use roxlit::timefmt::{format_timestamp, is_leap, now_unix, parse_iso8601_to_unix, unix_timestamp};
use roxlit::update::{check_due, evaluate_release, ReleaseInfo};
use roxlit::version::{is_newer_version, parse_version_triple, strip_v_prefix};

#[test]
fn test_parse_iso8601() {
    let ts = parse_iso8601_to_unix("2025-01-01T00:00:00Z").unwrap();
    // 2025-01-01 00:00:00 UTC
    assert_eq!(ts, 1735689600);
}

#[test]
fn test_version_comparison() {
    assert!(is_newer_version("0.1.0", "0.2.0"));
    assert!(is_newer_version("0.1.0", "1.0.0"));
    assert!(is_newer_version("1.0.0", "1.0.1"));
    assert!(!is_newer_version("0.2.0", "0.1.0"));
    assert!(!is_newer_version("0.1.0", "0.1.0"));
    assert!(is_newer_version("v0.1.0", "v0.2.0"));
}

#[test]
fn parse_iso8601_trims_whitespace() {
    assert_eq!(
        parse_iso8601_to_unix("  2025-01-01T00:00:00Z \n"),
        Some(1735689600)
    );
}

#[test]
fn parse_iso8601_rejects_bad_input() {
    assert_eq!(parse_iso8601_to_unix("2025-01-01"), None);
    assert_eq!(parse_iso8601_to_unix("2025-01-01T00:00:00"), None);
    assert_eq!(parse_iso8601_to_unix("2025-13-01T00:00:00Z"), None);
    assert_eq!(parse_iso8601_to_unix("2025-00-01T00:00:00Z"), None);
    assert_eq!(parse_iso8601_to_unix("20xx-01-01T00:00:00Z"), None);
    assert_eq!(parse_iso8601_to_unix(""), None);
}

#[test]
fn format_timestamp_exact() {
    assert_eq!(format_timestamp(1735689600), "2025-01-01T00:00:00Z");
    assert_eq!(format_timestamp(0), "1970-01-01T00:00:00Z");
    // 2024-02-29 12:34:56 UTC, a leap day
    assert_eq!(format_timestamp(1709210096), "2024-02-29T12:34:56Z");
}

#[test]
fn format_then_parse_round_trips() {
    // the two directions agree exactly, leap years included
    for &t in &[0u64, 1735689600, 1709210096, 951827696, 63072000, 4102444799, 253402300799] {
        let text = format_timestamp(t);
        assert_eq!(parse_iso8601_to_unix(&text), Some(t as i64));
    }
}

#[test]
fn parse_iso8601_leap_year_dates() {
    // 1972-01-01, the first leap year after the epoch
    assert_eq!(parse_iso8601_to_unix("1972-01-01T00:00:00Z"), Some(63072000));
    // 2024-02-29 12:34:56
    assert_eq!(parse_iso8601_to_unix("2024-02-29T12:34:56Z"), Some(1709210096));
    // 2024-06-01 12:34:56, after the leap day
    assert_eq!(parse_iso8601_to_unix("2024-06-01T12:34:56Z"), Some(1717245296));
}

#[test]
fn leap_year_rule() {
    assert!(is_leap(2024));
    assert!(!is_leap(2025));
    assert!(!is_leap(1900));
    assert!(is_leap(2000));
}

#[test]
fn version_triples_skip_unreadable_segments() {
    assert_eq!(parse_version_triple("1.2.3"), (1, 2, 3));
    assert_eq!(parse_version_triple("v1.2"), (1, 2, 0));
    assert_eq!(parse_version_triple("1"), (1, 0, 0));
    // the third segment is the whole remainder, unreadable here
    assert_eq!(parse_version_triple("1.2.3.4"), (1, 2, 0));
    assert_eq!(parse_version_triple("0.2.0-rc"), (0, 2, 0));
    assert_eq!(parse_version_triple("1.x.2"), (1, 2, 0));
    assert_eq!(parse_version_triple(""), (0, 0, 0));
}

#[test]
fn strip_v_prefix_strips_all_leading_vs() {
    assert_eq!(strip_v_prefix("v1.2.3"), "1.2.3");
    assert_eq!(strip_v_prefix("vv2"), "2");
    assert_eq!(strip_v_prefix("1.0"), "1.0");
}

#[test]
fn clock_is_sane() {
    let t = unix_timestamp();
    assert!(t > 1_600_000_000);
    assert!(now_unix() > 1_600_000_000);
}

fn release(tag: &str, published_at: &str) -> ReleaseInfo {
    ReleaseInfo {
        draft: false,
        prerelease: false,
        tag_name: tag.to_string(),
        published_at: published_at.to_string(),
        html_url: "https://example.test/releases/latest".to_string(),
        body: "notes".to_string(),
    }
}

#[test]
fn release_accepted_when_newer_and_cooled() {
    // published 2025-01-01, evaluated 10 days later
    let now = 1735689600 + 10 * 24 * 3600;
    let r = evaluate_release("0.1.0", None, None, now, &release("v0.2.0", "2025-01-01T00:00:00Z"));
    let u: UpdateInfo = r.expect("release should be offered");
    assert_eq!(u.version, "0.2.0");
    assert_eq!(u.published_at, "2025-01-01T00:00:00Z");
    assert_eq!(u.body, "notes");
}

#[test]
fn release_rejected_cases() {
    let now = 1735689600 + 10 * 24 * 3600;
    let mut d = release("v0.2.0", "2025-01-01T00:00:00Z");
    d.draft = true;
    assert!(evaluate_release("0.1.0", None, None, now, &d).is_none());

    let mut p = release("v0.2.0", "2025-01-01T00:00:00Z");
    p.prerelease = true;
    assert!(evaluate_release("0.1.0", None, None, now, &p).is_none());

    // dismissed version matches, with differing v prefixes
    let r = release("v0.2.0", "2025-01-01T00:00:00Z");
    assert!(evaluate_release("0.1.0", Some("0.2.0"), None, now, &r).is_none());

    // not newer
    assert!(evaluate_release("0.2.0", None, None, now, &r).is_none());

    // still cooling: published one day ago, default cooling is seven days
    let now_early = 1735689600 + 24 * 3600;
    assert!(evaluate_release("0.1.0", None, None, now_early, &r).is_none());

    // custom cooling of zero days lets it through at once
    assert!(evaluate_release("0.1.0", None, Some(0), now_early, &r).is_some());

    // unreadable publication date: never offered
    let bad = release("v0.2.0", "yesterday");
    assert!(evaluate_release("0.1.0", None, None, now, &bad).is_none());
}

#[test]
fn check_due_rate_limit() {
    let now = 1735689600 + 2 * 24 * 3600;
    // checked two days ago: due again
    assert!(check_due(Some("2025-01-01T00:00:00Z"), now));
    // checked an hour ago: not due
    assert!(!check_due(Some("2025-01-03T00:00:00Z"), now + 3600));
    // never checked, or unreadable record: due
    assert!(check_due(None, now));
    assert!(check_due(Some("not a date"), now));
}
