use igc_downloader::url_utils::{
    competition_results_url, normalize, select_daily_urls, DailyUrlInfo, UrlError, UrlInfo,
    UrlParts,
};
use igc_downloader::date::CalendarDate;

fn parts(scheme: &str, host: &str, segments: &[&str]) -> UrlParts {
    UrlParts {
        scheme: scheme.to_string(),
        host: host.to_string(),
        segments: segments.iter().map(|s| s.to_string()).collect(),
    }
}

#[test]
fn test_normalize_rewrites_scheme_host_and_locale() {
    let mut u = parts("http", "soaringspot.com", &["de", "comp", "results"]);
    assert!(normalize(&mut u).is_ok());
    assert_eq!(u.scheme, "https");
    assert_eq!(u.host, "www.soaringspot.com");
    assert_eq!(u.segments, vec!["en_gb", "comp", "results"]);
}

#[test]
fn test_normalize_idempotent_concrete() {
    let mut once = parts("http", "soaringspot.com", &["fr_fr", "comp"]);
    assert!(normalize(&mut once).is_ok());
    let mut twice = once.clone();
    assert!(normalize(&mut twice).is_ok());
    assert_eq!(once, twice);
}

#[test]
fn test_normalize_locale_overwrite() {
    // Two URLs that differ only in their locale segment normalize alike.
    let mut a = parts("https", "www.soaringspot.com", &["de", "competition-x", "results"]);
    let mut b = parts("https", "www.soaringspot.com", &["fr_fr", "competition-x", "results"]);
    assert!(normalize(&mut a).is_ok());
    assert!(normalize(&mut b).is_ok());
    assert_eq!(a, b);
    assert_eq!(a.segments[0], "en_gb");
}

#[test]
fn test_normalize_errors_leave_url_unchanged() {
    let mut u = parts("ftp", "www.soaringspot.com", &["en_gb"]);
    assert_eq!(normalize(&mut u).unwrap_err(), UrlError::InvalidScheme);
    assert_eq!(u, parts("ftp", "www.soaringspot.com", &["en_gb"]));

    let mut u = parts("https", "example.org", &["en_gb"]);
    assert_eq!(normalize(&mut u).unwrap_err(), UrlError::InvalidHost);
    assert_eq!(u, parts("https", "example.org", &["en_gb"]));

    let mut u = parts("https", "www.soaringspot.com", &[]);
    assert_eq!(normalize(&mut u).unwrap_err(), UrlError::MissingPathSegments);
    assert_eq!(u.segments.len(), 0);
}

fn daily(class: &str, task_number: u32) -> DailyUrlInfo {
    DailyUrlInfo {
        competition: "comp".to_string(),
        class: class.to_string(),
        date: CalendarDate { year: 2025, month: 6, day: 10 },
        task_number,
    }
}

#[test]
fn test_select_daily_urls() {
    let discovered = vec![daily("club", 1), daily("standard", 1), daily("club", 2)];

    // A daily URL names exactly itself.
    let info = UrlInfo::Daily(daily("club", 7));
    let picked = select_daily_urls(&info, discovered.clone());
    assert_eq!(picked.len(), 1);
    assert_eq!(picked[0].task_number, 7);

    // A class URL keeps the records of that class, in order.
    let info = UrlInfo::Class { competition: "comp".to_string(), class: "club".to_string() };
    let picked = select_daily_urls(&info, discovered.clone());
    assert_eq!(picked.len(), 2);
    assert_eq!(picked[0].task_number, 1);
    assert_eq!(picked[1].task_number, 2);

    // A competition URL keeps everything.
    let info = UrlInfo::Competition { competition: "comp".to_string() };
    let picked = select_daily_urls(&info, discovered.clone());
    assert_eq!(picked.len(), 3);
}

#[test]
fn test_competition_results_url() {
    assert_eq!(
        competition_results_url("comp-2025"),
        "https://www.soaringspot.com/en_gb/comp-2025/results"
    );
}
