use igc_downloader::date::CalendarDate;
use igc_downloader::url_utils::{extract_url_info, DailyUrlInfo, UrlError, UrlInfo, UrlParts};

/// Builds the library's URL parts from a URL string, as the I/O layer does.
fn parts_from(url_str: &str) -> UrlParts {
    let u = url::Url::parse(url_str).expect("test URL must parse");
    UrlParts {
        scheme: u.scheme().to_string(),
        host: u.host_str().unwrap_or("").to_string(),
        segments: match u.path_segments() {
            Some(it) => it.map(|seg| seg.to_string()).collect(),
            None => Vec::new(),
        },
    }
}

fn classify(url_str: &str) -> Result<UrlInfo, UrlError> {
    extract_url_info(&parts_from(url_str), false)
}

#[test]
fn test_extract_url_info() {
    // Valid daily results URL
    let info = classify(
        "https://www.soaringspot.com/en_gb/39th-fai-world-gliding-championships-tabor-2025/results/club/task-10-on-2025-06-19/daily",
    )
    .unwrap();
    match info {
        UrlInfo::Daily(d) => {
            assert_eq!(d.competition, "39th-fai-world-gliding-championships-tabor-2025");
            assert_eq!(d.class, "club");
            assert_eq!(d.date, CalendarDate { year: 2025, month: 6, day: 19 });
            assert_eq!(d.task_number, 10);
        }
        other => panic!("expected Daily, got {:?}", other),
    }

    // Different class
    let info = classify(
        "https://www.soaringspot.com/en_gb/competition/results/standard/task-5-on-2024-07-15/daily",
    )
    .unwrap();
    match info {
        UrlInfo::Daily(d) => {
            assert_eq!(d.competition, "competition");
            assert_eq!(d.class, "standard");
            assert_eq!(d.date, CalendarDate { year: 2024, month: 7, day: 15 });
            assert_eq!(d.task_number, 5);
        }
        other => panic!("expected Daily, got {:?}", other),
    }

    // Competition URL
    let info = classify("https://www.soaringspot.com/en_gb/test").unwrap();
    assert_eq!(info, UrlInfo::Competition { competition: "test".to_string() });

    // Class URL
    let info = classify("https://www.soaringspot.com/en_gb/test/results/club").unwrap();
    assert_eq!(
        info,
        UrlInfo::Class { competition: "test".to_string(), class: "club".to_string() }
    );

    // All competition results URL
    let info = classify("https://www.soaringspot.com/en_gb/test/results").unwrap();
    assert_eq!(info, UrlInfo::Competition { competition: "test".to_string() });

    // Without www prefix and with HTTP scheme
    let info = classify("http://soaringspot.com/en_gb/test/results").unwrap();
    assert_eq!(info, UrlInfo::Competition { competition: "test".to_string() });

    // Error cases
    let err = classify("ftp://www.soaringspot.com/en_gb").unwrap_err();
    assert_eq!(err, UrlError::InvalidScheme);
    assert_eq!(err.message(), "URL must use HTTP or HTTPS scheme");

    let err = classify("https://www.google.com").unwrap_err();
    assert_eq!(err, UrlError::InvalidHost);
    assert_eq!(
        err.message(),
        "URL must be from soaringspot.com or www.soaringspot.com"
    );

    let err = classify("https://www.soaringspot.com/en_gb").unwrap_err();
    assert_eq!(err, UrlError::MissingCompetitionSegment);
    assert_eq!(err.message(), "URL must contain competition name");

    let err =
        classify("https://www.soaringspot.com/en_gb/test/invalid/club/task-1-on-2025-01-01/daily")
            .unwrap_err();
    assert_eq!(err, UrlError::UnsupportedUrlShape);
    assert_eq!(err.message(), "Unsupported URL format");

    let err =
        classify("https://www.soaringspot.com/en_gb/test/results/club/invalid-format").unwrap_err();
    assert_eq!(err, UrlError::MalformedTaskSegment);
    assert_eq!(err.message(), "Unsupported URL format");

    let err = classify("https://www.soaringspot.com/en_gb/test/results/club/task-1-on-invalid-date")
        .unwrap_err();
    match &err {
        UrlError::InvalidDate { text, .. } => assert_eq!(text, "invalid-date"),
        other => panic!("expected InvalidDate, got {:?}", other),
    }
    assert!(err.message().contains("Failed to parse date 'invalid-date':"));
}

#[test]
fn test_daily_url_info_to_daily_url() {
    let daily_info = DailyUrlInfo {
        competition: "39th-fai-world-gliding-championships-tabor-2025".to_string(),
        class: "club".to_string(),
        date: CalendarDate { year: 2025, month: 6, day: 19 },
        task_number: 10,
    };
    assert_eq!(
        daily_info.to_daily_url(),
        "https://www.soaringspot.com/en_gb/39th-fai-world-gliding-championships-tabor-2025/results/club/task-10-on-2025-06-19/daily"
    );

    let daily_info = DailyUrlInfo {
        competition: "test-competition".to_string(),
        class: "standard".to_string(),
        date: CalendarDate { year: 2024, month: 12, day: 1 },
        task_number: 5,
    };
    assert_eq!(
        daily_info.to_daily_url(),
        "https://www.soaringspot.com/en_gb/test-competition/results/standard/task-5-on-2024-12-01/daily"
    );
}

#[test]
fn test_url_roundtrip() {
    let original_url = "https://www.soaringspot.com/en_gb/39th-fai-world-gliding-championships-tabor-2025/results/club/task-10-on-2025-06-19/daily";
    let url_info = classify(original_url).unwrap();

    if let UrlInfo::Daily(daily_info) = url_info {
        let generated_url = daily_info.to_daily_url();
        assert_eq!(generated_url, original_url);
    } else {
        panic!("Expected Daily variant");
    }
}

#[test]
fn test_task_number_errors() {
    let err = classify("https://www.soaringspot.com/en_gb/test/results/club/task-xx-on-2025-01-01")
        .unwrap_err();
    assert_eq!(
        err.message(),
        "Failed to parse task number 'xx': invalid digit found in string"
    );

    let err = classify(
        "https://www.soaringspot.com/en_gb/test/results/club/task-99999999999-on-2025-01-01",
    )
    .unwrap_err();
    assert_eq!(
        err.message(),
        "Failed to parse task number '99999999999': number too large to fit in target type"
    );

    let err = classify("https://www.soaringspot.com/en_gb/test/results/club/task--on-2025-01-01")
        .unwrap_err();
    assert_eq!(
        err.message(),
        "Failed to parse task number '': cannot parse integer from empty string"
    );
}

#[test]
fn test_calendar_date_validation() {
    // A leap day parses in a leap year and is rejected otherwise.
    let info = classify("https://www.soaringspot.com/en_gb/test/results/club/task-1-on-2024-02-29")
        .unwrap();
    match info {
        UrlInfo::Daily(d) => assert_eq!(d.date, CalendarDate { year: 2024, month: 2, day: 29 }),
        other => panic!("expected Daily, got {:?}", other),
    }

    let err = classify("https://www.soaringspot.com/en_gb/test/results/club/task-1-on-2023-02-29")
        .unwrap_err();
    assert!(err.message().contains("day is out of range for the month"));

    let err = classify("https://www.soaringspot.com/en_gb/test/results/club/task-1-on-2023-13-01")
        .unwrap_err();
    assert!(err.message().contains("month must be between 01 and 12"));

    let err = classify("https://www.soaringspot.com/en_gb/test/results/club/task-1-on-2023x01-01")
        .unwrap_err();
    assert!(err.message().contains("expected '-' separators in YYYY-MM-DD form"));

    let err = classify("https://www.soaringspot.com/en_gb/test/results/club/task-1-on-2023-0a-01")
        .unwrap_err();
    assert!(err.message().contains("expected decimal digits in YYYY-MM-DD form"));
}

#[test]
fn test_edge_shapes() {
    // An empty competition slug is as missing as an absent one.
    let err = classify("https://www.soaringspot.com/en_gb//results").unwrap_err();
    assert_eq!(err, UrlError::MissingCompetitionSegment);

    // A trailing slash behind `results` leaves an empty class segment,
    // which collapses to the competition form.
    let info = classify("https://www.soaringspot.com/en_gb/test/results/").unwrap();
    assert_eq!(info, UrlInfo::Competition { competition: "test".to_string() });

    // The largest task number that fits still parses.
    let info = classify(
        "https://www.soaringspot.com/en_gb/test/results/club/task-4294967295-on-2025-01-01/daily",
    )
    .unwrap();
    match info {
        UrlInfo::Daily(d) => assert_eq!(d.task_number, u32::MAX),
        other => panic!("expected Daily, got {:?}", other),
    }
}

#[test]
fn test_strict_daily_suffix() {
    // Without the trailing segment the long form is accepted only when the
    // caller does not require it.
    let parts = parts_from("https://www.soaringspot.com/en_gb/test/results/club/task-3-on-2025-05-01");
    assert!(matches!(
        extract_url_info(&parts, false),
        Ok(UrlInfo::Daily(_))
    ));
    assert_eq!(
        extract_url_info(&parts, true).unwrap_err(),
        UrlError::UnsupportedUrlShape
    );

    // A trailing segment other than `daily` is always rejected.
    let parts =
        parts_from("https://www.soaringspot.com/en_gb/test/results/club/task-3-on-2025-05-01/extra");
    assert_eq!(
        extract_url_info(&parts, false).unwrap_err(),
        UrlError::UnsupportedUrlShape
    );
}
