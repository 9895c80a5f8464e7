use igc_downloader::date::CalendarDate;
use igc_downloader::parser::{extract_download_url, parse_daily_results, parse_igc_files};

/// One flight row as the platform renders it: the download link is an
/// HTML-encoded fragment inside the cell's `data-content` attribute, so the
/// attribute text seen in the document still carries `&lt;` entities.
fn flight_cell(flight_id: &str, callsign: &str) -> String {
    format!(
        "<td data-content=\"&amp;lt;a href=&amp;quot;/en_gb/download-contest-flight/{}?dl=1&amp;quot;&amp;gt;IGC&amp;lt;/a&amp;gt;\">{}</td>",
        flight_id, callsign
    )
}

fn daily_page(rows: &[String]) -> String {
    format!("<html><body><table><tr>{}</tr></table></body></html>", rows.join("</tr><tr>"))
}

#[test]
fn test_parse_igc_files_snapshot() {
    let html = daily_page(&[flight_cell("101", "AB"), flight_cell("102", " XY ")]);
    let files = parse_igc_files(&html);

    assert_eq!(files.len(), 2);
    assert_eq!(files[0].callsign, "AB");
    assert_eq!(
        files[0].download_url,
        "https://www.soaringspot.com/en_gb/download-contest-flight/101?dl=1"
    );
    // The visible text is trimmed.
    assert_eq!(files[1].callsign, "XY");
    assert_eq!(
        files[1].download_url,
        "https://www.soaringspot.com/en_gb/download-contest-flight/102?dl=1"
    );
}

#[test]
fn test_blank_callsign_row_excluded() {
    // A well-formed encoded link whose row text is whitespace-only yields
    // no record; the qualifying row before it still does.
    let html = daily_page(&[flight_cell("7", "GG"), flight_cell("8", " \t\n ")]);
    let files = parse_igc_files(&html);
    assert_eq!(files.len(), 1);
    assert_eq!(files[0].callsign, "GG");
}

#[test]
fn test_callsign_trims_no_break_space() {
    // `&nbsp;` around the visible text is trimmed like ASCII whitespace.
    let html = daily_page(&[flight_cell("11", "&nbsp;AB&nbsp;")]);
    let files = parse_igc_files(&html);
    assert_eq!(files.len(), 1);
    assert_eq!(files[0].callsign, "AB");
}

#[test]
fn test_row_without_direct_download_marker_skipped() {
    // The decoded fragment's anchor lacks the `dl=1` marker: the row is
    // skipped without failing the page.
    let html = daily_page(&[
        "<td data-content=\"&amp;lt;a href=&amp;quot;/en_gb/download-contest-flight/9&amp;quot;&amp;gt;IGC&amp;lt;/a&amp;gt;\">ZZ</td>"
            .to_string(),
        flight_cell("10", "OK"),
    ]);
    let files = parse_igc_files(&html);
    assert_eq!(files.len(), 1);
    assert_eq!(files[0].callsign, "OK");
}

#[test]
fn test_extract_download_url_takes_first_match() {
    // Two qualifying anchors inside one decoded fragment: the first in
    // document order wins.
    let encoded = "&lt;p&gt;&lt;a href=&quot;/en_gb/download-contest-flight/1?dl=1&quot;&gt;first&lt;/a&gt;&lt;a href=&quot;/en_gb/download-contest-flight/2?dl=1&quot;&gt;second&lt;/a&gt;&lt;/p&gt;";
    let url = extract_download_url(encoded).unwrap();
    assert_eq!(url, "https://www.soaringspot.com/en_gb/download-contest-flight/1?dl=1");
}

#[test]
fn test_extract_download_url_none_without_anchor() {
    assert_eq!(extract_download_url("no markup at all"), None);
}

fn index_page(hrefs: &[&str]) -> String {
    let links: Vec<String> =
        hrefs.iter().map(|h| format!("<a href=\"{}\">link</a>", h)).collect();
    format!("<html><body>{}</body></html>", links.join("\n"))
}

#[test]
fn test_parse_daily_results() {
    let html = index_page(&[
        "/en_gb/comp/results/club/task-1-on-2025-06-10/daily",
        "/en_gb/comp/results/club/task-2-on-2025-06-11/daily",
        "/en_gb/comp/results/standard/task-1-on-2025-06-10/daily",
    ]);
    let results = parse_daily_results(&html, false);

    assert_eq!(results.len(), 3);
    assert_eq!(results[0].competition, "comp");
    assert_eq!(results[0].class, "club");
    assert_eq!(results[0].date, CalendarDate { year: 2025, month: 6, day: 10 });
    assert_eq!(results[0].task_number, 1);
    assert_eq!(results[1].task_number, 2);
    assert_eq!(results[2].class, "standard");
}

#[test]
fn test_malformed_daily_link_dropped() {
    // One malformed daily path and one valid one: exactly one record, the
    // malformed link silently dropped.
    let html = index_page(&[
        "/en_gb/comp/results/club/invalid-format/daily",
        "/en_gb/comp/results/club/task-4-on-2025-06-13/daily",
    ]);
    let results = parse_daily_results(&html, false);
    assert_eq!(results.len(), 1);
    assert_eq!(results[0].task_number, 4);
    assert_eq!(results[0].date, CalendarDate { year: 2025, month: 6, day: 13 });
}

#[test]
fn test_practice_day_filter() {
    // Task number zero marks a practice day: dropped by default, kept on
    // request.
    let html = index_page(&[
        "/en_gb/comp/results/club/task-0-on-2025-06-09/daily",
        "/en_gb/comp/results/club/task-1-on-2025-06-10/daily",
    ]);

    let scored = parse_daily_results(&html, false);
    assert_eq!(scored.len(), 1);
    assert_eq!(scored[0].task_number, 1);

    let all = parse_daily_results(&html, true);
    assert_eq!(all.len(), 2);
    assert_eq!(all[0].task_number, 0);
    assert!(all[0].is_practice_day());
    assert!(!all[1].is_practice_day());
}

#[test]
fn test_duplicate_links_kept_in_order() {
    // The scan neither deduplicates nor reorders.
    let html = index_page(&[
        "/en_gb/comp/results/club/task-2-on-2025-06-11/daily",
        "/en_gb/comp/results/club/task-1-on-2025-06-10/daily",
        "/en_gb/comp/results/club/task-2-on-2025-06-11/daily",
    ]);
    let results = parse_daily_results(&html, false);
    assert_eq!(results.len(), 3);
    assert_eq!(results[0].task_number, 2);
    assert_eq!(results[1].task_number, 1);
    assert_eq!(results[2].task_number, 2);
}
