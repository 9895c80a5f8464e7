use igc_downloader::date::CalendarDate;
use igc_downloader::date_utils::{date_to_igc_filename_prefix, igc_filename};

#[test]
fn test_date_to_igc_filename() {
    let date = CalendarDate { year: 2025, month: 6, day: 19 };
    assert_eq!(date_to_igc_filename_prefix(date), "56J");

    // Numeric days (1-9)
    let date = CalendarDate { year: 2024, month: 1, day: 1 };
    assert_eq!(date_to_igc_filename_prefix(date), "411");

    let date = CalendarDate { year: 2023, month: 12, day: 9 };
    assert_eq!(date_to_igc_filename_prefix(date), "3129");

    // Letter days (10-31)
    let date = CalendarDate { year: 2022, month: 7, day: 10 };
    assert_eq!(date_to_igc_filename_prefix(date), "27A");

    let date = CalendarDate { year: 2021, month: 8, day: 15 };
    assert_eq!(date_to_igc_filename_prefix(date), "18F");

    let date = CalendarDate { year: 2020, month: 3, day: 26 };
    assert_eq!(date_to_igc_filename_prefix(date), "03Q");

    let date = CalendarDate { year: 2019, month: 5, day: 31 };
    assert_eq!(date_to_igc_filename_prefix(date), "95V");
}

#[test]
fn test_igc_filename() {
    assert_eq!(igc_filename("56J", "AB"), "56J_AB.igc");
    assert_eq!(igc_filename("411", "D-1234"), "411_D-1234.igc");
}
