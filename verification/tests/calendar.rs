use srp_portal::dates::{
    date_from_day_number, day_number, days_in_month, format_date, is_friday, is_leap, make_date,
    parse_date, Date,
};
use srp_portal::logistics::{book_inspection, get_available_slots};
use srp_portal::models::{Appointment, TimelineRequest};
use srp_portal::timelines::calculate_timeline;

fn date(y: i32, m: u8, d: u8) -> Date {
    Date { year: y, month: m, day: d }
}

#[test]
fn leap_years_and_month_lengths() {
    assert!(is_leap(2024));
    assert!(!is_leap(2023));
    assert!(!is_leap(1900));
    assert!(is_leap(2000));
    assert_eq!(days_in_month(2024, 2), 29);
    assert_eq!(days_in_month(2023, 2), 28);
    assert_eq!(days_in_month(2024, 4), 30);
    assert_eq!(days_in_month(2024, 12), 31);
}

#[test]
fn day_numbers_round_trip() {
    for d in [
        date(1600, 1, 1),
        date(2000, 2, 29),
        date(2024, 3, 15),
        date(2026, 10, 12),
        date(9999, 12, 31),
    ] {
        let n = day_number(d);
        assert_eq!(date_from_day_number(n), d);
    }
    assert_eq!(day_number(date(1600, 1, 1)), 0);
    assert_eq!(day_number(date(1600, 1, 2)), 1);
    assert_eq!(day_number(date(1601, 1, 1)), 366);
}

#[test]
fn day_differences_count_days() {
    let a = day_number(date(2024, 2, 28));
    let b = day_number(date(2024, 3, 1));
    assert_eq!(b - a, 2);
    let c = day_number(date(2023, 2, 28));
    let d = day_number(date(2023, 3, 1));
    assert_eq!(d - c, 1);
}

#[test]
fn fridays_are_fridays() {
    // 2026-10-16 is a Friday; 2026-10-12 is a Monday.
    assert!(is_friday(date(2026, 10, 16)));
    assert!(!is_friday(date(2026, 10, 12)));
    assert!(is_friday(date(2024, 3, 1)));
}

#[test]
fn parsing_and_formatting_dates() {
    assert_eq!(parse_date("2024-03-15"), Some(date(2024, 3, 15)));
    assert_eq!(parse_date("2024-02-30"), None);
    assert_eq!(parse_date("2024-13-01"), None);
    assert_eq!(parse_date("not a date"), None);
    assert_eq!(parse_date("2024/03/15"), None);
    assert_eq!(parse_date("24-03-15"), None);
    assert_eq!(make_date(2024, 2, 29), Some(date(2024, 2, 29)));
    assert_eq!(make_date(2023, 2, 29), None);
    assert_eq!(format_date(date(2024, 3, 5)), "2024-03-05");
    assert_eq!(format_date(date(1600, 12, 31)), "1600-12-31");
}

#[test]
fn timeline_of_a_well_formed_request() {
    let req = TimelineRequest {
        file_opened: "2024-03-05".to_string(),
        fiscal_year_start_month: 4,
        last_agm_date: "2024-06-15".to_string(),
        last_depr_report: None,
        target_date: None,
        report_scope: "This Fiscal".to_string(),
    };
    let today = date(2024, 9, 1);
    let r = calculate_timeline(&req, today);
    assert_eq!(r.next_projected_agm, "2025-06-15");
    assert_eq!(r.draft_deadline, "2025-05-16");
    // Fiscal year started 2024-04-01.
    assert_eq!(r.days_into_fiscal, 153);
    // It ends 2025-03-31.
    assert_eq!(r.days_remaining_in_fiscal, 211);
    assert_eq!(r.days_since_agm, Some(78));
    assert_eq!(r.days_since_file_opened, 180);
}

#[test]
fn timeline_falls_back_on_bad_dates() {
    let req = TimelineRequest {
        file_opened: "garbage".to_string(),
        fiscal_year_start_month: 1,
        last_agm_date: "also garbage".to_string(),
        last_depr_report: None,
        target_date: None,
        report_scope: "Next Fiscal".to_string(),
    };
    let today = date(2024, 1, 31);
    let r = calculate_timeline(&req, today);
    // Both dates fall back to 2024-01-01.
    assert_eq!(r.next_projected_agm, "2025-01-01");
    assert_eq!(r.draft_deadline, "2024-12-02");
    assert_eq!(r.days_since_agm, Some(30));
    assert_eq!(r.days_since_file_opened, 30);
    assert_eq!(r.days_into_fiscal, 30);
}

#[test]
fn timeline_handles_a_leap_day_meeting() {
    let req = TimelineRequest {
        file_opened: "2024-01-01".to_string(),
        fiscal_year_start_month: 1,
        last_agm_date: "2024-02-29".to_string(),
        last_depr_report: None,
        target_date: None,
        report_scope: "This Fiscal".to_string(),
    };
    let today = date(2024, 3, 1);
    let r = calculate_timeline(&req, today);
    // 2025-02-29 does not exist; the projection is 365 days on.
    assert_eq!(r.next_projected_agm, "2025-02-28");
}

#[test]
fn eight_slots_on_the_next_four_fridays() {
    // From Monday 2026-10-12 the next Fridays are Oct 16, 23, 30, Nov 6.
    let slots = get_available_slots(date(2026, 10, 12));
    assert_eq!(slots.len(), 8);
    let expected = ["2026-10-16", "2026-10-23", "2026-10-30", "2026-11-06"];
    for (j, day) in expected.iter().enumerate() {
        assert_eq!(slots[2 * j].date, *day);
        assert_eq!(slots[2 * j].time, "10:00 AM");
        assert_eq!(slots[2 * j].id, format!("{}-10am", day));
        assert_eq!(slots[2 * j + 1].date, *day);
        assert_eq!(slots[2 * j + 1].time, "2:00 PM");
        assert_eq!(slots[2 * j + 1].id, format!("{}-2pm", day));
    }
}

#[test]
fn slots_from_a_friday_start_the_day_after() {
    // From Friday 2026-10-16 the first offered Friday is Oct 23.
    let slots = get_available_slots(date(2026, 10, 16));
    assert_eq!(slots[0].date, "2026-10-23");
}

#[test]
fn booking_stamps_status_and_update_time() {
    let appointment = Appointment {
        id: "apt-1".to_string(),
        service_request_id: "req-1".to_string(),
        strata_plan: "VIS 2345".to_string(),
        appointment_type: "inspection".to_string(),
        requested_date_1: "2026-10-16".to_string(),
        requested_time_1: "10:00 AM".to_string(),
        requested_date_2: None,
        requested_time_2: None,
        confirmed_date: None,
        confirmed_time: None,
        inspector_id: None,
        status: "requested".to_string(),
        meeting_type: None,
        notes: None,
        created_at: "2026-10-12T08:00:00Z".to_string(),
        updated_at: "2026-10-12T08:00:00Z".to_string(),
    };
    let confirmed = book_inspection(appointment, "2026-10-12T09:30:00Z".to_string());
    assert_eq!(confirmed.status, "Pending Review");
    assert_eq!(confirmed.updated_at, "2026-10-12T09:30:00Z");
    assert_eq!(confirmed.id, "apt-1");
    assert_eq!(confirmed.requested_date_1, "2026-10-16");
}
