//! The project-timeline calculation: from a file-opened date, a last
//! annual general meeting (AGM) and a fiscal-year start month to the next
//! projected AGM, the draft deadline thirty days before it, and the
//! fiscal-year day counts.
//!
//! Dates arrive as `YYYY-MM-DD` texts; an unreadable or invalid text
//! falls back to 2024-01-01. The current date is an argument: the caller
//! reads the clock.

use vstd::prelude::*;

use crate::dates::{
    date_from_day_number, date_text, date_text_wf, date_valid, day_number, day_number_spec,
    format_date, make_date, max_day_number, parse_date, text_date, Date,
};
use crate::models::{TimelineRequest, TimelineResponse};

verus! {

/// The date a request text stands for: what it spells when well shaped
/// and valid, else the fallback 2024-01-01.
pub open spec fn parsed_or_default(s: Seq<char>) -> Date {
    if date_text_wf(s) && date_valid(text_date(s)) {
        text_date(s)
    } else {
        Date { year: 2024, month: 1, day: 1 }
    }
}

/// How the next projected AGM follows from the last one: the same month
/// and day one year later; 365 days on when that date does not exist (a
/// leap day); the meeting itself at the supported range's very edge.
pub open spec fn next_agm_matches(agm: Date, na: Date) -> bool {
    let plus = Date { year: (agm.year + 1) as i32, month: agm.month, day: agm.day };
    if date_valid(plus) {
        na == plus
    } else if day_number_spec(agm) + 365 <= max_day_number() {
        day_number_spec(na) == day_number_spec(agm) + 365
    } else {
        na == agm
    }
}

/// The start of the fiscal year the day lies in: the first of the start
/// month, this year if already reached, else last year.
pub open spec fn fiscal_start_spec(today: Date, fsm: int) -> Date {
    let candidate = Date { year: today.year, month: fsm as u8, day: 1 };
    if day_number_spec(candidate) > day_number_spec(today) {
        Date { year: (today.year - 1) as i32, month: fsm as u8, day: 1 }
    } else {
        candidate
    }
}

/// The last day of that fiscal year: the day before the next year's
/// start.
pub open spec fn fiscal_end_num_spec(today: Date, fsm: int) -> int {
    day_number_spec(
        Date {
            year: (fiscal_start_spec(today, fsm).year + 1) as i32,
            month: fsm as u8,
            day: 1,
        },
    ) - 1
}

/// Compute the timeline of a request as seen from `today`.
pub fn calculate_timeline(req: &TimelineRequest, today: Date) -> (r: TimelineResponse)
    requires
        date_valid(today),
        1601 <= today.year <= 9998,
        1 <= req.fiscal_year_start_month <= 12,
    ensures
        ({
            let fo = parsed_or_default(req.file_opened@);
            let agm = parsed_or_default(req.last_agm_date@);
            let fsm = req.fiscal_year_start_month as int;
            &&& exists|na: Date|
                {
                    &&& date_valid(na)
                    &&& #[trigger] next_agm_matches(agm, na)
                    &&& r.next_projected_agm@ == date_text(na)
                    &&& exists|dd: Date|
                        {
                            &&& date_valid(dd)
                            &&& #[trigger] day_number_spec(dd) == (if day_number_spec(na) >= 30 {
                                day_number_spec(na) - 30
                            } else {
                                0
                            })
                            &&& r.draft_deadline@ == date_text(dd)
                        }
                }
            &&& r.days_into_fiscal as int == day_number_spec(today) - day_number_spec(
                fiscal_start_spec(today, fsm),
            )
            &&& r.days_remaining_in_fiscal as int == fiscal_end_num_spec(today, fsm)
                - day_number_spec(today)
            &&& match r.days_since_agm {
                Some(v) => day_number_spec(today) >= day_number_spec(agm) && v as int
                    == day_number_spec(today) - day_number_spec(agm),
                None => day_number_spec(today) < day_number_spec(agm),
            }
            &&& r.days_since_file_opened as int == day_number_spec(today) - day_number_spec(fo)
        }),
{
    let file_opened = match parse_date(req.file_opened.as_str()) {
        Some(d) => d,
        None => Date { year: 2024, month: 1, day: 1 },
    };
    let last_agm = match parse_date(req.last_agm_date.as_str()) {
        Some(d) => d,
        None => Date { year: 2024, month: 1, day: 1 },
    };
    proof {
        assert(file_opened == parsed_or_default(req.file_opened@));
        assert(last_agm == parsed_or_default(req.last_agm_date@));
    }
    let next_agm: Date = match make_date(last_agm.year + 1, last_agm.month, last_agm.day) {
        Some(d) => d,
        None => {
            let n = day_number(last_agm);
            proof {
                crate::dates::lemma_max_day_number_bound();
            }
            let max_n = day_number(Date { year: 9999, month: 12, day: 31 });
            if n + 365 <= max_n {
                date_from_day_number(n + 365)
            } else {
                last_agm
            }
        },
    };
    proof {
        assert(next_agm_matches(parsed_or_default(req.last_agm_date@), next_agm));
    }
    let na_num = day_number(next_agm);
    let dd_num: i64 = if na_num >= 30 {
        na_num - 30
    } else {
        0
    };
    let draft_deadline = date_from_day_number(dd_num);
    let fsm = req.fiscal_year_start_month;
    let today_num = day_number(today);
    let fs_candidate = Date { year: today.year, month: fsm, day: 1 };
    let fs_candidate_num = day_number(fs_candidate);
    let fs: Date = if fs_candidate_num > today_num {
        Date { year: today.year - 1, month: fsm, day: 1 }
    } else {
        fs_candidate
    };
    let fs_num = day_number(fs);
    let fiscal_end_num = day_number(Date { year: fs.year + 1, month: fsm, day: 1 }) - 1;
    let agm_num = day_number(last_agm);
    let fo_num = day_number(file_opened);
    let days_since_agm: Option<i64> = if today_num >= agm_num {
        Some(today_num - agm_num)
    } else {
        None
    };
    let r = TimelineResponse {
        next_projected_agm: format_date(next_agm),
        draft_deadline: format_date(draft_deadline),
        days_into_fiscal: today_num - fs_num,
        days_remaining_in_fiscal: fiscal_end_num - today_num,
        days_since_agm,
        days_since_file_opened: today_num - fo_num,
    };
    proof {
        let agm = parsed_or_default(req.last_agm_date@);
        assert(date_valid(next_agm) && next_agm_matches(agm, next_agm) && r.next_projected_agm@
            == date_text(next_agm));
        assert(date_valid(draft_deadline) && day_number_spec(draft_deadline) == (
        if day_number_spec(next_agm) >= 30 {
            day_number_spec(next_agm) - 30
        } else {
            0
        }) && r.draft_deadline@ == date_text(draft_deadline));
        assert(fs == fiscal_start_spec(today, fsm as int));
    }
    r
}

} // verus!
