//! Inspection logistics: the bookable slots of the next four Fridays,
//! and the confirmation stamp a booking receives.
//!
//! Each Friday offers a morning and an afternoon slot. The current date
//! and the confirmation timestamp are arguments: the caller reads the
//! clock.

use vstd::prelude::*;

use crate::dates::{
    date_from_day_number, date_text, date_valid, day_number, day_number_spec,
    days_before_month, days_before_year, days_in_month_spec, days_in_year, format_date,
    lemma_days_before_month_bounds, lemma_days_before_year_bounds, lemma_full_year_of_months,
    lemma_max_day_number_bound, lemma_year_offset_bounds, max_day_number, Date,
};
use crate::models::{Appointment, LogisticsSlot};
use vstd::arithmetic::div_mod::{
    lemma_fundamental_div_mod, lemma_mod_bound, lemma_mod_multiples_vanish,
};

verus! {

/// The day number of the first Friday strictly after day `n`. Day
/// numbers count from 1600-01-01, a Saturday, so a day is a Friday
/// exactly when its number is 6 modulo 7.
pub open spec fn next_friday_after(n: int) -> int {
    n + 1 + (6 - (n + 1) % 7)
}

/// The day number of the `j`-th Friday strictly after day `n`.
pub open spec fn nth_friday_after(n: int, j: int) -> int {
    next_friday_after(n) + 7 * j
}

/// The first Friday after `n` lies within a week, is a Friday, and no
/// earlier day after `n` is one.
pub proof fn lemma_next_friday(n: int)
    requires
        n >= 0,
    ensures
        n < next_friday_after(n) <= n + 7,
        next_friday_after(n) % 7 == 6,
        forall|m: int| n < m < next_friday_after(n) ==> #[trigger] (m % 7) != 6,
{
    let q = (n + 1) / 7;
    let r = (n + 1) % 7;
    lemma_fundamental_div_mod(n + 1, 7);
    lemma_mod_bound(n + 1, 7);
    assert(n + 1 == 7 * q + r);
    lemma_mod_multiples_vanish(q, 6, 7);
    vstd::arithmetic::div_mod::lemma_small_mod(6nat, 7);
    assert forall|m: int| n < m < next_friday_after(n) implies #[trigger] (m % 7) != 6 by {
        let t = m - (n + 1);
        assert(m == 7 * q + (r + t));
        assert(0 <= r + t < 6);
        lemma_mod_multiples_vanish(q, r + t, 7);
        vstd::arithmetic::div_mod::lemma_small_mod((r + t) as nat, 7);
    }
}

/// Between two consecutive Fridays no day is a Friday, so a Friday in
/// the window after the `k-1`-th one is the `k`-th one.
pub proof fn lemma_friday_unique_in_window(n: int, k: int, m: int)
    requires
        n >= 0,
        0 <= k,
        m % 7 == 6,
        (if k == 0 {
            n < m
        } else {
            nth_friday_after(n, k - 1) < m
        }),
        m <= nth_friday_after(n, k),
    ensures
        m == nth_friday_after(n, k),
{
    lemma_next_friday(n);
    let nf = next_friday_after(n);
    let target = nth_friday_after(n, k);
    if m < target {
        if k == 0 {
        } else {
            let prev = nth_friday_after(n, k - 1);
            let t = m - prev;
            assert(1 <= t <= 6);
            lemma_fundamental_div_mod(nf, 7);
            lemma_mod_bound(nf, 7);
            let qf = nf / 7;
            assert(prev == 7 * (qf + k - 1) + 6);
            lemma_mod_multiples_vanish(qf + k - 1, 6, 7);
            vstd::arithmetic::div_mod::lemma_small_mod(6nat, 7);
            assert(prev % 7 == 6);
            assert(m == 7 * (qf + k - 1) + (6 + t));
            assert(m == 7 * (qf + k) + (t - 1));
            lemma_mod_multiples_vanish(qf + k, t - 1, 7);
            vstd::arithmetic::div_mod::lemma_small_mod((t - 1) as nat, 7);
            assert(m % 7 == t - 1);
        }
    }
}

/// A pair of slots offered on the Friday `fd`: a morning and an
/// afternoon one, identified by the date text.
pub open spec fn slot_pair_matches(slots: Seq<LogisticsSlot>, j: int, fd: Date) -> bool {
    &&& slots[2 * j].date@ == date_text(fd)
    &&& slots[2 * j].time@ == "10:00 AM"@
    &&& slots[2 * j].id@ == date_text(fd) + "-10am"@
    &&& slots[2 * j + 1].date@ == date_text(fd)
    &&& slots[2 * j + 1].time@ == "2:00 PM"@
    &&& slots[2 * j + 1].id@ == date_text(fd) + "-2pm"@
}

/// Four Fridays fit between any supported day and the end of the
/// supported range.
proof fn lemma_room_for_fridays(today: Date)
    requires
        date_valid(today),
        today.year <= 9998,
    ensures
        day_number_spec(today) + 28 <= max_day_number(),
{
    lemma_year_offset_bounds(today);
    lemma_days_before_year_bounds(today.year as int + 1, 9999);
    assert(days_before_year(today.year as int + 1) == days_before_year(today.year as int)
        + days_in_year(today.year as int));
    lemma_full_year_of_months(9999);
    assert(days_before_month(9999int, 13) == days_before_month(9999int, 12)
        + days_in_month_spec(9999int, 12));
}

/// The bookable slots seen from `today`: two per Friday for the next
/// four Fridays, in order, each pair a morning and an afternoon slot on
/// that Friday's date.
pub fn get_available_slots(today: Date) -> (r: Vec<LogisticsSlot>)
    requires
        date_valid(today),
        today.year <= 9998,
    ensures
        r@.len() == 8,
        forall|j: int|
            #![trigger nth_friday_after(day_number_spec(today), j)]
            0 <= j < 4 ==> exists|fd: Date|
                {
                    &&& date_valid(fd)
                    &&& #[trigger] day_number_spec(fd) == nth_friday_after(
                        day_number_spec(today),
                        j,
                    )
                    &&& slot_pair_matches(r@, j, fd)
                },
{
    let n0 = day_number(today);
    proof {
        lemma_room_for_fridays(today);
        lemma_max_day_number_bound();
        lemma_next_friday(n0 as int);
    }
    let mut slots: Vec<LogisticsSlot> = Vec::new();
    let mut current: i64 = n0;
    let mut fridays_found: usize = 0;
    while fridays_found < 4
        invariant
            n0 as int == day_number_spec(today),
            0 <= n0,
            n0 + 28 <= max_day_number(),
            max_day_number() < 3100000,
            next_friday_after(n0 as int) <= n0 + 7,
            next_friday_after(n0 as int) % 7 == 6,
            forall|m: int| n0 < m < next_friday_after(n0 as int) ==> #[trigger] (m % 7) != 6,
            0 <= fridays_found <= 4,
            slots@.len() == 2 * fridays_found,
            (if fridays_found == 0 {
                n0 <= current < next_friday_after(n0 as int)
            } else {
                nth_friday_after(n0 as int, fridays_found - 1) <= current < nth_friday_after(
                    n0 as int,
                    fridays_found as int,
                )
            }),
            forall|j: int|
                #![trigger nth_friday_after(n0 as int, j)]
                0 <= j < fridays_found ==> exists|fd: Date|
                    {
                        &&& date_valid(fd)
                        &&& #[trigger] day_number_spec(fd) == nth_friday_after(n0 as int, j)
                        &&& slot_pair_matches(slots@, j, fd)
                    },
        decreases 4 - fridays_found, nth_friday_after(n0 as int, fridays_found as int) - current,
    {
        let ghost k = fridays_found as int;
        let ghost pre_slots = slots@;
        current += 1;
        if current % 7 == 6 {
            proof {
                lemma_friday_unique_in_window(n0 as int, k, current as int);
                assert(current as int == nth_friday_after(n0 as int, k));
            }
            let fd = date_from_day_number(current);
            let date1 = format_date(fd);
            let date2 = format_date(fd);
            let id1 = format_date(fd).concat("-10am");
            let id2 = format_date(fd).concat("-2pm");
            slots.push(
                LogisticsSlot { date: date1, time: String::from_str("10:00 AM"), id: id1 },
            );
            slots.push(
                LogisticsSlot { date: date2, time: String::from_str("2:00 PM"), id: id2 },
            );
            fridays_found += 1;
            proof {
                assert(slot_pair_matches(slots@, k, fd));
                assert forall|j: int|
                    #![trigger nth_friday_after(n0 as int, j)]
                    0 <= j < fridays_found implies exists|fd2: Date|
                    {
                        &&& date_valid(fd2)
                        &&& #[trigger] day_number_spec(fd2) == nth_friday_after(n0 as int, j)
                        &&& slot_pair_matches(slots@, j, fd2)
                    } by {
                    if j < k {
                        let fd2 = choose|fd2: Date|
                            {
                                &&& date_valid(fd2)
                                &&& #[trigger] day_number_spec(fd2) == nth_friday_after(
                                    n0 as int,
                                    j,
                                )
                                &&& slot_pair_matches(pre_slots, j, fd2)
                            };
                        assert(slot_pair_matches(slots@, j, fd2));
                    } else {
                        assert(date_valid(fd) && day_number_spec(fd) == nth_friday_after(
                            n0 as int,
                            j,
                        ) && slot_pair_matches(slots@, j, fd));
                    }
                }
            }
        }
    }
    slots
}

/// Confirm a booking: the appointment unchanged but for its status,
/// set to "Pending Review", and its update stamp, set to the given
/// moment.
pub fn book_inspection(appointment: Appointment, updated_at: String) -> (r: Appointment)
    ensures
        r.status@ == "Pending Review"@,
        r.updated_at == updated_at,
        r.id == appointment.id,
        r.service_request_id == appointment.service_request_id,
        r.strata_plan == appointment.strata_plan,
        r.appointment_type == appointment.appointment_type,
        r.requested_date_1 == appointment.requested_date_1,
        r.requested_time_1 == appointment.requested_time_1,
        r.requested_date_2 == appointment.requested_date_2,
        r.requested_time_2 == appointment.requested_time_2,
        r.confirmed_date == appointment.confirmed_date,
        r.confirmed_time == appointment.confirmed_time,
        r.inspector_id == appointment.inspector_id,
        r.meeting_type == appointment.meeting_type,
        r.notes == appointment.notes,
        r.created_at == appointment.created_at,
{
    Appointment { status: String::from_str("Pending Review"), updated_at, ..appointment }
}

} // verus!
