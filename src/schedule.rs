//! The rotation engine: the caretaker on duty for each week, from a configuration
//! and a reference day.

use vstd::prelude::*;
use vstd::arithmetic::div_mod::{
    lemma_add_mod_noop, lemma_div_multiples_vanish, lemma_div_plus_one, lemma_fundamental_div_mod,
    lemma_mod_add_multiples_vanish, lemma_mod_multiples_vanish, lemma_mod_twice,
};
use crate::date::{
    Date, MAX_DAY, MIN_DAY, iso_week_number, iso_week_of, iso_week_year, iso_year_of,
    monday_of_week, week_monday,
};

verus! {

/// An ISO week: its week-numbering year and its week number.
#[derive(Clone, Copy, Debug, PartialEq, Eq, Structural)]
pub struct WeekId {
    pub year: i32,
    pub week: u32,
}

/// A one-off override: in the given week, the named caretaker is on duty.
#[derive(Debug)]
pub struct Reschedule {
    pub week: WeekId,
    pub caretaker: String,
}

/// The rotation's configuration.
#[derive(Debug)]
pub struct Config {
    /// A day of the first rotation week, which goes to the first caretaker.
    pub start_date: Date,
    /// The caretakers, in the order in which they take turns.
    pub caretakers: Vec<String>,
    /// Overrides of single weeks; where two name the same week, the first counts.
    pub reschedule: Vec<Reschedule>,
}

/// One week of the schedule.
#[derive(Debug)]
pub struct CareWeek {
    /// The ISO week number of the week.
    pub week: u32,
    /// Who is on duty.
    pub caretaker: String,
    /// The Monday that begins the week.
    pub start_date: Date,
    /// The Sunday that ends the week.
    pub end_date: Date,
}

/// Why a configuration cannot drive a rotation.
#[derive(Clone, Copy, Debug, PartialEq, Eq, Structural)]
pub enum ConfigError {
    /// There is no caretaker to rotate through.
    NoCaretakers,
}

impl Config {
    /// A configuration that a rotation can be computed from.
    pub open spec fn wf(&self) -> bool {
        &&& self.caretakers.len() > 0
        &&& self.start_date.wf()
    }

    /// Makes a configuration, refusing an empty list of caretakers.
    pub fn new(start_date: Date, caretakers: Vec<String>, reschedule: Vec<Reschedule>) -> (r:
        Result<Config, ConfigError>)
        requires
            start_date.wf(),
        ensures
            caretakers.len() == 0 <==> r is Err,
            r is Err ==> r == Err::<Config, ConfigError>(ConfigError::NoCaretakers),
            r matches Ok(c) ==> c.wf() && c.start_date == start_date && c.caretakers
                == caretakers && c.reschedule == reschedule,
    {
        if caretakers.len() == 0 {
            Err(ConfigError::NoCaretakers)
        } else {
            Ok(Config { start_date, caretakers, reschedule })
        }
    }
}

/// ISO weeks from the week that holds the start day to the week that holds the
/// reference day.
pub open spec fn elapsed_weeks(start: int, reference: int) -> int {
    (monday_of_week(reference) - monday_of_week(start)) / 7
}

/// Counting the weeks between the two Mondays is counting whole weeks from the
/// start's Monday to the reference day.
proof fn lemma_elapsed_from_start_monday(start: int, reference: int)
    requires
        start <= reference,
    ensures
        elapsed_weeks(start, reference) == (reference - monday_of_week(start)) / 7,
        elapsed_weeks(start, reference) >= 0,
{
    let q = (start - 1) / 7;
    let d = reference - monday_of_week(start);
    lemma_fundamental_div_mod(start - 1, 7);
    assert(reference - 1 == 7 * q + d);
    lemma_mod_multiples_vanish(q, d, 7);
    lemma_fundamental_div_mod(d, 7);
    assert(monday_of_week(reference) - monday_of_week(start) == 7 * (d / 7));
    lemma_div_multiples_vanish(d / 7, 7);
}

/// The position in the caretaker list that is on duty in the week of `reference`.
pub open spec fn rotation_index(conf: Config, reference: Date) -> int {
    elapsed_weeks(conf.start_date.days as int, reference.days as int) % (conf.caretakers.len() as int)
}

/// The day number of the Monday of the `i`-th week counted from the week of `reference`.
pub open spec fn week_start_day(reference: Date, i: int) -> int {
    monday_of_week(reference.days as int) + 7 * i
}

/// Whether an override names the ISO week that holds the day numbered `day`.
pub open spec fn names_week(e: Reschedule, day: int) -> bool {
    e.week.year as int == iso_year_of(day) && e.week.week as int == iso_week_of(day)
}

/// The caretaker of the first override at or after position `k` that names the
/// week of `day`.
pub open spec fn override_from(entries: Seq<Reschedule>, k: int, day: int) -> Option<Seq<char>>
    decreases entries.len() - k,
{
    if k < 0 || k >= entries.len() {
        None
    } else if names_week(entries[k], day) {
        Some(entries[k].caretaker@)
    } else {
        override_from(entries, k + 1, day)
    }
}

/// The caretaker of the first override that names the week of `day`, if any.
pub open spec fn override_for(entries: Seq<Reschedule>, day: int) -> Option<Seq<char>> {
    override_from(entries, 0, day)
}

/// The position of the caretaker whom the rotation alone puts on duty in the
/// `i`-th week from the week of `reference`.
pub open spec fn regular_index(conf: Config, reference: Date, i: int) -> int {
    (rotation_index(conf, reference) + i) % (conf.caretakers.len() as int)
}

/// The caretaker whom the rotation alone puts on duty in the `i`-th week.
pub open spec fn regular_caretaker(conf: Config, reference: Date, i: int) -> Seq<char> {
    conf.caretakers@[regular_index(conf, reference, i)]@
}

/// The caretaker on duty in the `i`-th week: the override for that week if there
/// is one, else the rotation's.
pub open spec fn assigned_caretaker(conf: Config, reference: Date, i: int) -> Seq<char> {
    match override_for(conf.reschedule@, week_start_day(reference, i)) {
        Some(c) => c,
        None => regular_caretaker(conf, reference, i),
    }
}

/// The position in the caretaker list that is on duty in the week of `reference`.
pub fn get_current_caretaker_idx(conf: &Config, reference: Date) -> (r: usize)
    requires
        conf.wf(),
        reference.wf(),
        conf.start_date.days <= reference.days,
    ensures
        r as int == rotation_index(*conf, reference),
        r < conf.caretakers.len(),
{
    let start: i64 = conf.start_date.days as i64;
    // the start's weekday counted from Monday: (start - 1) mod 7, kept non-negative
    let offset: u64 = ((start - 1 + 98_000_000) as u64) % 7;
    proof {
        lemma_mod_multiples_vanish(14_000_000, start - 1, 7);
        lemma_elapsed_from_start_monday(start as int, reference.days as int);
    }
    let diff: u64 = (reference.days as i64 - start) as u64 + offset;
    let elapsed: u64 = diff / 7;
    let n: usize = conf.caretakers.len();
    ((elapsed as u128) % (n as u128)) as usize
}

/// The caretaker on duty in the week of `reference`, by the rotation alone.
pub fn get_current_caretaker(conf: &Config, reference: Date) -> (r: String)
    requires
        conf.wf(),
        reference.wf(),
        conf.start_date.days <= reference.days,
    ensures
        r@ == conf.caretakers@[rotation_index(*conf, reference)]@,
{
    let idx = get_current_caretaker_idx(conf, reference);
    conf.caretakers[idx].clone()
}

/// The caretaker of the first override that names the ISO week `(year, week)`.
fn find_override(entries: &Vec<Reschedule>, year: i32, week: u32, Ghost(day): Ghost<int>) -> (r:
    Option<String>)
    requires
        year as int == iso_year_of(day),
        week as int == iso_week_of(day),
    ensures
        match r {
            Some(s) => override_for(entries@, day) == Some(s@),
            None => override_for(entries@, day) is None,
        },
{
    let mut k: usize = 0;
    while k < entries.len()
        invariant
            k <= entries.len(),
            override_for(entries@, day) == override_from(entries@, k as int, day),
            year as int == iso_year_of(day),
            week as int == iso_week_of(day),
        decreases entries.len() - k,
    {
        if entries[k].week.year == year && entries[k].week.week == week {
            return Some(entries[k].caretaker.clone());
        }
        k = k + 1;
    }
    None
}

/// The schedule for `weeks` consecutive weeks, starting with the week that holds
/// `reference`.
pub fn get_next_weeks(conf: &Config, reference: Date, weeks: u32) -> (r: Vec<CareWeek>)
    requires
        conf.wf(),
        reference.wf(),
        conf.start_date.days <= reference.days,
        MIN_DAY + 6 <= reference.days,
        reference.days + 7 * weeks <= MAX_DAY + 1,
    ensures
        r.len() == weeks,
        forall|i: int|
            0 <= i < r.len() ==> {
                &&& (#[trigger] r[i]).start_date.days == week_start_day(reference, i)
                &&& monday_of_week(r[i].start_date.days as int) == r[i].start_date.days
                &&& 1 <= r[i].week <= 53
                &&& r[i].end_date.days == r[i].start_date.days + 6
                &&& r[i].week == iso_week_of(r[i].start_date.days as int)
                &&& r[i].caretaker@ == assigned_caretaker(*conf, reference, i)
            },
{
    let base: usize = get_current_caretaker_idx(conf, reference);
    let n: usize = conf.caretakers.len();
    let monday: i32 = week_monday(reference.days);
    let mut out: Vec<CareWeek> = Vec::new();
    let mut i: u32 = 0;
    while i < weeks
        invariant
            conf.wf(),
            i <= weeks,
            n == conf.caretakers.len(),
            base as int == rotation_index(*conf, reference),
            monday as int == monday_of_week(reference.days as int),
            reference.days - 6 <= monday <= reference.days,
            reference.days + 7 * weeks <= MAX_DAY + 1,
            MIN_DAY + 6 <= reference.days,
            out.len() == i,
            forall|j: int|
                0 <= j < out.len() ==> {
                    &&& (#[trigger] out[j]).start_date.days == week_start_day(reference, j)
                    &&& monday_of_week(out[j].start_date.days as int) == out[j].start_date.days
                    &&& 1 <= out[j].week <= 53
                    &&& out[j].end_date.days == out[j].start_date.days + 6
                    &&& out[j].week == iso_week_of(out[j].start_date.days as int)
                    &&& out[j].caretaker@ == assigned_caretaker(*conf, reference, j)
                },
        decreases weeks - i,
    {
        let start: i32 = (monday as i64 + 7 * (i as i64)) as i32;
        let end: i32 = start + 6;
        proof {
            let q = (reference.days - 1) / 7;
            lemma_fundamental_div_mod(reference.days - 1, 7);
            assert(start - 1 == 7 * (q + i) + 0);
            lemma_mod_multiples_vanish(q + i, 0, 7);
        }
        let week: u32 = iso_week_number(start);
        let year: i32 = iso_week_year(start);
        let caretaker: String = match find_override(&conf.reschedule, year, week, Ghost(start as int)) {
            Some(c) => c,
            None => {
                let idx: usize = ((base as u128 + i as u128) % (n as u128)) as usize;
                conf.caretakers[idx].clone()
            },
        };
        out.push(CareWeek {
            week,
            caretaker,
            start_date: Date { days: start },
            end_date: Date { days: end },
        });
        i = i + 1;
    }
    out
}

/// Each week of the schedule begins seven days after the one before it.
pub proof fn lemma_weeks_are_consecutive(reference: Date, i: int)
    ensures
        week_start_day(reference, i + 1) == week_start_day(reference, i) + 7,
{
}

/// The weeks of the schedule come in strictly increasing order.
pub proof fn lemma_weeks_strictly_increase(reference: Date, i: int, j: int)
    requires
        i < j,
    ensures
        week_start_day(reference, i) < week_start_day(reference, j),
{
}

/// The rotation moves on by exactly one caretaker from each week of the schedule
/// to the next, wrapping round after the last one.
pub proof fn lemma_rotation_advances(conf: Config, reference: Date, i: int)
    requires
        conf.wf(),
    ensures
        regular_index(conf, reference, i + 1) == (regular_index(conf, reference, i) + 1) % (
        conf.caretakers.len() as int),
        0 <= regular_index(conf, reference, i) < conf.caretakers.len(),
{
    let n = conf.caretakers.len() as int;
    let a = rotation_index(conf, reference) + i;
    lemma_add_mod_noop(a, 1, n);
    lemma_add_mod_noop(a % n, 1, n);
    assert((a % n) % n == a % n) by {
        lemma_mod_twice(a, n);
    }
}

/// A reference day seven days later moves the rotation on by exactly one
/// caretaker; weeks are counted on day numbers, so a turn of the year changes
/// nothing.
pub proof fn lemma_rotation_follows_reference(conf: Config, reference: Date, later: Date)
    requires
        conf.wf(),
        conf.start_date.days <= reference.days,
        later.days == reference.days + 7,
    ensures
        rotation_index(conf, later) == (rotation_index(conf, reference) + 1) % (
        conf.caretakers.len() as int),
{
    let n = conf.caretakers.len() as int;
    let s = conf.start_date.days as int;
    let r = reference.days as int;
    lemma_mod_add_multiples_vanish(r - 1, 7);
    assert(monday_of_week(later.days as int) == monday_of_week(r) + 7);
    let e = elapsed_weeks(s, r);
    lemma_div_plus_one(monday_of_week(r) - monday_of_week(s), 7);
    assert(elapsed_weeks(s, later.days as int) == e + 1);
    lemma_add_mod_noop(e, 1, n);
    lemma_add_mod_noop(e % n, 1, n);
    lemma_mod_twice(e, n);
}

/// An override for a week puts its caretaker on duty in that week, whatever the
/// rotation would have given.
pub proof fn lemma_override_wins(conf: Config, reference: Date, i: int, c: Seq<char>)
    requires
        override_for(conf.reschedule@, week_start_day(reference, i)) == Some(c),
    ensures
        assigned_caretaker(conf, reference, i) == c,
{
}

/// Overrides never move the rotation: two configurations that differ only in
/// their overrides put the same caretaker on duty in every week that neither
/// overrides.
pub proof fn lemma_override_keeps_rotation(a: Config, b: Config, reference: Date, i: int)
    requires
        a.start_date == b.start_date,
        a.caretakers@ == b.caretakers@,
        override_for(a.reschedule@, week_start_day(reference, i)) is None,
        override_for(b.reschedule@, week_start_day(reference, i)) is None,
    ensures
        assigned_caretaker(a, reference, i) == assigned_caretaker(b, reference, i),
        assigned_caretaker(a, reference, i) == regular_caretaker(a, reference, i),
{
}

} // verus!
