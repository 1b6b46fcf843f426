//! Failure counts over time: how many requests fell into each interval of a
//! chart, and how many of them failed.

use crate::requests::{log_views, RequestLog, RequestLogView};
use crate::timestamps::{
    days_from_monday, first_of_month, hour_zero, minute_zero, weekday_from_monday,
    with_first_day, with_hour_zero, with_minute_zero,
};
use vstd::prelude::*;

verus! {

/// Milliseconds of one hour.
pub const HOUR_MS: i64 = 3_600_000;

/// Milliseconds of one day.
pub const DAY_MS: i64 = 86_400_000;

/// Milliseconds of one week.
pub const WEEK_MS: i64 = 604_800_000;

/// The lowest status that counts as a failure.
pub const FAILURE_STATUS: u16 = 500;

/// The length of the intervals of a chart.
#[derive(Clone, Copy, Debug, PartialEq, Eq, Structural)]
pub enum Granularity {
    Hourly,
    Daily,
    Weekly,
    Monthly,
}

/// What a chart shows.
#[derive(Clone, Copy, Debug, PartialEq, Eq, Structural)]
pub enum StatType {
    Status,
}

/// What a chart is asked for: what it shows, from when, in which intervals.
#[derive(Clone, Copy, Debug)]
pub struct Stats {
    pub stat_type: StatType,
    /// The time from which the chart runs, in milliseconds since the epoch.
    pub from: i64,
    pub granularity: Granularity,
}

impl Granularity {
    /// The length of one interval in milliseconds: an hour, a day, a week,
    /// or four weeks for a month.
    pub open spec fn spec_delta_millis(self) -> i64 {
        match self {
            Granularity::Hourly => HOUR_MS,
            Granularity::Daily => DAY_MS,
            Granularity::Weekly => WEEK_MS,
            Granularity::Monthly => (4 * WEEK_MS) as i64,
        }
    }

    /// The length of one interval in milliseconds.
    pub fn delta_millis(&self) -> (delta: i64)
        ensures
            delta == self.spec_delta_millis(),
            delta > 0,
    {
        match self {
            Granularity::Hourly => HOUR_MS,
            Granularity::Daily => DAY_MS,
            Granularity::Weekly => WEEK_MS,
            Granularity::Monthly => 4 * WEEK_MS,
        }
    }

    /// Where the first interval of a chart starts: at the time from which
    /// the chart runs, with its minute set to zero for hours, its hour set
    /// to zero for days, its day set to the first of the month for months,
    /// and for weeks the first of the month moved back by as many days as
    /// the time lies behind a Monday. `None` where there is no such time.
    pub open spec fn spec_aligned_start(self, from: i64) -> Option<i64> {
        match self {
            Granularity::Hourly => minute_zero(from),
            Granularity::Daily => hour_zero(from),
            Granularity::Monthly => first_of_month(from),
            Granularity::Weekly => match (first_of_month(from), days_from_monday(from)) {
                (Some(first), Some(days)) => if first - days * DAY_MS >= i64::MIN {
                    Some((first - days * DAY_MS) as i64)
                } else {
                    None
                },
                _ => None,
            },
        }
    }

    /// Where the first interval of a chart starts.
    pub fn aligned_start(&self, from: i64) -> (start: Option<i64>)
        ensures
            start == self.spec_aligned_start(from),
    {
        match self {
            Granularity::Hourly => with_minute_zero(from),
            Granularity::Daily => with_hour_zero(from),
            Granularity::Monthly => with_first_day(from),
            Granularity::Weekly => {
                let first = match with_first_day(from) {
                    Some(first) => first,
                    None => {
                        return None;
                    },
                };
                let days = match weekday_from_monday(from) {
                    Some(days) => days,
                    None => {
                        return None;
                    },
                };
                first.checked_sub(days as i64 * DAY_MS)
            },
        }
    }
}

/// The requests of one interval of a chart, counted.
#[derive(Clone, Copy, Debug, PartialEq, Eq, Structural)]
pub struct FailureCount {
    /// The start of the interval, in milliseconds since the epoch.
    pub date: i64,
    /// How many requests of the interval failed.
    pub failures: usize,
    /// How many requests fell into the interval.
    pub total_requests: usize,
}

/// The test that a request was made from `start` on and before `end`.
pub open spec fn in_interval(start: int, end: int) -> spec_fn(RequestLogView) -> bool {
    |log: RequestLogView| start <= log.date < end
}

/// The test that a request was made from `start` on and before `end`, and
/// failed.
pub open spec fn failed_in_interval(start: int, end: int) -> spec_fn(RequestLogView) -> bool {
    |log: RequestLogView| start <= log.date < end && log.status >= FAILURE_STATUS
}

/// The count of the interval that starts at `start` and is `delta` long.
pub open spec fn spec_count(results: Seq<RequestLogView>, start: int, delta: int) -> FailureCount {
    FailureCount {
        date: start as i64,
        failures: results.filter(failed_in_interval(start, start + delta)).len() as usize,
        total_requests: results.filter(in_interval(start, start + delta)).len() as usize,
    }
}

/// How far `from` lies before `now`; zero where it does not.
pub open spec fn span(from: int, now: int) -> nat {
    if from < now {
        (now - from) as nat
    } else {
        0
    }
}

/// The counts of the intervals of length `delta` that start at `from`, at
/// `from + delta` and so on, as long as they start before `now`.
pub open spec fn spec_counts(results: Seq<RequestLogView>, from: int, delta: int, now: int) -> Seq<
    FailureCount,
>
    decreases span(from, now),
{
    if from >= now || delta <= 0 {
        seq![]
    } else {
        seq![spec_count(results, from, delta)] + spec_counts(results, from + delta, delta, now)
    }
}

/// How a filter goes over the last element of a sequence.
proof fn lemma_filter_last(logs: Seq<RequestLogView>, keep: spec_fn(RequestLogView) -> bool)
    requires
        logs.len() > 0,
    ensures
        logs.filter(keep) == if keep(logs.last()) {
            logs.drop_last().filter(keep).push(logs.last())
        } else {
            logs.drop_last().filter(keep)
        },
        logs.filter(keep).len() <= logs.len(),
{
    reveal(Seq::filter);
    logs.drop_last().lemma_filter_len(keep);
}

/// Counts the requests of one interval. The interval has no end where
/// `end` is `None`.
fn count_interval(results: &Vec<RequestLog>, start: i64, end: Option<i64>) -> (count: FailureCount)
    ensures
        count.date == start,
        forall|delta: int|
            (match end {
                Some(end) => start + delta == end,
                None => start + delta > i64::MAX,
            }) ==> count == spec_count(log_views(results@), start as int, delta),
{
    let mut failures: usize = 0;
    let mut total_requests: usize = 0;
    let mut at: usize = 0;
    let ghost all = log_views(results@);
    let ghost upper: int = match end {
        Some(end) => end as int,
        None => i64::MAX + 1,
    };
    proof {
        reveal(Seq::filter);
        assert(all.take(0) =~= Seq::<RequestLogView>::empty());
    }
    while at < results.len()
        invariant
            at <= results.len(),
            all == log_views(results@),
            upper == match end {
                Some(end) => end as int,
                None => i64::MAX + 1,
            },
            total_requests == all.take(at as int).filter(in_interval(start as int, upper)).len(),
            failures == all.take(at as int).filter(
                failed_in_interval(start as int, upper),
            ).len(),
            total_requests <= at,
            failures <= at,
        decreases results.len() - at,
    {
        let log = &results[at];
        proof {
            let next = all.take(at + 1);
            assert(next.drop_last() =~= all.take(at as int));
            assert(next.last() == log@);
            lemma_filter_last(next, in_interval(start as int, upper));
            lemma_filter_last(next, failed_in_interval(start as int, upper));
        }
        let before_end = match end {
            Some(end) => log.date < end,
            None => true,
        };
        if log.date >= start && before_end {
            total_requests = total_requests + 1;
            if log.status >= FAILURE_STATUS {
                failures = failures + 1;
            }
        }
        at = at + 1;
    }
    proof {
        assert(all.take(at as int) =~= all);
        assert forall|delta: int|
            (match end {
                Some(end) => start + delta == end,
                None => start + delta > i64::MAX,
            }) implies FailureCount { date: start, failures, total_requests } == spec_count(
            all,
            start as int,
            delta,
        ) by {
            lemma_same_counts(all, start as int, upper, start + delta);
        }
    }
    FailureCount { date: start, failures, total_requests }
}

/// An interval that ends behind the last time there is holds the same
/// requests as one that ends later still.
proof fn lemma_same_counts(logs: Seq<RequestLogView>, start: int, end: int, other: int)
    requires
        end == other || (end > i64::MAX && other > i64::MAX),
    ensures
        logs.filter(in_interval(start, end)) == logs.filter(in_interval(start, other)),
        logs.filter(failed_in_interval(start, end)) == logs.filter(
            failed_in_interval(start, other),
        ),
    decreases logs.len(),
{
    reveal(Seq::filter);
    if logs.len() > 0 {
        lemma_same_counts(logs.drop_last(), start, end, other);
    }
}

/// Counts the requests of each interval of a chart and adds the counts to
/// `chart_data`: the intervals are `delta` long and start at `from`, at
/// `from + delta` and so on, as long as they start before `now`. An interval
/// holds the requests made from its start on and before its end; those with
/// a status of 500 or more count as failed.
pub fn get_failure_to_success_stats(
    results: &Vec<RequestLog>,
    from: i64,
    delta: i64,
    now: i64,
    chart_data: &mut Vec<FailureCount>,
)
    requires
        delta > 0,
    ensures
        final(chart_data)@ == old(chart_data)@ + spec_counts(
            log_views(results@),
            from as int,
            delta as int,
            now as int,
        ),
{
    let mut start = from;
    let ghost all = log_views(results@);
    let ghost before = chart_data@;
    assert(chart_data@ + spec_counts(all, start as int, delta as int, now as int) == before
        + spec_counts(all, from as int, delta as int, now as int));
    while start < now
        invariant
            delta > 0,
            all == log_views(results@),
            before == old(chart_data)@,
            chart_data@ + spec_counts(all, start as int, delta as int, now as int) == before
                + spec_counts(all, from as int, delta as int, now as int),
        decreases span(start as int, now as int),
    {
        let ghost rest = spec_counts(all, start as int, delta as int, now as int);
        let ghost so_far = chart_data@;
        let next = start.checked_add(delta);
        let count = count_interval(results, start, next);
        assert(count == spec_count(all, start as int, delta as int));
        chart_data.push(count);
        proof {
            let later = spec_counts(all, start + delta, delta as int, now as int);
            assert(rest == seq![count] + later);
            assert(so_far.push(count) + later =~= so_far + rest);
        }
        match next {
            Some(next) => {
                start = next;
            },
            None => {
                proof {
                    assert(spec_counts(all, start + delta, delta as int, now as int)
                        =~= Seq::<FailureCount>::empty());
                    assert(chart_data@ + Seq::<FailureCount>::empty() =~= chart_data@);
                }
                return ;
            },
        }
    }
    assert(chart_data@ + Seq::<FailureCount>::empty() =~= chart_data@);
}

} // verus!
