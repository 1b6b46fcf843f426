//! What the read calls are asked for, and the values that their queries are
//! run with.

use crate::requests::{like_pattern, spec_text_or, text_or, text_view};
use crate::timestamps::{formatted_time, log_date, LOG_DATE_FORMAT};
use vstd::prelude::*;

verus! {

/// How many suggestions a search gives where it is asked for no number.
pub const DEFAULT_SUGGESTIONS: usize = 5;

/// How many endpoints are listed for each status where no number is asked
/// for.
pub const DEFAULT_RANK_LIMIT: usize = 3;

/// A span of time that ends now.
#[derive(Clone, Copy, Debug, PartialEq, Eq, Structural)]
pub enum TimeRange {
    Today,
    PastWeek,
    PastMonth,
}

/// How uptime is summed up.
#[derive(Clone, Copy, Debug, PartialEq, Eq, Structural)]
pub enum UptimeType {
    PerHour,
    Total,
}

impl UptimeType {
    /// The name of the kind.
    pub fn as_str(&self) -> (name: &'static str)
        ensures
            name@ == match self {
                UptimeType::PerHour => "PerHour"@,
                UptimeType::Total => "Total"@,
            },
    {
        match self {
            UptimeType::PerHour => "PerHour",
            UptimeType::Total => "Total",
        }
    }
}

/// What an uptime call is asked for.
#[derive(Clone, Copy, Debug)]
pub struct Uptime {
    pub uptime_type: UptimeType,
}

/// The time from which entries are asked for, in milliseconds since the
/// epoch.
#[derive(Clone, Copy, Debug)]
pub struct FromDate {
    pub from: i64,
}

impl FromDate {
    /// The time in the form of the store, as the query is run with it.
    pub fn bind(&self) -> (text: Option<String>)
        ensures
            match text {
                Some(written) => formatted_time(self.from, LOG_DATE_FORMAT@) == Some(written@),
                None => formatted_time(self.from, LOG_DATE_FORMAT@) is None,
            },
    {
        log_date(self.from)
    }
}

/// What the list of endpoints by status is asked for.
#[derive(Clone, Copy, Debug)]
pub struct StatsByStatus {
    /// The time from which requests count, in milliseconds since the epoch.
    pub from: i64,
    /// How many endpoints are listed for each status.
    pub limit: Option<usize>,
}

impl StatsByStatus {
    /// How many endpoints are listed for each status: three where no number
    /// is asked for.
    pub fn rank_limit(&self) -> (limit: usize)
        ensures
            limit == match self.limit {
                Some(limit) => limit,
                None => DEFAULT_RANK_LIMIT,
            },
    {
        match self.limit {
            Some(limit) => limit,
            None => DEFAULT_RANK_LIMIT,
        }
    }
}

/// What search suggestions are asked for.
#[derive(Debug)]
pub struct SearchByMethodAndKeyword {
    pub keyword: String,
    pub method: Option<String>,
    pub limit: Option<usize>,
}

impl SearchByMethodAndKeyword {
    /// The pattern that finds the endpoints which hold the keyword.
    pub fn pattern(&self) -> (pattern: String)
        ensures
            pattern@ == "%"@ + self.keyword@ + "%"@,
    {
        like_pattern(self.keyword.as_str())
    }

    /// How many rows are read: five where no number is asked for.
    pub fn row_limit(&self) -> (limit: usize)
        ensures
            limit == match self.limit {
                Some(limit) => limit,
                None => DEFAULT_SUGGESTIONS,
            },
    {
        match self.limit {
            Some(limit) => limit,
            None => DEFAULT_SUGGESTIONS,
        }
    }
}

/// What a page of a search is asked for.
#[derive(Debug)]
pub struct PaginatedSearch {
    pub keyword: String,
    pub method: Option<String>,
    pub index: usize,
    pub limit: usize,
    pub status: Option<String>,
    pub res_time_l_t: Option<String>,
    pub res_time_h_t: Option<String>,
}

impl PaginatedSearch {
    /// The pattern that finds the endpoints which hold the keyword.
    pub fn pattern(&self) -> (pattern: String)
        ensures
            pattern@ == "%"@ + self.keyword@ + "%"@,
    {
        like_pattern(self.keyword.as_str())
    }

    /// The method that the search is for: `ALL` where it names none.
    pub fn method_or_all(&self) -> (method: String)
        ensures
            method@ == spec_text_or(text_view(self.method), "ALL"@),
    {
        text_or(&self.method, "ALL")
    }
}

/// What a page of the log is asked for.
#[derive(Debug)]
pub struct LogTimeRange {
    /// The time after which requests count, in milliseconds since the epoch.
    pub from: i64,
    /// The time up to which requests count; now where it is left out.
    pub to: Option<i64>,
    pub limit: usize,
    pub index: usize,
    pub search: Option<String>,
    pub method: Option<String>,
    pub status: Option<String>,
    pub res_time_l_t: Option<String>,
    pub res_time_g_t: Option<String>,
}

/// The values that the query of a page of the log is run with.
#[derive(Debug)]
pub struct PageBinds {
    pub from: String,
    pub to: String,
    pub pattern: String,
    pub method: String,
    pub status: String,
    pub res_time_lt: String,
    pub res_time_gt: String,
    pub limit: usize,
    pub offset: usize,
}

/// What a `LogTimeRange` holds, with its strings as sequences.
pub struct LogTimeRangeView {
    pub from: i64,
    pub to: Option<i64>,
    pub limit: usize,
    pub index: usize,
    pub search: Option<Seq<char>>,
    pub method: Option<Seq<char>>,
    pub status: Option<Seq<char>>,
    pub res_time_l_t: Option<Seq<char>>,
    pub res_time_g_t: Option<Seq<char>>,
}

impl View for LogTimeRange {
    type V = LogTimeRangeView;

    open spec fn view(&self) -> LogTimeRangeView {
        LogTimeRangeView {
            from: self.from,
            to: self.to,
            limit: self.limit,
            index: self.index,
            search: text_view(self.search),
            method: text_view(self.method),
            status: text_view(self.status),
            res_time_l_t: text_view(self.res_time_l_t),
            res_time_g_t: text_view(self.res_time_g_t),
        }
    }
}

/// What a `PageBinds` holds, with its strings as sequences.
pub struct PageBindsView {
    pub from: Seq<char>,
    pub to: Seq<char>,
    pub pattern: Seq<char>,
    pub method: Seq<char>,
    pub status: Seq<char>,
    pub res_time_lt: Seq<char>,
    pub res_time_gt: Seq<char>,
    pub limit: usize,
    pub offset: usize,
}

impl View for PageBinds {
    type V = PageBindsView;

    open spec fn view(&self) -> PageBindsView {
        PageBindsView {
            from: self.from@,
            to: self.to@,
            pattern: self.pattern@,
            method: self.method@,
            status: self.status@,
            res_time_lt: self.res_time_lt@,
            res_time_gt: self.res_time_gt@,
            limit: self.limit,
            offset: self.offset,
        }
    }
}

/// The values that the query of a page is run with at the time `now`: the
/// two ends of the span in the form of the store, the end being now where
/// none is asked for; the pattern of the search; `ALL` for no method; and
/// nothing for each test that is left out. `None` where one end of the span
/// is beyond what can be written.
pub open spec fn spec_page_binds(range: LogTimeRangeView, now: i64) -> Option<PageBindsView> {
    let to = match range.to {
        Some(to) => to,
        None => now,
    };
    match (formatted_time(range.from, LOG_DATE_FORMAT@), formatted_time(to, LOG_DATE_FORMAT@)) {
        (Some(from), Some(to)) => Some(
            PageBindsView {
                from,
                to,
                pattern: "%"@ + spec_text_or(range.search, ""@) + "%"@,
                method: spec_text_or(range.method, "ALL"@),
                status: spec_text_or(range.status, ""@),
                res_time_lt: spec_text_or(range.res_time_l_t, ""@),
                res_time_gt: spec_text_or(range.res_time_g_t, ""@),
                limit: range.limit,
                offset: range.index,
            },
        ),
        _ => None,
    }
}

impl LogTimeRange {
    /// The values that the query of the page is run with at the time `now`.
    pub fn binds(&self, now: i64) -> (binds: Option<PageBinds>)
        ensures
            match binds {
                Some(binds) => spec_page_binds(self@, now) == Some(binds@),
                None => spec_page_binds(self@, now) is None,
            },
    {
        let from = match log_date(self.from) {
            Some(from) => from,
            None => {
                return None;
            },
        };
        let end = match self.to {
            Some(to) => to,
            None => now,
        };
        let to = match log_date(end) {
            Some(to) => to,
            None => {
                return None;
            },
        };
        let keyword = text_or(&self.search, "");
        Some(
            PageBinds {
                from,
                to,
                pattern: like_pattern(keyword.as_str()),
                method: text_or(&self.method, "ALL"),
                status: text_or(&self.status, ""),
                res_time_lt: text_or(&self.res_time_l_t, ""),
                res_time_gt: text_or(&self.res_time_g_t, ""),
                limit: self.limit,
                offset: self.index,
            },
        )
    }
}

/// The start of the span before the one that runs from `from` to `now`, and
/// is as long: `from` moved back by the length of the span. `None` where
/// that is beyond the times there are.
pub open spec fn spec_previous_start(from: i64, now: i64) -> Option<i64> {
    if i64::MIN <= from - (now - from) <= i64::MAX {
        Some((from - (now - from)) as i64)
    } else {
        None
    }
}

/// The start of the span before the one that runs from `from` to `now`.
pub fn previous_start(from: i64, now: i64) -> (start: Option<i64>)
    ensures
        start == spec_previous_start(from, now),
{
    match now.checked_sub(from) {
        Some(length) => from.checked_sub(length),
        None => {
            // The span is longer than any time: so is the way back.
            if now >= from {
                assert(from - (now - from) < i64::MIN);
            } else {
                assert(from - (now - from) > i64::MAX);
            }
            None
        },
    }
}

} // verus!
