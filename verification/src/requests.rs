//! Request logs: the entries of the log store, the rows they are stored as,
//! and the pages and suggestions that are cut from them.

use crate::text::{join_text, parse_u16, spec_head, spec_parse_u16, spec_rest, split_first, str_equal};
use crate::timestamps::{formatted_time, log_date, parse_rfc3339, rfc3339_millis, LOG_DATE_FORMAT};
use vstd::prelude::*;

verus! {

/// One logged request with its response, as it is read from the store.
#[derive(Debug)]
pub struct RequestLog {
    pub method: String,
    pub endpoint: String,
    pub params: String,
    pub req_headers: String,
    pub res_headers: String,
    /// When the request was made, in milliseconds since the epoch.
    pub date: i64,
    pub status: u16,
    /// The body of the request as JSON text, if it had one.
    pub req_body: Option<String>,
    /// The body of the response as JSON text, if it had one.
    pub res_body: Option<String>,
    pub res_time: u32,
}

/// What a `RequestLog` holds, with its strings as sequences.
pub struct RequestLogView {
    pub method: Seq<char>,
    pub endpoint: Seq<char>,
    pub params: Seq<char>,
    pub req_headers: Seq<char>,
    pub res_headers: Seq<char>,
    pub date: i64,
    pub status: u16,
    pub req_body: Option<Seq<char>>,
    pub res_body: Option<Seq<char>>,
    pub res_time: u32,
}

/// The view of a string that may be missing.
pub open spec fn text_view(text: Option<String>) -> Option<Seq<char>> {
    match text {
        Some(text) => Some(text@),
        None => None,
    }
}

impl View for RequestLog {
    type V = RequestLogView;

    open spec fn view(&self) -> RequestLogView {
        RequestLogView {
            method: self.method@,
            endpoint: self.endpoint@,
            params: self.params@,
            req_headers: self.req_headers@,
            res_headers: self.res_headers@,
            date: self.date,
            status: self.status,
            req_body: text_view(self.req_body),
            res_body: text_view(self.res_body),
            res_time: self.res_time,
        }
    }
}

/// A copy of a string that may be missing.
fn clone_text(text: &Option<String>) -> (copy: Option<String>)
    ensures
        copy == *text,
{
    match text {
        Some(text) => Some(text.clone()),
        None => None,
    }
}

/// Whether two strings that may be missing hold the same.
fn same_text(a: &Option<String>, b: &Option<String>) -> (same: bool)
    ensures
        same == (text_view(*a) == text_view(*b)),
{
    match (a, b) {
        (Some(a), Some(b)) => str_equal(a.as_str(), b.as_str()),
        (None, None) => true,
        _ => false,
    }
}

impl Clone for RequestLog {
    fn clone(&self) -> (copy: Self)
        ensures
            copy == *self,
    {
        RequestLog {
            method: self.method.clone(),
            endpoint: self.endpoint.clone(),
            params: self.params.clone(),
            req_headers: self.req_headers.clone(),
            res_headers: self.res_headers.clone(),
            date: self.date,
            status: self.status,
            req_body: clone_text(&self.req_body),
            res_body: clone_text(&self.res_body),
            res_time: self.res_time,
        }
    }
}

impl RequestLog {
    /// Whether two entries hold the same in every field.
    pub fn same_as(&self, other: &RequestLog) -> (same: bool)
        ensures
            same == (self@ == other@),
    {
        self.method == other.method && self.endpoint == other.endpoint && self.params
            == other.params && self.req_headers == other.req_headers && self.res_headers
            == other.res_headers && self.date == other.date && self.status == other.status
            && same_text(&self.req_body, &other.req_body) && same_text(
            &self.res_body,
            &other.res_body,
        ) && self.res_time == other.res_time
    }
}

/// The views of a sequence of entries.
pub open spec fn log_views(entries: Seq<RequestLog>) -> Seq<RequestLogView> {
    entries.map_values(|entry: RequestLog| entry@)
}

/// A copy of a list of entries.
pub fn clone_logs(entries: &Vec<RequestLog>) -> (copy: Vec<RequestLog>)
    ensures
        copy@ == entries@,
{
    let mut copy: Vec<RequestLog> = Vec::new();
    let mut at: usize = 0;
    while at < entries.len()
        invariant
            at <= entries.len(),
            copy@ == entries@.take(at as int),
        decreases entries.len() - at,
    {
        copy.push(entries[at].clone());
        assert(copy@ =~= entries@.take(at + 1));
        at = at + 1;
    }
    assert(entries@.take(at as int) =~= entries@);
    copy
}

/// One request with its response, as a client reports it.
#[derive(Debug)]
pub struct RequestLogRequest {
    pub method: String,
    /// The URL of the request, with its query behind a question mark.
    pub url: String,
    pub req_headers: String,
    pub res_headers: String,
    /// When the request was made, in milliseconds since the epoch.
    pub date: i64,
    pub status: u16,
    /// The body of the request as JSON text, if it had one.
    pub req_body: Option<String>,
    /// The body of the response as JSON text, if it had one.
    pub res_body: Option<String>,
    pub res_time: u32,
}

/// A request as the store holds it: every column as the table has it.
#[derive(Debug)]
pub struct RequestRow {
    pub date: String,
    pub endpoint: String,
    pub params: String,
    pub method: String,
    pub req_headers: String,
    pub res_headers: String,
    pub status: String,
    pub req_body: String,
    pub res_body: String,
    pub res_time: u32,
}

/// What a `RequestRow` holds, with its strings as sequences.
pub struct RequestRowView {
    pub date: Seq<char>,
    pub endpoint: Seq<char>,
    pub params: Seq<char>,
    pub method: Seq<char>,
    pub req_headers: Seq<char>,
    pub res_headers: Seq<char>,
    pub status: Seq<char>,
    pub req_body: Seq<char>,
    pub res_body: Seq<char>,
    pub res_time: u32,
}

impl View for RequestRow {
    type V = RequestRowView;

    open spec fn view(&self) -> RequestRowView {
        RequestRowView {
            date: self.date@,
            endpoint: self.endpoint@,
            params: self.params@,
            method: self.method@,
            req_headers: self.req_headers@,
            res_headers: self.res_headers@,
            status: self.status@,
            req_body: self.req_body@,
            res_body: self.res_body@,
            res_time: self.res_time,
        }
    }
}

/// A reported request as it is written to the store.
#[derive(Debug)]
pub struct NewRequestRow {
    pub date: String,
    pub endpoint: String,
    pub params: String,
    pub method: String,
    pub req_headers: String,
    pub res_headers: String,
    pub status: u16,
    pub req_body: String,
    pub res_body: String,
    pub res_time: u32,
}

/// What a `NewRequestRow` holds, with its strings as sequences.
pub struct NewRequestRowView {
    pub date: Seq<char>,
    pub endpoint: Seq<char>,
    pub params: Seq<char>,
    pub method: Seq<char>,
    pub req_headers: Seq<char>,
    pub res_headers: Seq<char>,
    pub status: u16,
    pub req_body: Seq<char>,
    pub res_body: Seq<char>,
    pub res_time: u32,
}

impl View for NewRequestRow {
    type V = NewRequestRowView;

    open spec fn view(&self) -> NewRequestRowView {
        NewRequestRowView {
            date: self.date@,
            endpoint: self.endpoint@,
            params: self.params@,
            method: self.method@,
            req_headers: self.req_headers@,
            res_headers: self.res_headers@,
            status: self.status,
            req_body: self.req_body@,
            res_body: self.res_body@,
            res_time: self.res_time,
        }
    }
}

/// Which column of a stored row could not be read.
#[derive(Clone, Copy, Debug, PartialEq, Eq, Structural)]
pub enum RowError {
    /// The date is no RFC 3339 time.
    Date,
    /// The status is no number of 16 bits.
    Status,
    /// The body of the request is no JSON text.
    RequestBody,
    /// The body of the response is no JSON text.
    ResponseBody,
}

/// What serde_json makes of a stored body: `None` where the text is no JSON;
/// `Some(None)` where it reads as a missing value, as `null` does; else the
/// JSON text that serde_json writes for the value that it read.
pub uninterp spec fn json_body(text: Seq<char>) -> Option<Option<Seq<char>>>;

/// Calls `serde_json::from_str` for an optional `serde_json::Value`, and
/// writes the value that was read back with `Value::to_string`. What counts
/// as JSON and how a value is written is not spelled out: the contract names
/// the result.
#[verifier::external_body]
fn read_json_body(text: &str) -> (body: Result<Option<String>, ()>)
    ensures
        match body {
            Ok(Some(written)) => json_body(text@) == Some(Some(written@)),
            Ok(None) => json_body(text@) == Some(None::<Seq<char>>),
            Err(_) => json_body(text@) is None,
        },
{
    match serde_json::from_str::<Option<serde_json::Value>>(text) {
        Ok(Some(value)) => Ok(Some(value.to_string())),
        Ok(None) => Ok(None),
        Err(_) => Err(()),
    }
}

/// The entry that a stored row stands for, or the first column that cannot
/// be read: the date, then the status, then the two bodies.
pub open spec fn spec_decode_row(row: RequestRowView) -> Result<RequestLogView, RowError> {
    if rfc3339_millis(row.date) is None {
        Err(RowError::Date)
    } else if spec_parse_u16(row.status) is None {
        Err(RowError::Status)
    } else if json_body(row.req_body) is None {
        Err(RowError::RequestBody)
    } else if json_body(row.res_body) is None {
        Err(RowError::ResponseBody)
    } else {
        Ok(
            RequestLogView {
                method: row.method,
                endpoint: row.endpoint,
                params: row.params,
                req_headers: row.req_headers,
                res_headers: row.res_headers,
                date: rfc3339_millis(row.date)->0,
                status: spec_parse_u16(row.status)->0,
                req_body: json_body(row.req_body)->0,
                res_body: json_body(row.res_body)->0,
                res_time: row.res_time,
            },
        )
    }
}

/// What `decode_row` gives for a row, with the entry by its view.
pub open spec fn decoded_view(decoded: Result<RequestLog, RowError>) -> Result<
    RequestLogView,
    RowError,
> {
    match decoded {
        Ok(entry) => Ok(entry@),
        Err(error) => Err(error),
    }
}

/// Reads an entry from a stored row.
pub fn decode_row(row: RequestRow) -> (decoded: Result<RequestLog, RowError>)
    ensures
        decoded_view(decoded) == spec_decode_row(row@),
{
    let date = match parse_rfc3339(row.date.as_str()) {
        Some(date) => date,
        None => {
            return Err(RowError::Date);
        },
    };
    let status = match parse_u16(row.status.as_str()) {
        Some(status) => status,
        None => {
            return Err(RowError::Status);
        },
    };
    let req_body = match read_json_body(row.req_body.as_str()) {
        Ok(body) => body,
        Err(_) => {
            return Err(RowError::RequestBody);
        },
    };
    let res_body = match read_json_body(row.res_body.as_str()) {
        Ok(body) => body,
        Err(_) => {
            return Err(RowError::ResponseBody);
        },
    };
    Ok(
        RequestLog {
            method: row.method,
            endpoint: row.endpoint,
            params: row.params,
            req_headers: row.req_headers,
            res_headers: row.res_headers,
            date,
            status,
            req_body,
            res_body,
            res_time: row.res_time,
        },
    )
}

/// The views of a sequence of stored rows.
pub open spec fn row_views(rows: Seq<RequestRow>) -> Seq<RequestRowView> {
    rows.map_values(|row: RequestRow| row@)
}

/// The entries that stored rows stand for, in their order, or the error of
/// the first row that cannot be read.
pub open spec fn spec_decode_rows(rows: Seq<RequestRowView>) -> Result<
    Seq<RequestLogView>,
    RowError,
>
    decreases rows.len(),
{
    if rows.len() == 0 {
        Ok(seq![])
    } else {
        match spec_decode_rows(rows.drop_last()) {
            Err(error) => Err(error),
            Ok(entries) => match spec_decode_row(rows.last()) {
                Err(error) => Err(error),
                Ok(entry) => Ok(entries.push(entry)),
            },
        }
    }
}

/// Reads the entries of stored rows, in their order. The first row that
/// cannot be read ends the reading with its error.
pub fn decode_rows(rows: Vec<RequestRow>) -> (decoded: Result<Vec<RequestLog>, RowError>)
    ensures
        match decoded {
            Ok(entries) => spec_decode_rows(row_views(rows@)) == Ok::<
                Seq<RequestLogView>,
                RowError,
            >(log_views(entries@)),
            Err(error) => spec_decode_rows(row_views(rows@)) == Err::<
                Seq<RequestLogView>,
                RowError,
            >(error),
        },
{
    let mut entries: Vec<RequestLog> = Vec::new();
    let ghost all = row_views(rows@);
    let total = rows.len();
    assert(all.take(0) =~= Seq::<RequestRowView>::empty());
    assert(log_views(entries@) =~= Seq::<RequestLogView>::empty());
    let mut at: usize = 0;
    for row in it: rows
        invariant
            at == it.index(),
            it.seq() == rows@,
            total == rows@.len(),
            all == row_views(rows@),
            spec_decode_rows(all.take(at as int)) == Ok::<Seq<RequestLogView>, RowError>(
                log_views(entries@),
            ),
    {
        let ghost seen = all.take(at as int);
        let ghost next = all.take(at + 1);
        let ghost before = entries@;
        proof {
            assert(next.drop_last() =~= seen);
            assert(next.last() == row@);
        }
        match decode_row(row) {
            Ok(entry) => {
                entries.push(entry);
                assert(log_views(entries@) =~= log_views(before).push(entry@));
            },
            Err(error) => {
                proof {
                    lemma_decode_rows_fails_on(all, at + 1);
                }
                return Err(error);
            },
        }
        at = at + 1;
    }
    assert(all.take(at as int) =~= all);
    Ok(entries)
}

/// Where the first rows cannot be read, the rows cannot be read, for the
/// same reason.
pub proof fn lemma_decode_rows_fails_on(rows: Seq<RequestRowView>, k: int)
    requires
        0 <= k <= rows.len(),
        spec_decode_rows(rows.take(k)) is Err,
    ensures
        spec_decode_rows(rows) == spec_decode_rows(rows.take(k)),
    decreases rows.len(),
{
    if k == rows.len() {
        assert(rows.take(k) =~= rows);
    } else {
        let front = rows.drop_last();
        assert(front.take(k) =~= rows.take(k));
        lemma_decode_rows_fails_on(front, k);
    }
}

/// The text of a string that may be missing, or `default` in its place.
pub open spec fn spec_text_or(text: Option<Seq<char>>, default: Seq<char>) -> Seq<char> {
    match text {
        Some(text) => text,
        None => default,
    }
}

/// A copy of a string that may be missing, or of `default` in its place.
pub fn text_or(text: &Option<String>, default: &str) -> (chosen: String)
    ensures
        chosen@ == spec_text_or(text_view(*text), default@),
{
    match text {
        Some(text) => text.clone(),
        None => default.to_owned(),
    }
}

/// The endpoint of a URL: what stands before its first question mark.
pub open spec fn spec_endpoint(url: Seq<char>) -> Seq<char> {
    spec_head(url, '?')
}

/// The query of a URL: what stands between its first question mark and the
/// next; nothing where it has no question mark.
pub open spec fn spec_params(url: Seq<char>) -> Seq<char> {
    match spec_rest(url, '?') {
        Some(rest) => spec_head(rest, '?'),
        None => seq![],
    }
}

/// Cuts a URL into its endpoint and its query.
pub fn split_url(url: &str) -> (parts: (String, String))
    ensures
        parts.0@ == spec_endpoint(url@),
        parts.1@ == spec_params(url@),
{
    let (endpoint, rest) = split_first(url, '?');
    match rest {
        Some(rest) => {
            let (params, _) = split_first(rest.as_str(), '?');
            (endpoint, params)
        },
        None => (endpoint, String::new()),
    }
}

/// What a `RequestLogRequest` holds, with its strings as sequences.
pub struct RequestLogRequestView {
    pub method: Seq<char>,
    pub url: Seq<char>,
    pub req_headers: Seq<char>,
    pub res_headers: Seq<char>,
    pub date: i64,
    pub status: u16,
    pub req_body: Option<Seq<char>>,
    pub res_body: Option<Seq<char>>,
    pub res_time: u32,
}

impl View for RequestLogRequest {
    type V = RequestLogRequestView;

    open spec fn view(&self) -> RequestLogRequestView {
        RequestLogRequestView {
            method: self.method@,
            url: self.url@,
            req_headers: self.req_headers@,
            res_headers: self.res_headers@,
            date: self.date,
            status: self.status,
            req_body: text_view(self.req_body),
            res_body: text_view(self.res_body),
            res_time: self.res_time,
        }
    }
}

/// The row that a reported request is stored as: its date in the form of
/// the store, its URL cut into endpoint and query, and `null` for a body
/// that it does not have. `None` where the date is beyond what can be
/// written.
pub open spec fn spec_new_row(request: RequestLogRequestView) -> Option<NewRequestRowView> {
    match formatted_time(request.date, LOG_DATE_FORMAT@) {
        Some(date) => Some(
            NewRequestRowView {
                date,
                endpoint: spec_endpoint(request.url),
                params: spec_params(request.url),
                method: request.method,
                req_headers: request.req_headers,
                res_headers: request.res_headers,
                status: request.status,
                req_body: spec_text_or(request.req_body, "null"@),
                res_body: spec_text_or(request.res_body, "null"@),
                res_time: request.res_time,
            },
        ),
        None => None,
    }
}

impl RequestLogRequest {
    /// The row that the request is stored as.
    pub fn to_row(&self) -> (row: Option<NewRequestRow>)
        ensures
            match row {
                Some(row) => spec_new_row(self@) == Some(row@),
                None => spec_new_row(self@) is None,
            },
    {
        let date = match log_date(self.date) {
            Some(date) => date,
            None => {
                return None;
            },
        };
        let (endpoint, params) = split_url(self.url.as_str());
        Some(
            NewRequestRow {
                date,
                endpoint,
                params,
                method: self.method.clone(),
                req_headers: self.req_headers.clone(),
                res_headers: self.res_headers.clone(),
                status: self.status,
                req_body: text_or(&self.req_body, "null"),
                res_body: text_or(&self.res_body, "null"),
                res_time: self.res_time,
            },
        )
    }
}

/// The order in which entries are read from the store.
#[derive(Clone, Copy, Debug, PartialEq, Eq, Structural)]
pub enum Order {
    Ascending,
    Descending,
}

impl Order {
    /// The word for the order in a query.
    pub fn sql_keyword(&self) -> (word: &'static str)
        ensures
            word@ == match self {
                Order::Ascending => "ASC"@,
                Order::Descending => "DESC"@,
            },
    {
        match self {
            Order::Ascending => "ASC",
            Order::Descending => "DESC",
        }
    }
}

/// The body of a response with the date of its request.
#[derive(Debug)]
pub struct ResponseBody {
    pub date: String,
    pub response_body: String,
}

/// One page of entries, with the number of all entries that the page was
/// cut from.
#[derive(Debug)]
pub struct PaginatedRequests {
    pub requests: Vec<RequestLog>,
    pub total_items: usize,
}

/// What a `PaginatedRequests` holds, with its entries by their views.
pub struct PaginatedRequestsView {
    pub requests: Seq<RequestLogView>,
    pub total_items: usize,
}

impl View for PaginatedRequests {
    type V = PaginatedRequestsView;

    open spec fn view(&self) -> PaginatedRequestsView {
        PaginatedRequestsView {
            requests: log_views(self.requests@),
            total_items: self.total_items,
        }
    }
}

/// Where a page starts among `len` entries: at `index`, or at the end where
/// `index` is beyond it.
pub open spec fn page_start(len: int, index: int) -> int {
    if index < len {
        index
    } else {
        len
    }
}

/// Where a page ends among `len` entries: `limit` entries behind `index`, or
/// at the end where that is beyond it.
pub open spec fn page_end(len: int, index: int, limit: int) -> int {
    if index + limit < len {
        index + limit
    } else {
        len
    }
}

/// The page of at most `limit` entries that starts at `index`, with the
/// number of all entries.
pub open spec fn spec_paginate(entries: Seq<RequestLogView>, index: usize, limit: usize) -> PaginatedRequestsView {
    PaginatedRequestsView {
        requests: entries.subrange(
            page_start(entries.len() as int, index as int),
            page_end(entries.len() as int, index as int, limit as int),
        ),
        total_items: entries.len() as usize,
    }
}

/// Cuts the page of at most `limit` entries that starts at `index`. A page
/// that starts behind the last entry is empty.
pub fn paginate(entries: &Vec<RequestLog>, index: usize, limit: usize) -> (page: PaginatedRequests)
    ensures
        page@ == spec_paginate(log_views(entries@), index, limit),
{
    let len = entries.len();
    let start = if index < len {
        index
    } else {
        len
    };
    let end = if limit < len - start {
        start + limit
    } else {
        len
    };
    let mut requests: Vec<RequestLog> = Vec::new();
    let mut at: usize = start;
    let ghost all = log_views(entries@);
    assert(all.subrange(start as int, start as int) =~= Seq::<RequestLogView>::empty());
    assert(log_views(requests@) =~= Seq::<RequestLogView>::empty());
    while at < end
        invariant
            start <= at <= end <= entries.len(),
            all == log_views(entries@),
            log_views(requests@) == all.subrange(start as int, at as int),
        decreases end - at,
    {
        let ghost before = log_views(requests@);
        requests.push(entries[at].clone());
        assert(log_views(requests@) =~= before.push(all[at as int]));
        assert(all.subrange(start as int, at + 1) =~= all.subrange(start as int, at as int).push(
            all[at as int],
        ));
        at = at + 1;
    }
    PaginatedRequests { requests, total_items: len }
}

/// A stored row together with the number of all rows that its query found.
#[derive(Debug)]
pub struct CountedRow {
    pub row: RequestRow,
    pub total_count: usize,
}

/// The rows of a sequence of counted rows.
pub open spec fn counted_row_views(rows: Seq<CountedRow>) -> Seq<RequestRowView> {
    rows.map_values(|counted: CountedRow| counted.row@)
}

/// The number that the last of the counted rows carries; zero for no rows.
pub open spec fn last_count(rows: Seq<CountedRow>) -> usize {
    if rows.len() == 0 {
        0
    } else {
        rows.last().total_count
    }
}

/// Reads a page from the counted rows of a query: the entries of the rows,
/// and the number of all rows that the query found. The first row that
/// cannot be read ends the reading with its error.
pub fn page_from_rows(rows: Vec<CountedRow>) -> (page: Result<PaginatedRequests, RowError>)
    ensures
        match page {
            Ok(page) => spec_decode_rows(counted_row_views(rows@)) == Ok::<
                Seq<RequestLogView>,
                RowError,
            >(page@.requests) && page.total_items == last_count(rows@),
            Err(error) => spec_decode_rows(counted_row_views(rows@)) == Err::<
                Seq<RequestLogView>,
                RowError,
            >(error),
        },
{
    let mut plain: Vec<RequestRow> = Vec::new();
    let mut total_items: usize = 0;
    let total = rows.len();
    let ghost all = counted_row_views(rows@);
    let mut at: usize = 0;
    assert(row_views(plain@) =~= all.take(0));
    for counted in it: rows
        invariant
            at == it.index(),
            it.seq() == rows@,
            total == rows@.len(),
            all == counted_row_views(rows@),
            row_views(plain@) == all.take(at as int),
            total_items == last_count(rows@.take(at as int)),
    {
        let ghost before = row_views(plain@);
        total_items = counted.total_count;
        plain.push(counted.row);
        assert(row_views(plain@) =~= before.push(counted.row@));
        assert(all.take(at + 1) =~= all.take(at as int).push(counted.row@));
        assert(rows@.take(at + 1).last() == counted);
        at = at + 1;
    }
    assert(all.take(at as int) =~= all);
    assert(rows@.take(at as int) =~= rows@);
    match decode_rows(plain) {
        Ok(requests) => Ok(PaginatedRequests { requests, total_items }),
        Err(error) => Err(error),
    }
}

/// The views of a sequence of strings.
pub open spec fn string_views(texts: Seq<String>) -> Seq<Seq<char>> {
    texts.map_values(|text: String| text@)
}

/// The paths of the endpoints, each once, in the order in which they first
/// occur. The path of an endpoint is what stands before its first question
/// mark.
pub open spec fn spec_unique_paths(endpoints: Seq<Seq<char>>) -> Seq<Seq<char>>
    decreases endpoints.len(),
{
    if endpoints.len() == 0 {
        seq![]
    } else {
        let before = spec_unique_paths(endpoints.drop_last());
        let path = spec_endpoint(endpoints.last());
        if before.contains(path) {
            before
        } else {
            before.push(path)
        }
    }
}

/// Whether one of the texts is `wanted`.
fn holds_text(texts: &Vec<String>, wanted: &str) -> (found: bool)
    ensures
        found == string_views(texts@).contains(wanted@),
{
    let mut at: usize = 0;
    while at < texts.len()
        invariant
            at <= texts.len(),
            forall|i: int| 0 <= i < at ==> string_views(texts@)[i] != wanted@,
        decreases texts.len() - at,
    {
        if str_equal(texts[at].as_str(), wanted) {
            assert(string_views(texts@)[at as int] == wanted@);
            return true;
        }
        at = at + 1;
    }
    false
}

/// The paths of the endpoints, each once, in the order in which they first
/// occur: what a search suggests.
pub fn unique_paths(endpoints: &Vec<String>) -> (paths: Vec<String>)
    ensures
        string_views(paths@) == spec_unique_paths(string_views(endpoints@)),
{
    let mut paths: Vec<String> = Vec::new();
    let ghost all = string_views(endpoints@);
    let mut at: usize = 0;
    assert(all.take(0) =~= Seq::<Seq<char>>::empty());
    assert(string_views(paths@) =~= Seq::<Seq<char>>::empty());
    while at < endpoints.len()
        invariant
            at <= endpoints.len(),
            all == string_views(endpoints@),
            string_views(paths@) == spec_unique_paths(all.take(at as int)),
        decreases endpoints.len() - at,
    {
        proof {
            let next = all.take(at + 1);
            assert(next.drop_last() =~= all.take(at as int));
            assert(next.last() == endpoints[at as int]@);
        }
        let (path, _) = split_first(endpoints[at].as_str(), '?');
        if !holds_text(&paths, path.as_str()) {
            let ghost before = string_views(paths@);
            paths.push(path);
            assert(string_views(paths@) =~= before.push(path@));
        }
        at = at + 1;
    }
    assert(all.take(at as int) =~= all);
    paths
}

/// No path is suggested twice, and every path that is suggested is the path
/// of one of the endpoints.
pub proof fn lemma_unique_paths(endpoints: Seq<Seq<char>>)
    ensures
        spec_unique_paths(endpoints).no_duplicates(),
        forall|i: int|
            0 <= i < endpoints.len() ==> spec_unique_paths(endpoints).contains(
                spec_endpoint(#[trigger] endpoints[i]),
            ),
        forall|k: int|
            0 <= k < spec_unique_paths(endpoints).len() ==> exists|i: int|
                0 <= i < endpoints.len() && spec_endpoint(endpoints[i]) == #[trigger] spec_unique_paths(
                    endpoints,
                )[k],
    decreases endpoints.len(),
{
    if endpoints.len() > 0 {
        let front = endpoints.drop_last();
        let before = spec_unique_paths(front);
        let paths = spec_unique_paths(endpoints);
        let path = spec_endpoint(endpoints.last());
        lemma_unique_paths(front);
        assert forall|i: int| 0 <= i < endpoints.len() implies paths.contains(
            spec_endpoint(#[trigger] endpoints[i]),
        ) by {
            if i < front.len() {
                assert(front[i] == endpoints[i]);
                let k = choose|k: int|
                    0 <= k < before.len() && before[k] == spec_endpoint(front[i]);
                assert(paths[k] == spec_endpoint(endpoints[i]));
            } else {
                if before.contains(path) {
                } else {
                    assert(paths[paths.len() - 1] == path);
                }
            }
        }
        assert forall|k: int| 0 <= k < paths.len() implies exists|i: int|
            0 <= i < endpoints.len() && spec_endpoint(endpoints[i]) == #[trigger] paths[k] by {
            if k < before.len() {
                let i = choose|i: int|
                    0 <= i < front.len() && spec_endpoint(front[i]) == before[k];
                assert(spec_endpoint(endpoints[i]) == paths[k]);
            } else {
                assert(spec_endpoint(endpoints[endpoints.len() - 1]) == paths[k]);
            }
        }
    }
}

/// The pattern that finds the texts which hold `keyword`.
pub fn like_pattern(keyword: &str) -> (pattern: String)
    ensures
        pattern@ == "%"@ + keyword@ + "%"@,
{
    let front = join_text("%", keyword);
    join_text(front.as_str(), "%")
}

} // verus!
