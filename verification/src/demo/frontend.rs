//! Helpers of the demo front end: the time frames of the quotes page, the
//! "... ago" text of a quote's age, what a back-end answer to a quote request
//! means, and the responses the front end sends.
use vstd::prelude::*;
use crate::json::{json_view, lemma_entry_views, entry_views, JsonValue, JsonView};
use crate::livetrace::display::{i64_text, i64_to_string};
use crate::pairs::pairs_view;
use crate::text::{decimal_text, u64_to_string};

verus! {

/// A time frame of the quotes page: the quotes whose age is at least
/// `start_hours` and less than `end_hours`.
pub struct TimeFrame {
    pub start_hours: i64,
    pub end_hours: i64,
    pub name: String,
}

/// The frames by name: `now` is the last six hours, `earlier` six to
/// twenty-four hours ago, `yesterday` the day before.
pub open spec fn frame_bounds(param: Seq<char>) -> Option<(i64, i64)> {
    if param == "now"@ {
        Some((0, 6))
    } else if param == "earlier"@ {
        Some((6, 24))
    } else if param == "yesterday"@ {
        Some((24, 48))
    } else {
        None
    }
}

impl TimeFrame {
    /// The frame named by a query parameter (see `frame_bounds`).
    pub fn from_param(param: &str) -> (r: Option<TimeFrame>)
        ensures
            match r {
                Some(f) => frame_bounds(param@) == Some((f.start_hours, f.end_hours)) && f.name@ == param@,
                None => frame_bounds(param@) is None,
            },
    {
        let bounds: Option<(i64, i64)> = if crate::text::str_eq(param, "now") {
            Some((0, 6))
        } else if crate::text::str_eq(param, "earlier") {
            Some((6, 24))
        } else if crate::text::str_eq(param, "yesterday") {
            Some((24, 48))
        } else {
            None
        };
        match bounds {
            Some((start_hours, end_hours)) => Some(TimeFrame { start_hours, end_hours, name: String::from_str(param) }),
            None => None,
        }
    }

    /// Whether a quote of this age is in the frame. The age is given by its
    /// whole seconds rounded down (the `secs` of a `chrono::TimeDelta`, whose
    /// nanoseconds are never negative), which decides the comparison with
    /// whole hours.
    pub fn contains_age(&self, age_floor_secs: i64) -> (b: bool)
        requires
            -2562047788015215 <= self.start_hours <= 2562047788015215,
            -2562047788015215 <= self.end_hours <= 2562047788015215,
        ensures
            b == (age_floor_secs >= self.start_hours * 3600 && age_floor_secs < self.end_hours * 3600),
    {
        age_floor_secs >= self.start_hours * 3600 && age_floor_secs < self.end_hours * 3600
    }
}

/// Rust's division rounds toward zero (the spec's `/` rounds down).
pub open spec fn div_toward_zero(a: int, b: int) -> int {
    if a >= 0 {
        a / b
    } else {
        -((-a) / b)
    }
}

/// The text of an age given in whole seconds rounded toward zero
/// (`TimeDelta::num_seconds`): its minutes under an hour, its hours under a
/// day, its days otherwise, each rounded toward zero.
pub open spec fn relative_time_spec(secs: i64) -> Seq<char> {
    let minutes = div_toward_zero(secs as int, 60);
    let hours = div_toward_zero(secs as int, 3600);
    if minutes < 60 {
        i64_text(minutes as i64) + " minutes ago"@
    } else if hours < 24 {
        i64_text(hours as i64) + " hours ago"@
    } else {
        i64_text(div_toward_zero(secs as int, 86400) as i64) + " days ago"@
    }
}

/// The text of an age (see `relative_time_spec`).
pub fn relative_time_text(secs: i64) -> (r: String)
    ensures
        r@ == relative_time_spec(secs),
{
    let minutes = secs / 60;
    let hours = secs / 3600;
    let days = secs / 86400;
    let (n, unit) = if minutes < 60 {
        (minutes, " minutes ago")
    } else if hours < 24 {
        (hours, " hours ago")
    } else {
        (days, " days ago")
    };
    let mut r = i64_to_string(n);
    r.append(unit);
    r
}

/// A response of the front end: status code, headers (in the order
/// `serde_json`'s map keeps them) and body text.
pub open spec fn response_view(status_code: u16, headers: Seq<(Seq<char>, Seq<char>)>, body: Seq<char>) -> JsonView {
    JsonView::Object(
        seq![
            ("body"@, JsonView::Str(body)),
            ("headers"@, JsonView::Object(headers.map_values(|h: (Seq<char>, Seq<char>)| (h.0, JsonView::Str(h.1))))),
            ("statusCode"@, JsonView::PosInt(status_code as u64)),
        ],
    )
}

fn response(status_code: u16, headers: Vec<(String, String)>, body: String) -> (r: JsonValue)
    ensures
        json_view(r) == response_view(status_code, pairs_view(headers@), body@),
{
    let ghost hv = pairs_view(headers@);
    let ghost b = body@;
    let mut entries: Vec<(String, JsonValue)> = Vec::new();
    let mut i: usize = 0;
    while i < headers.len()
        invariant
            i <= headers@.len(),
            entries@.len() == i,
            forall|k: int|
                0 <= k < i ==> (#[trigger] entries@[k]).0@ == headers@[k].0@ && entries@[k].1 == JsonValue::Str(
                    headers@[k].1,
                ),
        decreases headers@.len() - i,
    {
        entries.push((headers[i].0.clone(), JsonValue::Str(headers[i].1.clone())));
        i = i + 1;
    }
    let ghost ev = entries@;
    proof {
        lemma_entry_views(ev, ev.len() as int);
        assert(entry_views(ev, ev.len() as int) =~= hv.map_values(
            |h: (Seq<char>, Seq<char>)| (h.0, JsonView::Str(h.1)),
        ));
    }
    let mut top: Vec<(String, JsonValue)> = Vec::new();
    top.push((String::from_str("body"), JsonValue::Str(body)));
    top.push((String::from_str("headers"), JsonValue::Object(entries)));
    top.push((String::from_str("statusCode"), JsonValue::PosInt(status_code as u64)));
    let ghost tv = top@;
    proof {
        lemma_entry_views(tv, 3);
        assert(entry_views(tv, 3) =~= match response_view(status_code, hv, b) {
            JsonView::Object(x) => x,
            _ => Seq::empty(),
        });
    }
    JsonValue::Object(top)
}

fn header(name: &str, value: &str) -> (h: (String, String))
    ensures
        h.0@ == name@,
        h.1@ == value@,
{
    (String::from_str(name), String::from_str(value))
}

/// The headers of an HTML page that must not be cached.
pub open spec fn html_headers() -> Seq<(Seq<char>, Seq<char>)> {
    seq![
        ("Cache-Control"@, "no-store, no-cache, must-revalidate, proxy-revalidate"@),
        ("Content-Type"@, "text/html"@),
    ]
}

/// An HTML response: the status code, the HTML content type with caching
/// disabled, and the page.
pub fn html_response(status_code: u16, html_content: String) -> (r: JsonValue)
    ensures
        json_view(r) == response_view(status_code, html_headers(), html_content@),
{
    let mut headers: Vec<(String, String)> = Vec::new();
    headers.push(header("Cache-Control", "no-store, no-cache, must-revalidate, proxy-revalidate"));
    headers.push(header("Content-Type", "text/html"));
    assert(pairs_view(headers@) =~= html_headers());
    response(status_code, headers, html_content)
}

/// The redirect of `/` to `/now`.
pub open spec fn root_redirect_view() -> JsonView {
    response_view(
        301,
        seq![("Cache-Control"@, "public, max-age=60"@), ("Content-Type"@, "text/html"@), ("Location"@, "/now"@)],
        "<!DOCTYPE html><html><head><meta http-equiv=\"refresh\" content=\"0;url=/now\"></head><body>Redirecting to <a href=\"/now\">/now</a>...</body></html>"@,
    )
}

/// The answer to `GET /`: a permanent redirect to `/now`.
pub fn root_redirect_response() -> (r: JsonValue)
    ensures
        json_view(r) == root_redirect_view(),
{
    let mut headers: Vec<(String, String)> = Vec::new();
    headers.push(header("Cache-Control", "public, max-age=60"));
    headers.push(header("Content-Type", "text/html"));
    headers.push(header("Location", "/now"));
    assert(pairs_view(headers@) =~= seq![
        ("Cache-Control"@, "public, max-age=60"@),
        ("Content-Type"@, "text/html"@),
        ("Location"@, "/now"@),
    ]);
    response(
        301,
        headers,
        String::from_str(
            "<!DOCTYPE html><html><head><meta http-equiv=\"refresh\" content=\"0;url=/now\"></head><body>Redirecting to <a href=\"/now\">/now</a>...</body></html>",
        ),
    )
}

/// The answer to a time frame that `TimeFrame::from_param` does not know.
pub open spec fn invalid_time_frame_view() -> JsonView {
    response_view(
        404,
        seq![("Cache-Control"@, "public, max-age=60"@), ("Content-Type"@, "text/plain"@)],
        "Invalid time frame"@,
    )
}

pub fn invalid_time_frame_response() -> (r: JsonValue)
    ensures
        json_view(r) == invalid_time_frame_view(),
{
    let mut headers: Vec<(String, String)> = Vec::new();
    headers.push(header("Cache-Control", "public, max-age=60"));
    headers.push(header("Content-Type", "text/plain"));
    assert(pairs_view(headers@) =~= seq![("Cache-Control"@, "public, max-age=60"@), ("Content-Type"@, "text/plain"@)]);
    response(404, headers, String::from_str("Invalid time frame"))
}

/// Why a quote could not be fetched.
pub enum QuoteError {
    /// The back end has no such quote (the message names it).
    NotFound(String),
    /// The back end answered with another error status, and this body.
    BackendError(u16, String),
    /// The request could not be made or its answer read.
    RequestError(String),
}

impl QuoteError {
    /// The error's text.
    pub fn message(&self) -> (r: String)
        ensures
            r@ == match self {
                QuoteError::NotFound(m) => "Quote "@ + m@ + " not found"@,
                QuoteError::BackendError(s, m) => "Backend error "@ + decimal_text(*s as nat) + ": "@ + m@,
                QuoteError::RequestError(m) => "Request error: "@ + m@,
            },
    {
        match self {
            QuoteError::NotFound(m) => {
                let mut r = String::from_str("Quote ");
                r.append(m.as_str());
                r.append(" not found");
                r
            },
            QuoteError::BackendError(s, m) => {
                let mut r = String::from_str("Backend error ");
                r.append(u64_to_string(*s as u64).as_str());
                r.append(": ");
                r.append(m.as_str());
                r
            },
            QuoteError::RequestError(m) => {
                let mut r = String::from_str("Request error: ");
                r.append(m.as_str());
                r
            },
        }
    }
}

/// What the back end's status means for a quote request: success (2xx) lets
/// the body be read; 404 is "Quote <id> not found"; any other status is a
/// back-end error with the body the back end sent.
pub fn quote_status_outcome(status: u16, id: &str, error_body: String) -> (r: Result<(), QuoteError>)
    ensures
        200 <= status <= 299 ==> r is Ok,
        status == 404 ==> (r matches Err(QuoteError::NotFound(m)) && m@ == "Quote "@ + id@ + " not found"@),
        !(200 <= status <= 299) && status != 404 ==> (r matches Err(QuoteError::BackendError(s, b)) && s
            == status && b@ == error_body@),
{
    if 200 <= status && status <= 299 {
        Ok(())
    } else if status == 404 {
        let mut m = String::from_str("Quote ");
        m.append(id);
        m.append(" not found");
        Err(QuoteError::NotFound(m))
    } else {
        Err(QuoteError::BackendError(status, error_body))
    }
}

/// The error page of a failed quote request: its status and the message
/// shown (404 with the message, the back end's status with `Backend error:
/// <status> - <body>`, 500 with `Request error: <message>`).
pub fn quote_error_page(e: &QuoteError) -> (r: (u16, String))
    ensures
        r.0 == match e {
            QuoteError::NotFound(_) => 404u16,
            QuoteError::BackendError(s, _) => *s,
            QuoteError::RequestError(_) => 500u16,
        },
        r.1@ == match e {
            QuoteError::NotFound(m) => m@,
            QuoteError::BackendError(s, m) => "Backend error: "@ + decimal_text(*s as nat) + " - "@ + m@,
            QuoteError::RequestError(m) => "Request error: "@ + m@,
        },
{
    match e {
        QuoteError::NotFound(m) => (404, m.clone()),
        QuoteError::BackendError(s, m) => {
            let mut r = String::from_str("Backend error: ");
            r.append(u64_to_string(*s as u64).as_str());
            r.append(" - ");
            r.append(m.as_str());
            (*s, r)
        },
        QuoteError::RequestError(m) => {
            let mut r = String::from_str("Request error: ");
            r.append(m.as_str());
            (500, r)
        },
    }
}

/// The message of a quote page without a quote id.
pub fn missing_quote_id_message() -> (r: &'static str)
    ensures
        r@ == "Quote ID not provided"@,
{
    "Quote ID not provided"
}

// ----------------------------------------------------------------------------
// Ordering the quotes page
// ----------------------------------------------------------------------------

/// Whether a quote with timestamp `a` may come before one with timestamp `b`
/// on the quotes page (timestamps in nanoseconds since the epoch): newer
/// first, quotes without a timestamp last.
pub open spec fn not_older(a: Option<i128>, b: Option<i128>) -> bool {
    match (a, b) {
        (Some(x), Some(y)) => x >= y,
        (Some(_), None) => true,
        (None, Some(_)) => false,
        (None, None) => true,
    }
}

/// `x` put into `sorted` after every quote that may come before it.
pub open spec fn insert_newest<T>(sorted: Seq<(Option<i128>, T)>, x: (Option<i128>, T)) -> Seq<(Option<i128>, T)>
    decreases sorted.len(),
{
    if sorted.len() == 0 {
        seq![x]
    } else if not_older(sorted.last().0, x.0) {
        sorted.push(x)
    } else {
        insert_newest(sorted.drop_last(), x).push(sorted.last())
    }
}

/// The stable sort of quotes, newest first (as `slice::sort_by` with the
/// page's comparison).
pub open spec fn sort_newest<T>(s: Seq<(Option<i128>, T)>) -> Seq<(Option<i128>, T)>
    decreases s.len(),
{
    if s.len() == 0 {
        Seq::empty()
    } else {
        insert_newest(sort_newest(s.drop_last()), s.last())
    }
}

/// Newest first, quotes without a timestamp last.
pub open spec fn newest_first<T>(s: Seq<(Option<i128>, T)>) -> bool {
    forall|a: int, b: int| 0 <= a < b < s.len() ==> not_older((#[trigger] s[a]).0, (#[trigger] s[b]).0)
}

proof fn lemma_insert_newest_split<T>(sorted: Seq<(Option<i128>, T)>, x: (Option<i128>, T), j: int)
    requires
        0 <= j <= sorted.len(),
        j == 0 || not_older(sorted[j - 1].0, x.0),
        forall|k: int| j <= k < sorted.len() ==> !not_older((#[trigger] sorted[k]).0, x.0),
    ensures
        insert_newest(sorted, x) == sorted.take(j).push(x) + sorted.skip(j),
    decreases sorted.len(),
{
    if sorted.len() == 0 {
        assert(sorted.take(j).push(x) + sorted.skip(j) =~= seq![x]);
    } else if j == sorted.len() {
        assert(sorted.take(j) =~= sorted);
        assert(sorted.take(j).push(x) + sorted.skip(j) =~= sorted.push(x));
    } else {
        let d = sorted.drop_last();
        assert forall|k: int| j <= k < d.len() implies !not_older((#[trigger] d[k]).0, x.0) by {
            assert(d[k] == sorted[k]);
        }
        if j > 0 {
            assert(d[j - 1] == sorted[j - 1]);
        }
        lemma_insert_newest_split(d, x, j);
        assert(sorted.take(j).push(x) + sorted.skip(j) =~= (d.take(j).push(x) + d.skip(j)).push(
            sorted.last(),
        ));
    }
}

proof fn lemma_insert_newest_sorted<T>(sorted: Seq<(Option<i128>, T)>, x: (Option<i128>, T))
    requires
        newest_first(sorted),
    ensures
        newest_first(insert_newest(sorted, x)),
        insert_newest(sorted, x).to_multiset() == sorted.to_multiset().insert(x),
    decreases sorted.len(),
{
    broadcast use vstd::seq_lib::group_to_multiset_ensures;

    if sorted.len() == 0 {
        assert(insert_newest(sorted, x) =~= seq![x]);
        assert(seq![x] =~= Seq::<(Option<i128>, T)>::empty().push(x));
    } else if not_older(sorted.last().0, x.0) {
        let r = sorted.push(x);
        assert forall|a: int, b: int| 0 <= a < b < r.len() implies not_older((#[trigger] r[a]).0, (#[trigger] r[b]).0) by {
            if b == r.len() - 1 && a < sorted.len() - 1 {
                assert(not_older(sorted[a].0, sorted[sorted.len() - 1].0));
            }
        }
    } else {
        let d = sorted.drop_last();
        assert(newest_first(d)) by {
            assert forall|a: int, b: int| 0 <= a < b < d.len() implies not_older((#[trigger] d[a]).0, (#[trigger] d[b]).0) by {
                assert(d[a] == sorted[a] && d[b] == sorted[b]);
            }
        }
        lemma_insert_newest_sorted(d, x);
        let i = insert_newest(d, x);
        let r = i.push(sorted.last());
        assert forall|a: int, b: int| 0 <= a < b < r.len() implies not_older((#[trigger] r[a]).0, (#[trigger] r[b]).0) by {
            if b == r.len() - 1 {
                let y = r[a];
                assert(i.contains(y));
                assert(i.to_multiset().count(y) > 0);
                assert(d.to_multiset().insert(x).count(y) > 0);
                if y != x {
                    assert(d.to_multiset().count(y) > 0);
                    assert(d.contains(y));
                    let p = choose|p: int| 0 <= p < d.len() && d[p] == y;
                    assert(sorted[p] == y);
                    assert(not_older(sorted[p].0, sorted[sorted.len() - 1].0));
                }
            }
        }
        assert(sorted =~= d.push(sorted.last()));
    }
}

/// The quotes page is newest first and holds every quote exactly once.
pub proof fn lemma_sort_newest<T>(s: Seq<(Option<i128>, T)>)
    ensures
        newest_first(sort_newest(s)),
        sort_newest(s).to_multiset() == s.to_multiset(),
    decreases s.len(),
{
    broadcast use vstd::seq_lib::group_to_multiset_ensures;

    if s.len() > 0 {
        lemma_sort_newest(s.drop_last());
        lemma_insert_newest_sorted(sort_newest(s.drop_last()), s.last());
        assert(s =~= s.drop_last().push(s.last()));
    }
}

fn is_not_older(a: &Option<i128>, b: &Option<i128>) -> (r: bool)
    ensures
        r == not_older(*a, *b),
{
    match (a, b) {
        (Some(x), Some(y)) => *x >= *y,
        (Some(_), None) => true,
        (None, Some(_)) => false,
        (None, None) => true,
    }
}

/// Orders the quotes of the page (each with its timestamp, when it has one),
/// newest first and those without a timestamp last, keeping the order of
/// quotes with equal timestamps (see `sort_newest`).
pub fn sort_newest_first<T>(quotes: Vec<(Option<i128>, T)>) -> (r: Vec<(Option<i128>, T)>)
    ensures
        r@ == sort_newest(quotes@),
{
    let ghost sv = quotes@;
    let ghost n = sv.len();
    let mut out: Vec<(Option<i128>, T)> = Vec::new();
    let mut rest = quotes;
    assert(rest@ =~= sv.subrange(0, n as int));
    assert(sv.take(0) =~= Seq::<(Option<i128>, T)>::empty());
    while rest.len() > 0
        invariant
            n == sv.len(),
            rest@.len() <= n,
            rest@ == sv.subrange(n - rest@.len(), n as int),
            out@ == sort_newest(sv.take(n - rest@.len())),
        decreases rest@.len(),
    {
        let ghost i = n - rest@.len();
        let ghost old_rest = rest@;
        let x = rest.remove(0);
        assert(rest@ =~= old_rest.subrange(1, old_rest.len() as int));
        assert(x == sv[i]);
        let ghost sorted = out@;
        let mut j = out.len();
        while j > 0 && !is_not_older(&out[j - 1].0, &x.0)
            invariant
                j <= out@.len(),
                sorted == out@,
                forall|k: int| j <= k < sorted.len() ==> !not_older((#[trigger] sorted[k]).0, x.0),
            decreases j,
        {
            j = j - 1;
        }
        proof {
            lemma_insert_newest_split(sorted, x, j as int);
            assert(sv.take(i + 1).drop_last() =~= sv.take(i));
            assert(sv.take(i + 1).last() == sv[i]);
        }
        let ghost xv = x;
        out.insert(j, x);
        assert(out@ =~= sorted.take(j as int).push(xv) + sorted.skip(j as int));
    }
    assert(sv.take(n as int) =~= sv);
    out
}

} // verus!
