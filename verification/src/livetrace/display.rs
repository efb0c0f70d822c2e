//! What the console shows of a trace: the spans of its payloads grouped by
//! trace, the service of each span, the timeline of span starts and events
//! (filtered by attribute globs, a grep pattern and the events-only switch),
//! and the texts of span kinds, statuses and attribute values.
use vstd::prelude::*;
use vstd::string::*;
use crate::livetrace::session::{hex_lower, hex_encode};
use crate::startled::names::{regex_is_match, regex_match_result};
use crate::text::{push_char, str_eq, to_uppercase, uppercase_of, u64_to_string};
use crate::livetrace::otlp::{
    decode_records, decoded_trace_records, resource_attrs, Attr, AttrValue, ResourceRecord, SpanRecord,
};

verus! {

// ----------------------------------------------------------------------------
// Texts of values
// ----------------------------------------------------------------------------

/// Decimal text of an `i64`.
pub open spec fn i64_text(i: i64) -> Seq<char> {
    if i < 0 {
        "-"@ + crate::text::decimal_text((-(i as int)) as nat)
    } else {
        crate::text::decimal_text(i as nat)
    }
}

pub fn i64_to_string(i: i64) -> (r: String)
    ensures
        r@ == i64_text(i),
{
    if i < 0 {
        let magnitude: u64 = if i == i64::MIN {
            9223372036854775808u64
        } else {
            (-i) as u64
        };
        let mut s = String::from_str("-");
        s.append(u64_to_string(magnitude).as_str());
        proof {
            reveal_strlit("-");
        }
        s
    } else {
        u64_to_string(i as u64)
    }
}

pub open spec fn bool_text(b: bool) -> Seq<char> {
    if b {
        "true"@
    } else {
        "false"@
    }
}

/// The text shown for an attribute value.
pub open spec fn value_display_spec(v: Option<AttrValue>) -> Seq<char> {
    match v {
        None => "<no_value>"@,
        Some(AttrValue::Str(s)) => s@,
        Some(AttrValue::Bool(b)) => bool_text(b),
        Some(AttrValue::Int(i)) => i64_text(i),
        Some(AttrValue::Double(t)) => t@,
        Some(AttrValue::Array(_)) => "[array]"@,
        Some(AttrValue::KvList(_)) => "[kvlist]"@,
        Some(AttrValue::Bytes(_)) => "[bytes]"@,
        Some(AttrValue::StringIndex(_)) => "<empty_value>"@,
        Some(AttrValue::Empty) => "<empty_value>"@,
    }
}

pub fn format_anyvalue(v: &Option<AttrValue>) -> (r: String)
    ensures
        r@ == value_display_spec(*v),
{
    match v {
        None => String::from_str("<no_value>"),
        Some(AttrValue::Str(s)) => s.clone(),
        Some(AttrValue::Bool(b)) => if *b {
            String::from_str("true")
        } else {
            String::from_str("false")
        },
        Some(AttrValue::Int(i)) => i64_to_string(*i),
        Some(AttrValue::Double(t)) => t.clone(),
        Some(AttrValue::Array(_)) => String::from_str("[array]"),
        Some(AttrValue::KvList(_)) => String::from_str("[kvlist]"),
        Some(AttrValue::Bytes(_)) => String::from_str("[bytes]"),
        Some(AttrValue::StringIndex(_)) => String::from_str("<empty_value>"),
        Some(AttrValue::Empty) => String::from_str("<empty_value>"),
    }
}

/// The text a grep pattern is matched against: scalars as shown, arrays as
/// their elements' texts joined by `, `, key-value lists as `key:text` joined
/// by `, `, bytes as `bytes_len:<n>`; no value gives the empty text.
pub open spec fn grep_text(v: Option<AttrValue>) -> Seq<char> {
    match v {
        None => Seq::empty(),
        Some(x) => grep_value(x),
    }
}

pub open spec fn grep_value(v: AttrValue) -> Seq<char>
    decreases v, 0int,
{
    match v {
        AttrValue::Empty => Seq::empty(),
        AttrValue::StringIndex(_) => Seq::empty(),
        AttrValue::Str(s) => s@,
        AttrValue::Bool(b) => bool_text(b),
        AttrValue::Int(i) => i64_text(i),
        AttrValue::Double(t) => t@,
        AttrValue::Bytes(b) => "bytes_len:"@ + crate::text::decimal_text(b@.len()),
        AttrValue::Array(items) => {
            proof {
                assert(decreases_to!(v => items));
                assert(decreases_to!(items => items@));
            }
            join_array_texts(items@, items@.len() as int)
        },
        AttrValue::KvList(pairs) => {
            proof {
                assert(decreases_to!(v => pairs));
                assert(decreases_to!(pairs => pairs@));
            }
            join_kv_texts(pairs@, pairs@.len() as int)
        },
    }
}

/// The grep texts of the first `n` elements, joined by `, `.
pub open spec fn join_array_texts(items: Seq<AttrValue>, n: int) -> Seq<char>
    decreases items, n,
{
    if n <= 0 || n > items.len() {
        Seq::empty()
    } else if n == 1 {
        proof {
            assert(decreases_to!(items => items[0]));
        }
        grep_value(items[0])
    } else {
        proof {
            assert(decreases_to!(items => items[n - 1]));
        }
        join_array_texts(items, n - 1) + ", "@ + grep_value(items[n - 1])
    }
}

/// The `key:text` of the first `n` pairs, joined by `, `.
pub open spec fn join_kv_texts(pairs: Seq<(String, Option<AttrValue>)>, n: int) -> Seq<char>
    decreases pairs, n,
{
    if n <= 0 || n > pairs.len() {
        Seq::empty()
    } else {
        let p = pairs[n - 1];
        let t = match p.1 {
            None => Seq::empty(),
            Some(x) => {
                proof {
                    assert(decreases_to!(pairs => pairs[n - 1]));
                    assert(decreases_to!(p => p.1));
                    assert(decreases_to!(p.1 => x));
                }
                grep_value(x)
            },
        };
        if n == 1 {
            p.0@ + ":"@ + t
        } else {
            join_kv_texts(pairs, n - 1) + ", "@ + p.0@ + ":"@ + t
        }
    }
}

/// The text a grep pattern is matched against (see `grep_value`).
pub fn grep_value_text(v: &AttrValue) -> (r: String)
    ensures
        r@ == grep_value(*v),
    decreases v,
{
    proof {
        reveal_strlit(", ");
        reveal_strlit(":");
    }
    match v {
        AttrValue::Empty => String::new(),
        AttrValue::StringIndex(_) => String::new(),
        AttrValue::Str(s) => s.clone(),
        AttrValue::Bool(b) => if *b {
            String::from_str("true")
        } else {
            String::from_str("false")
        },
        AttrValue::Int(i) => i64_to_string(*i),
        AttrValue::Double(t) => t.clone(),
        AttrValue::Bytes(n) => {
            let mut out = String::from_str("bytes_len:");
            out.append(u64_to_string(n.len() as u64).as_str());
            out
        },
        AttrValue::Array(items) => {
            let mut out = String::new();
            let mut i: usize = 0;
            while i < items.len()
                invariant
                    *v == AttrValue::Array(*items),
                    i <= items@.len(),
                    out@ == join_array_texts(items@, i as int),
                decreases items@.len() - i,
            {
                proof {
                    assert(decreases_to!(*v => (*v)->Array_0));
                    assert(decreases_to!(*items => items@));
                    assert(decreases_to!(items@ => items@[i as int]));
                }
                let t = grep_value_text(&items[i]);
                if i > 0 {
                    out.append(", ");
                }
                out.append(t.as_str());
                i = i + 1;
            }
            out
        },
        AttrValue::KvList(pairs) => {
            let mut out = String::new();
            let mut i: usize = 0;
            while i < pairs.len()
                invariant
                    *v == AttrValue::KvList(*pairs),
                    i <= pairs@.len(),
                    out@ == join_kv_texts(pairs@, i as int),
                decreases pairs@.len() - i,
            {
                let t = match &pairs[i].1 {
                    Some(x) => {
                        proof {
                            assert(decreases_to!(*v => (*v)->KvList_0));
                            assert(decreases_to!(*pairs => pairs@));
                            assert(decreases_to!(pairs@ => pairs@[i as int]));
                            assert(decreases_to!(pairs@[i as int] => pairs@[i as int].1));
                        }
                        grep_value_text(x)
                    },
                    None => String::new(),
                };
                if i > 0 {
                    out.append(", ");
                }
                out.append(pairs[i].0.as_str());
                out.append(":");
                out.append(t.as_str());
                i = i + 1;
            }
            out
        },
    }
}

/// The grep text of an optional value (empty when there is none).
pub fn grep_text_of(v: &Option<AttrValue>) -> (r: String)
    ensures
        r@ == grep_text(*v),
{
    match v {
        Some(x) => grep_value_text(x),
        None => String::new(),
    }
}

/// The service of a resource: the first `service.name` attribute, when its
/// value is a string; `<unknown>` otherwise.
pub open spec fn service_name_spec(attrs: Seq<Attr>) -> Seq<char>
    decreases attrs.len(),
{
    if attrs.len() == 0 {
        "<unknown>"@
    } else if attrs[0].key@ == "service.name"@ {
        match attrs[0].value {
            Some(AttrValue::Str(s)) => s@,
            _ => "<unknown>"@,
        }
    } else {
        service_name_spec(attrs.drop_first())
    }
}

pub fn find_service_name(attrs: &Vec<Attr>) -> (r: String)
    ensures
        r@ == service_name_spec(attrs@),
{
    let mut i: usize = 0;
    assert(attrs@.subrange(0, attrs@.len() as int) =~= attrs@);
    while i < attrs.len()
        invariant
            i <= attrs@.len(),
            service_name_spec(attrs@) == service_name_spec(attrs@.subrange(i as int, attrs@.len() as int)),
        decreases attrs@.len() - i,
    {
        let ghost rest = attrs@.subrange(i as int, attrs@.len() as int);
        assert(rest[0] == attrs@[i as int]);
        if str_eq(attrs[i].key.as_str(), "service.name") {
            return match &attrs[i].value {
                Some(AttrValue::Str(s)) => s.clone(),
                _ => String::from_str("<unknown>"),
            };
        }
        assert(rest.drop_first() =~= attrs@.subrange(i + 1, attrs@.len() as int));
        i = i + 1;
    }
    String::from_str("<unknown>")
}

pub open spec fn span_kind_text(kind: i32) -> Seq<char> {
    if kind == 1 {
        "INTERNAL"@
    } else if kind == 2 {
        "SERVER"@
    } else if kind == 3 {
        "CLIENT"@
    } else if kind == 4 {
        "PRODUCER"@
    } else if kind == 5 {
        "CONSUMER"@
    } else {
        "UNSPECIFIED"@
    }
}

/// The text of an OTLP span kind number.
pub fn format_span_kind(kind: i32) -> (r: &'static str)
    ensures
        r@ == span_kind_text(kind),
{
    if kind == 1 {
        "INTERNAL"
    } else if kind == 2 {
        "SERVER"
    } else if kind == 3 {
        "CLIENT"
    } else if kind == 4 {
        "PRODUCER"
    } else if kind == 5 {
        "CONSUMER"
    } else {
        "UNSPECIFIED"
    }
}

/// The status of a span.
#[derive(Clone, Copy, Debug, PartialEq, Eq, Structural)]
pub enum SpanStatus {
    Unset,
    Okay,
    Error,
}

/// A span's status from its status code: 1 is OK, 2 is an error; no status or
/// any other code is unset.
pub open spec fn status_spec(code: Option<i32>) -> SpanStatus {
    match code {
        Some(1) => SpanStatus::Okay,
        Some(2) => SpanStatus::Error,
        _ => SpanStatus::Unset,
    }
}

pub fn span_status(code: Option<i32>) -> (s: SpanStatus)
    ensures
        s == status_spec(code),
{
    match code {
        Some(1) => SpanStatus::Okay,
        Some(2) => SpanStatus::Error,
        _ => SpanStatus::Unset,
    }
}

pub open spec fn status_text(s: SpanStatus) -> Seq<char> {
    match s {
        SpanStatus::Okay => "OK"@,
        SpanStatus::Error => "ERROR"@,
        SpanStatus::Unset => "UNSET"@,
    }
}

pub fn format_span_status(s: SpanStatus) -> (r: &'static str)
    ensures
        r@ == status_text(s),
{
    match s {
        SpanStatus::Okay => "OK",
        SpanStatus::Error => "ERROR",
        SpanStatus::Unset => "UNSET",
    }
}

// ----------------------------------------------------------------------------
// Attribute filter
// ----------------------------------------------------------------------------

/// What `globset` answers for a set holding this one glob and this text: `None`
/// when the glob pattern, or the set built from it, is refused.
pub uninterp spec fn glob_match_result(pattern: Seq<char>, text: Seq<char>) -> Option<bool>;

/// `globset::Glob::new`, then a `GlobSet` of that glob (`GlobSetBuilder::add`,
/// `build`) and `GlobSet::is_match`; named by `glob_match_result`. A set matches
/// when one of its globs does, as the crate documents, so a set of several
/// globs is taken glob by glob.
#[verifier::external_body]
fn glob_is_match(pattern: &str, text: &str) -> (r: Option<bool>)
    ensures
        r == glob_match_result(pattern@, text@),
{
    match globset::Glob::new(pattern) {
        Ok(glob) => match globset::GlobSetBuilder::new().add(glob).build() {
            Ok(set) => Some(set.is_match(text)),
            Err(_) => None,
        },
        Err(_) => None,
    }
}

/// Whether `globset` builds one set of all these globs: each pattern is
/// accepted by `Glob::new` and `GlobSetBuilder::build` succeeds.
pub uninterp spec fn glob_set_builds(patterns: Seq<Seq<char>>) -> bool;

/// `Glob::new` on each pattern, `GlobSetBuilder::add`, then
/// `GlobSetBuilder::build`; whether it succeeds, named by `glob_set_builds`.
#[verifier::external_body]
fn glob_set_build_ok(patterns: &Vec<String>) -> (b: bool)
    ensures
        b == glob_set_builds(crate::text::seqs_of(patterns@)),
{
    let mut builder = globset::GlobSetBuilder::new();
    for p in patterns {
        match globset::Glob::new(p) {
            Ok(glob) => {
                builder.add(glob);
            },
            Err(_) => return false,
        }
    }
    builder.build().is_ok()
}

/// Whether a glob pattern is accepted.
pub open spec fn glob_valid(pattern: Seq<char>) -> bool {
    glob_match_result(pattern, Seq::empty()) is Some
}

/// The attributes shown are those whose key matches one of these globs.
pub struct AttrFilter {
    pub patterns: Vec<String>,
}

/// The accepted patterns of a list, in order.
pub open spec fn valid_globs(patterns: Seq<Seq<char>>) -> Seq<Seq<char>>
    decreases patterns.len(),
{
    if patterns.len() == 0 {
        Seq::empty()
    } else if glob_valid(patterns.last()) {
        valid_globs(patterns.drop_last()).push(patterns.last())
    } else {
        valid_globs(patterns.drop_last())
    }
}

/// The attribute filter of an `--attrs` value: none without a value or with
/// an empty one; otherwise the accepted globs of its comma-separated, trimmed,
/// non-empty patterns (refused patterns are skipped), unless the set of them
/// fails to build, which leaves no filter.
pub open spec fn attr_filter_spec(patterns: Option<Seq<char>>) -> Option<Seq<Seq<char>>> {
    match patterns {
        None => None,
        Some(p) => if p.len() == 0 {
            None
        } else if glob_set_builds(valid_globs(crate::text::comma_list_spec(p))) {
            Some(valid_globs(crate::text::comma_list_spec(p)))
        } else {
            None
        },
    }
}

pub fn parse_attr_globs(patterns_opt: &Option<String>) -> (r: Option<AttrFilter>)
    ensures
        match r {
            Some(f) => attr_filter_spec(crate::text::opt_seq(*patterns_opt)) == Some(
                crate::text::seqs_of(f.patterns@),
            ),
            None => attr_filter_spec(crate::text::opt_seq(*patterns_opt)) is None,
        },
{
    let text = match patterns_opt {
        Some(p) => p,
        None => {
            return None;
        },
    };
    if text.unicode_len() == 0 {
        return None;
    }
    let parts = crate::text::split_comma_list(text.as_str());
    let ghost pv = crate::text::seqs_of(parts@);
    let mut kept: Vec<String> = Vec::new();
    let mut i: usize = 0;
    proof {
        reveal_strlit("");
    }
    assert(""@ =~= Seq::<char>::empty());
    assert(pv.take(0) =~= Seq::<Seq<char>>::empty());
    assert(crate::text::seqs_of(kept@) =~= Seq::<Seq<char>>::empty());
    while i < parts.len()
        invariant
            pv == crate::text::seqs_of(parts@),
            i <= parts@.len(),
            crate::text::seqs_of(kept@) == valid_globs(pv.take(i as int)),
        decreases parts@.len() - i,
    {
        assert(pv.take(i + 1).drop_last() =~= pv.take(i as int));
        assert(pv.take(i + 1).last() == parts@[i as int]@);
        let ghost before = crate::text::seqs_of(kept@);
        proof {
            reveal_strlit("");
        }
        assert(""@ =~= Seq::<char>::empty());
        let valid = glob_is_match(parts[i].as_str(), "").is_some();
        assert(valid == glob_valid(parts@[i as int]@));
        if valid {
            kept.push(parts[i].clone());
            assert(crate::text::seqs_of(kept@) =~= before.push(parts@[i as int]@));
        }
        assert(crate::text::seqs_of(kept@) =~= valid_globs(pv.take(i + 1)));
        i = i + 1;
    }
    assert(pv.take(i as int) =~= pv);
    if glob_set_build_ok(&kept) {
        Some(AttrFilter { patterns: kept })
    } else {
        None
    }
}

/// Whether a key passes the filter: one of its globs matches.
pub open spec fn key_shown(filter: Option<Seq<Seq<char>>>, key: Seq<char>) -> bool {
    match filter {
        None => true,
        Some(globs) => exists|g: int|
            0 <= g < globs.len() && glob_match_result(#[trigger] globs[g], key) == Some(true),
    }
}

pub open spec fn filter_view(f: Option<AttrFilter>) -> Option<Seq<Seq<char>>> {
    match f {
        Some(x) => Some(crate::text::seqs_of(x.patterns@)),
        None => None,
    }
}

fn key_passes(filter: &Option<AttrFilter>, key: &str) -> (b: bool)
    ensures
        b == key_shown(filter_view(*filter), key@),
{
    match filter {
        None => true,
        Some(f) => {
            let ghost globs = crate::text::seqs_of(f.patterns@);
            assert(filter_view(*filter) == Some(globs));
            let mut g: usize = 0;
            while g < f.patterns.len()
                invariant
                    globs == crate::text::seqs_of(f.patterns@),
                    filter_view(*filter) == Some(globs),
                    g <= f.patterns@.len(),
                    forall|q: int| 0 <= q < g ==> glob_match_result(#[trigger] globs[q], key@) != Some(true),
                decreases f.patterns@.len() - g,
            {
                assert(globs[g as int] == f.patterns@[g as int]@);
                if glob_is_match(f.patterns[g].as_str(), key) == Some(true) {
                    assert(glob_match_result(globs[g as int], key@) == Some(true));
                    assert(exists|q: int|
                        0 <= q < globs.len() && glob_match_result(#[trigger] globs[q], key@) == Some(
                            true,
                        ));
                    return true;
                }
                g = g + 1;
            }
            false
        },
    }
}

/// The positions of the attributes that pass the filter, in order.
pub open spec fn kept_attrs(attrs: Seq<Attr>, filter: Option<Seq<Seq<char>>>) -> Seq<usize>
    decreases attrs.len(),
{
    if attrs.len() == 0 {
        Seq::empty()
    } else if key_shown(filter, attrs.last().key@) {
        kept_attrs(attrs.drop_last(), filter).push((attrs.len() - 1) as usize)
    } else {
        kept_attrs(attrs.drop_last(), filter)
    }
}

/// Selects the attributes to show (see `kept_attrs`).
pub fn filter_attrs(attrs: &Vec<Attr>, filter: &Option<AttrFilter>) -> (r: Vec<usize>)
    ensures
        r@ == kept_attrs(attrs@, filter_view(*filter)),
{
    let mut out: Vec<usize> = Vec::new();
    let mut i: usize = 0;
    assert(attrs@.take(0) =~= Seq::<Attr>::empty());
    while i < attrs.len()
        invariant
            i <= attrs@.len(),
            out@ == kept_attrs(attrs@.take(i as int), filter_view(*filter)),
        decreases attrs@.len() - i,
    {
        assert(attrs@.take(i + 1).drop_last() =~= attrs@.take(i as int));
        if key_passes(filter, attrs[i].key.as_str()) {
            out.push(i);
        }
        i = i + 1;
    }
    assert(attrs@.take(i as int) =~= attrs@);
    out
}

// ----------------------------------------------------------------------------
// Timeline
// ----------------------------------------------------------------------------

/// Whether one of the chosen attributes has a value whose grep text matches
/// the pattern.
pub open spec fn grep_hit(attrs: Seq<Attr>, chosen: Seq<usize>, pattern: Seq<char>) -> bool {
    exists|k: int|
        0 <= k < chosen.len() && chosen[k] < attrs.len() && regex_match_result(
            pattern,
            grep_text(attrs[#[trigger] chosen[k] as int].value),
        ) == Some(true)
}

fn any_grep_hit(attrs: &Vec<Attr>, chosen: &Vec<usize>, pattern: &str) -> (b: bool)
    requires
        forall|k: int| 0 <= k < chosen@.len() ==> chosen@[k] < attrs@.len(),
    ensures
        b == grep_hit(attrs@, chosen@, pattern@),
{
    let mut k: usize = 0;
    while k < chosen.len()
        invariant
            k <= chosen@.len(),
            forall|q: int| 0 <= q < chosen@.len() ==> chosen@[q] < attrs@.len(),
            forall|q: int|
                0 <= q < k ==> regex_match_result(pattern@, grep_text(attrs@[#[trigger] chosen@[q] as int].value))
                    != Some(true),
        decreases chosen@.len() - k,
    {
        let text = grep_text_of(&attrs[chosen[k]].value);
        if regex_is_match(pattern, text.as_str()) == Some(true) {
            return true;
        }
        k = k + 1;
    }
    false
}

/// The severity of an event: the value of its first string attribute named
/// `severity_key`, upper-cased; otherwise `ERROR` when its span failed, else
/// `INFO`.
pub open spec fn event_level(attrs: Seq<Attr>, severity_key: Seq<char>, span_failed: bool) -> Seq<char>
    decreases attrs.len(),
{
    if attrs.len() == 0 {
        if span_failed {
            "ERROR"@
        } else {
            "INFO"@
        }
    } else if attrs[0].key@ == severity_key && attrs[0].value matches Some(AttrValue::Str(s)) {
        uppercase_of(attrs[0].value->Some_0->Str_0@)
    } else {
        event_level(attrs.drop_first(), severity_key, span_failed)
    }
}

fn event_level_of(attrs: &Vec<Attr>, severity_key: &str, span_failed: bool) -> (r: String)
    ensures
        r@ == event_level(attrs@, severity_key@, span_failed),
{
    let mut i: usize = 0;
    assert(attrs@.subrange(0, attrs@.len() as int) =~= attrs@);
    while i < attrs.len()
        invariant
            i <= attrs@.len(),
            event_level(attrs@, severity_key@, span_failed) == event_level(
                attrs@.subrange(i as int, attrs@.len() as int),
                severity_key@,
                span_failed,
            ),
        decreases attrs@.len() - i,
    {
        let ghost rest = attrs@.subrange(i as int, attrs@.len() as int);
        assert(rest[0] == attrs@[i as int]);
        if str_eq(attrs[i].key.as_str(), severity_key) {
            if let Some(AttrValue::Str(s)) = &attrs[i].value {
                return to_uppercase(s.as_str());
            }
        }
        assert(rest.drop_first() =~= attrs@.subrange(i + 1, attrs@.len() as int));
        i = i + 1;
    }
    if span_failed {
        String::from_str("ERROR")
    } else {
        String::from_str("INFO")
    }
}

/// Whether a timeline line is a span start or an event.
#[derive(Clone, Copy, Debug, PartialEq, Eq, Structural)]
pub enum ItemType {
    SpanStart,
    Event,
}

/// A line of the timeline log: it refers to its span (by position in the
/// trace's span list) and, for an event, to the event (by position in the
/// span's events); the attributes shown are given by position too (those of
/// the span for a span start, of the event for an event, and of the span as
/// context for an event).
pub struct TimelineItem {
    pub timestamp_ns: u64,
    pub item_type: ItemType,
    pub span_index: usize,
    pub event_index: usize,
    pub level_or_status: String,
    pub attributes: Vec<usize>,
    pub parent_span_attributes: Option<Vec<usize>>,
}

pub struct TimelineView {
    pub timestamp_ns: u64,
    pub item_type: ItemType,
    pub span_index: usize,
    pub event_index: usize,
    pub level_or_status: Seq<char>,
    pub attributes: Seq<usize>,
    pub parent_span_attributes: Option<Seq<usize>>,
}

impl View for TimelineItem {
    type V = TimelineView;

    open spec fn view(&self) -> TimelineView {
        TimelineView {
            timestamp_ns: self.timestamp_ns,
            item_type: self.item_type,
            span_index: self.span_index,
            event_index: self.event_index,
            level_or_status: self.level_or_status@,
            attributes: self.attributes@,
            parent_span_attributes: match self.parent_span_attributes {
                Some(p) => Some(p@),
                None => None,
            },
        }
    }
}

/// The settings of the timeline.
pub struct TimelineSettings {
    pub filter: Option<AttrFilter>,
    pub severity_attribute: String,
    pub events_only: bool,
    pub grep: Option<String>,
}

/// The start line of span `i`, unless only events are shown or the grep
/// pattern matches none of its shown attributes.
pub open spec fn span_start_items(span: SpanRecord, i: int, set: TimelineSettings) -> Seq<TimelineView> {
    let shown = kept_attrs(span.attributes@, filter_view(set.filter));
    let item = TimelineView {
        timestamp_ns: span.start_time_unix_nano,
        item_type: ItemType::SpanStart,
        span_index: i as usize,
        event_index: 0,
        level_or_status: status_text(status_spec(span.status_code)),
        attributes: shown,
        parent_span_attributes: None,
    };
    if set.events_only {
        Seq::empty()
    } else {
        match set.grep {
            Some(p) => if grep_hit(span.attributes@, shown, p@) {
                seq![item]
            } else {
                Seq::empty()
            },
            None => seq![item],
        }
    }
}

/// The line of event `e` of span `i`, unless the grep pattern matches none of
/// the shown attributes of the event or of its span.
pub open spec fn event_item(span: SpanRecord, i: int, e: int, set: TimelineSettings) -> Seq<TimelineView> {
    let ev = span.events@[e];
    let shown = kept_attrs(ev.attributes@, filter_view(set.filter));
    let parent = kept_attrs(span.attributes@, filter_view(set.filter));
    let item = TimelineView {
        timestamp_ns: ev.time_unix_nano,
        item_type: ItemType::Event,
        span_index: i as usize,
        event_index: e as usize,
        level_or_status: event_level(
            ev.attributes@,
            set.severity_attribute@,
            status_spec(span.status_code) == SpanStatus::Error,
        ),
        attributes: shown,
        parent_span_attributes: Some(parent),
    };
    match set.grep {
        Some(p) => if grep_hit(ev.attributes@, shown, p@) || grep_hit(span.attributes@, parent, p@) {
            seq![item]
        } else {
            Seq::empty()
        },
        None => seq![item],
    }
}

/// The lines of the first `n` events of span `i`.
pub open spec fn event_items(span: SpanRecord, i: int, n: int, set: TimelineSettings) -> Seq<TimelineView>
    decreases n,
{
    if n <= 0 {
        Seq::empty()
    } else {
        event_items(span, i, n - 1, set) + event_item(span, i, n - 1, set)
    }
}

/// The lines of the first `n` spans, span by span: its start, then its events.
pub open spec fn timeline_unsorted(spans: Seq<(SpanRecord, String)>, n: int, set: TimelineSettings) -> Seq<
    TimelineView,
>
    decreases n,
{
    if n <= 0 {
        Seq::empty()
    } else {
        let span = spans[n - 1].0;
        timeline_unsorted(spans, n - 1, set) + span_start_items(span, n - 1, set) + event_items(
            span,
            n - 1,
            span.events@.len() as int,
            set,
        )
    }
}

pub open spec fn item_views(v: Seq<TimelineItem>) -> Seq<TimelineView> {
    v.map_values(|t: TimelineItem| t@)
}

proof fn lemma_kept_attrs_bounded(attrs: Seq<Attr>, filter: Option<Seq<Seq<char>>>)
    ensures
        forall|k: int|
            0 <= k < kept_attrs(attrs, filter).len() ==> #[trigger] kept_attrs(attrs, filter)[k]
                < attrs.len(),
    decreases attrs.len(),
{
    if attrs.len() > 0 {
        lemma_kept_attrs_bounded(attrs.drop_last(), filter);
        let prev = kept_attrs(attrs.drop_last(), filter);
        let cur = kept_attrs(attrs, filter);
        assert forall|k: int| 0 <= k < cur.len() implies #[trigger] cur[k] < attrs.len() by {
            if k < prev.len() {
                assert(cur[k] == prev[k]);
            }
        }
    }
}

/// Appends the lines of one span (see `span_start_items` and `event_items`).
fn push_span_items(
    out: &mut Vec<TimelineItem>,
    span: &SpanRecord,
    i: usize,
    set: &TimelineSettings,
)
    ensures
        item_views(final(out)@) == item_views(old(out)@) + span_start_items(*span, i as int, *set)
            + event_items(*span, i as int, span.events@.len() as int, *set),
{
    let ghost start = item_views(out@);
    let status = span_status(span.status_code);
    proof {
        lemma_kept_attrs_bounded(span.attributes@, filter_view(set.filter));
    }
    if !set.events_only {
        let shown = filter_attrs(&span.attributes, &set.filter);
        let keep_line = match &set.grep {
            Some(p) => any_grep_hit(&span.attributes, &shown, p.as_str()),
            None => true,
        };
        if keep_line {
            let ghost before = out@;
            out.push(
                TimelineItem {
                    timestamp_ns: span.start_time_unix_nano,
                    item_type: ItemType::SpanStart,
                    span_index: i,
                    event_index: 0,
                    level_or_status: String::from_str(format_span_status(status)),
                    attributes: shown,
                    parent_span_attributes: None,
                },
            );
            assert(item_views(out@) =~= item_views(before).push(out@.last()@));
        }
    }
    assert(item_views(out@) =~= start + span_start_items(*span, i as int, *set));
    let ghost mid = item_views(out@);
    let mut e: usize = 0;
    assert(mid + event_items(*span, i as int, 0, *set) =~= mid);
    while e < span.events.len()
        invariant
            e <= span.events@.len(),
            item_views(out@) == mid + event_items(*span, i as int, e as int, *set),
            forall|k: int|
                0 <= k < kept_attrs(span.attributes@, filter_view(set.filter)).len() ==> #[trigger] kept_attrs(
                    span.attributes@,
                    filter_view(set.filter),
                )[k] < span.attributes@.len(),
            status == status_spec(span.status_code),
        decreases span.events@.len() - e,
    {
        let ev = &span.events[e];
        proof {
            lemma_kept_attrs_bounded(ev.attributes@, filter_view(set.filter));
        }
        let shown = filter_attrs(&ev.attributes, &set.filter);
        let parent = filter_attrs(&span.attributes, &set.filter);
        let keep_line = match &set.grep {
            Some(p) => any_grep_hit(&ev.attributes, &shown, p.as_str()) || any_grep_hit(
                &span.attributes,
                &parent,
                p.as_str(),
            ),
            None => true,
        };
        let level = event_level_of(
            &ev.attributes,
            set.severity_attribute.as_str(),
            status == SpanStatus::Error,
        );
        let ghost before = out@;
        if keep_line {
            out.push(
                TimelineItem {
                    timestamp_ns: ev.time_unix_nano,
                    item_type: ItemType::Event,
                    span_index: i,
                    event_index: e,
                    level_or_status: level,
                    attributes: shown,
                    parent_span_attributes: Some(parent),
                },
            );
            assert(item_views(out@) =~= item_views(before).push(out@.last()@));
        }
        assert(item_views(out@) =~= mid + event_items(*span, i as int, e + 1, *set));
        e = e + 1;
    }
}

/// The timeline lines of a trace's spans, span by span, before sorting (see
/// `timeline_unsorted`).
pub fn timeline_items_unsorted(spans: &Vec<(SpanRecord, String)>, set: &TimelineSettings) -> (r: Vec<
    TimelineItem,
>)
    ensures
        item_views(r@) == timeline_unsorted(spans@, spans@.len() as int, *set),
{
    let mut out: Vec<TimelineItem> = Vec::new();
    let mut i: usize = 0;
    assert(item_views(out@) =~= Seq::<TimelineView>::empty());
    while i < spans.len()
        invariant
            i <= spans@.len(),
            item_views(out@) == timeline_unsorted(spans@, i as int, *set),
        decreases spans@.len() - i,
    {
        push_span_items(&mut out, &spans[i].0, i, set);
        i = i + 1;
    }
    out
}

/// `x` put into `sorted` after every line that is not later.
pub open spec fn insert_by_time(sorted: Seq<TimelineView>, x: TimelineView) -> Seq<TimelineView>
    decreases sorted.len(),
{
    if sorted.len() == 0 {
        seq![x]
    } else if sorted.last().timestamp_ns <= x.timestamp_ns {
        sorted.push(x)
    } else {
        insert_by_time(sorted.drop_last(), x).push(sorted.last())
    }
}

/// The stable sort of lines by time (as `slice::sort_by_key`).
pub open spec fn sort_by_time(s: Seq<TimelineView>) -> Seq<TimelineView>
    decreases s.len(),
{
    if s.len() == 0 {
        Seq::empty()
    } else {
        insert_by_time(sort_by_time(s.drop_last()), s.last())
    }
}

pub open spec fn time_sorted(s: Seq<TimelineView>) -> bool {
    forall|a: int, b: int| 0 <= a < b < s.len() ==> (#[trigger] s[a]).timestamp_ns <= (#[trigger] s[b]).timestamp_ns
}

proof fn lemma_insert_time_split(sorted: Seq<TimelineView>, x: TimelineView, j: int)
    requires
        0 <= j <= sorted.len(),
        j == 0 || sorted[j - 1].timestamp_ns <= x.timestamp_ns,
        forall|k: int| j <= k < sorted.len() ==> (#[trigger] sorted[k]).timestamp_ns > x.timestamp_ns,
    ensures
        insert_by_time(sorted, x) == sorted.take(j).push(x) + sorted.skip(j),
    decreases sorted.len(),
{
    if sorted.len() == 0 {
        assert(sorted.take(j).push(x) + sorted.skip(j) =~= seq![x]);
    } else if j == sorted.len() {
        assert(sorted.take(j) =~= sorted);
        assert(sorted.take(j).push(x) + sorted.skip(j) =~= sorted.push(x));
    } else {
        let d = sorted.drop_last();
        assert forall|k: int| j <= k < d.len() implies (#[trigger] d[k]).timestamp_ns > x.timestamp_ns by {
            assert(d[k] == sorted[k]);
        }
        if j > 0 {
            assert(d[j - 1] == sorted[j - 1]);
        }
        lemma_insert_time_split(d, x, j);
        assert(sorted.take(j).push(x) + sorted.skip(j) =~= (d.take(j).push(x) + d.skip(j)).push(
            sorted.last(),
        ));
    }
}

proof fn lemma_insert_time_sorted(sorted: Seq<TimelineView>, x: TimelineView)
    requires
        time_sorted(sorted),
    ensures
        time_sorted(insert_by_time(sorted, x)),
        insert_by_time(sorted, x).to_multiset() == sorted.to_multiset().insert(x),
    decreases sorted.len(),
{
    broadcast use vstd::seq_lib::group_to_multiset_ensures;

    if sorted.len() == 0 {
        assert(insert_by_time(sorted, x) =~= seq![x]);
        assert(seq![x] =~= Seq::<TimelineView>::empty().push(x));
    } else if sorted.last().timestamp_ns <= x.timestamp_ns {
        let r = sorted.push(x);
        assert forall|a: int, b: int| 0 <= a < b < r.len() implies (#[trigger] r[a]).timestamp_ns
            <= (#[trigger] r[b]).timestamp_ns by {
            if b == r.len() - 1 && a < sorted.len() - 1 {
                assert(sorted[a].timestamp_ns <= sorted[sorted.len() - 1].timestamp_ns);
            }
        }
    } else {
        let d = sorted.drop_last();
        assert(time_sorted(d)) by {
            assert forall|a: int, b: int| 0 <= a < b < d.len() implies (#[trigger] d[a]).timestamp_ns
                <= (#[trigger] d[b]).timestamp_ns by {
                assert(d[a] == sorted[a] && d[b] == sorted[b]);
            }
        }
        lemma_insert_time_sorted(d, x);
        let i = insert_by_time(d, x);
        let r = i.push(sorted.last());
        assert forall|a: int, b: int| 0 <= a < b < r.len() implies (#[trigger] r[a]).timestamp_ns
            <= (#[trigger] r[b]).timestamp_ns by {
            if b == r.len() - 1 {
                let y = r[a];
                assert(i.contains(y));
                assert(i.to_multiset().count(y) > 0);
                assert(d.to_multiset().insert(x).count(y) > 0);
                if y != x {
                    assert(d.to_multiset().count(y) > 0);
                    assert(d.contains(y));
                    let p = choose|p: int| 0 <= p < d.len() && d[p] == y;
                    assert(sorted[p] == y);
                    assert(sorted[p].timestamp_ns <= sorted[sorted.len() - 1].timestamp_ns);
                }
            }
        }
        assert(sorted =~= d.push(sorted.last()));
    }
}

/// The timeline is in time order and holds every line exactly once.
pub proof fn lemma_sort_by_time(s: Seq<TimelineView>)
    ensures
        time_sorted(sort_by_time(s)),
        sort_by_time(s).to_multiset() == s.to_multiset(),
    decreases s.len(),
{
    broadcast use vstd::seq_lib::group_to_multiset_ensures;

    if s.len() > 0 {
        lemma_sort_by_time(s.drop_last());
        lemma_insert_time_sorted(sort_by_time(s.drop_last()), s.last());
        assert(s =~= s.drop_last().push(s.last()));
    }
}

/// The number of events of the first `n` spans.
pub open spec fn events_count(spans: Seq<(SpanRecord, String)>, n: int) -> int
    decreases n,
{
    if n <= 0 {
        0
    } else {
        events_count(spans, n - 1) + spans[n - 1].0.events@.len()
    }
}

proof fn lemma_event_items_without_grep(span: SpanRecord, i: int, m: int, set: TimelineSettings)
    requires
        set.grep is None,
        0 <= m <= span.events@.len(),
    ensures
        event_items(span, i, m, set).len() == m,
        forall|e: int| 0 <= e < m ==> event_items(span, i, m, set).contains(#[trigger] event_item(span, i, e, set)[0]),
    decreases m,
{
    if m > 0 {
        lemma_event_items_without_grep(span, i, m - 1, set);
        let prev = event_items(span, i, m - 1, set);
        let cur = event_items(span, i, m, set);
        assert(cur == prev + event_item(span, i, m - 1, set));
        assert forall|e: int| 0 <= e < m implies cur.contains(#[trigger] event_item(span, i, e, set)[0]) by {
            if e < m - 1 {
                let k = choose|k: int| 0 <= k < prev.len() && prev[k] == event_item(span, i, e, set)[0];
                assert(cur[k] == prev[k]);
            } else {
                assert(cur[prev.len() as int] == event_item(span, i, e, set)[0]);
            }
        }
    }
}

proof fn lemma_timeline_unsorted_without_grep(spans: Seq<(SpanRecord, String)>, n: int, set: TimelineSettings)
    requires
        set.grep is None,
        0 <= n <= spans.len(),
    ensures
        timeline_unsorted(spans, n, set).len() == (if set.events_only { 0 } else { n }) + events_count(spans, n),
        forall|i: int, e: int|
            0 <= i < n && 0 <= e < spans[i].0.events@.len() ==> timeline_unsorted(spans, n, set).contains(
                #[trigger] event_item(spans[i].0, i, e, set)[0],
            ),
        !set.events_only ==> forall|i: int|
            0 <= i < n ==> timeline_unsorted(spans, n, set).contains(#[trigger] span_start_items(spans[i].0, i, set)[0]),
    decreases n,
{
    if n > 0 {
        lemma_timeline_unsorted_without_grep(spans, n - 1, set);
        let span = spans[n - 1].0;
        let prev = timeline_unsorted(spans, n - 1, set);
        let starts = span_start_items(span, n - 1, set);
        let evs = event_items(span, n - 1, span.events@.len() as int, set);
        lemma_event_items_without_grep(span, n - 1, span.events@.len() as int, set);
        let cur = timeline_unsorted(spans, n, set);
        assert(cur == prev + starts + evs);
        assert forall|i: int, e: int|
            0 <= i < n && 0 <= e < spans[i].0.events@.len() implies cur.contains(
                #[trigger] event_item(spans[i].0, i, e, set)[0],
            ) by {
            if i < n - 1 {
                let k = choose|k: int| 0 <= k < prev.len() && prev[k] == event_item(spans[i].0, i, e, set)[0];
                assert(cur[k] == prev[k]);
            } else {
                let k = choose|k: int| 0 <= k < evs.len() && evs[k] == event_item(span, i, e, set)[0];
                assert(cur[prev.len() + starts.len() + k] == evs[k]);
            }
        }
        if !set.events_only {
            assert forall|i: int| 0 <= i < n implies cur.contains(#[trigger] span_start_items(spans[i].0, i, set)[0]) by {
                if i < n - 1 {
                    let k = choose|k: int| 0 <= k < prev.len() && prev[k] == span_start_items(spans[i].0, i, set)[0];
                    assert(cur[k] == prev[k]);
                } else {
                    assert(cur[prev.len() as int] == starts[0]);
                }
            }
        }
    }
}

/// Without a grep pattern, the timeline of a trace is in time order and holds
/// the lines of its spans, each once: the start of every span unless only
/// events are shown, and every event of every span (with its level and its
/// span's shown attributes, see `event_item`), so as many lines as there are
/// starts and events.
pub proof fn lemma_timeline_without_grep(spans: Seq<(SpanRecord, String)>, set: TimelineSettings)
    requires
        set.grep is None,
    ensures
        ({
            let unsorted = timeline_unsorted(spans, spans.len() as int, set);
            let t = sort_by_time(unsorted);
            &&& time_sorted(t)
            &&& t.to_multiset() == unsorted.to_multiset()
            &&& t.len() == (if set.events_only { 0 } else { spans.len() as int }) + events_count(spans, spans.len() as int)
            &&& forall|i: int, e: int|
                0 <= i < spans.len() && 0 <= e < spans[i].0.events@.len() ==> t.contains(
                    #[trigger] event_item(spans[i].0, i, e, set)[0],
                )
            &&& !set.events_only ==> forall|i: int|
                0 <= i < spans.len() ==> t.contains(#[trigger] span_start_items(spans[i].0, i, set)[0])
        }),
{
    broadcast use vstd::seq_lib::group_to_multiset_ensures;

    let unsorted = timeline_unsorted(spans, spans.len() as int, set);
    let t = sort_by_time(unsorted);
    lemma_sort_by_time(unsorted);
    lemma_timeline_unsorted_without_grep(spans, spans.len() as int, set);
    assert(t.len() == unsorted.len()) by {
        assert(t.to_multiset().len() == unsorted.to_multiset().len());
    }
    assert forall|i: int, e: int|
        0 <= i < spans.len() && 0 <= e < spans[i].0.events@.len() implies t.contains(
            #[trigger] event_item(spans[i].0, i, e, set)[0],
        ) by {
        let x = event_item(spans[i].0, i, e, set)[0];
        assert(unsorted.contains(x));
        assert(unsorted.to_multiset().count(x) > 0);
        assert(t.to_multiset().count(x) > 0);
    }
    if !set.events_only {
        assert forall|i: int| 0 <= i < spans.len() implies t.contains(
            #[trigger] span_start_items(spans[i].0, i, set)[0],
        ) by {
            let x = span_start_items(spans[i].0, i, set)[0];
            assert(unsorted.contains(x));
            assert(unsorted.to_multiset().count(x) > 0);
            assert(t.to_multiset().count(x) > 0);
        }
    }
}

/// Sorts timeline lines by time, keeping the order of lines at the same time.
pub fn sort_timeline(items: Vec<TimelineItem>) -> (r: Vec<TimelineItem>)
    ensures
        item_views(r@) == sort_by_time(item_views(items@)),
{
    let ghost sv = item_views(items@);
    let mut out: Vec<TimelineItem> = Vec::new();
    let mut rest = items;
    let ghost n = sv.len();
    assert(item_views(rest@) =~= sv.subrange(0, n as int));
    assert(sv.take(0) =~= Seq::<TimelineView>::empty());
    assert(item_views(out@) =~= Seq::<TimelineView>::empty());
    while rest.len() > 0
        invariant
            n == sv.len(),
            rest@.len() <= n,
            item_views(rest@) == sv.subrange(n - rest@.len(), n as int),
            item_views(out@) == sort_by_time(sv.take(n - rest@.len())),
        decreases rest@.len(),
    {
        let ghost i = n - rest@.len();
        let ghost old_rest = rest@;
        assert(item_views(old_rest)[0] == old_rest[0]@);
        let x = rest.remove(0);
        assert(item_views(rest@) =~= item_views(old_rest).subrange(1, old_rest.len() as int));
        assert(x@ == sv[i]);
        let ghost sorted = item_views(out@);
        let mut j = out.len();
        while j > 0 && out[j - 1].timestamp_ns > x.timestamp_ns
            invariant
                j <= out@.len(),
                sorted == item_views(out@),
                forall|k: int| j <= k < sorted.len() ==> (#[trigger] sorted[k]).timestamp_ns > x@.timestamp_ns,
            decreases j,
        {
            assert(sorted[j - 1] == out@[j - 1]@);
            j = j - 1;
        }
        proof {
            if j > 0 {
                assert(sorted[j - 1] == out@[j - 1]@);
            }
            lemma_insert_time_split(sorted, x@, j as int);
            assert(sv.take(i + 1).drop_last() =~= sv.take(i));
            assert(sv.take(i + 1).last() == sv[i]);
        }
        let ghost xv = x@;
        out.insert(j, x);
        assert(item_views(out@) =~= sorted.take(j as int).push(xv) + sorted.skip(j as int));
    }
    assert(sv.take(n as int) =~= sv);
    out
}

/// The timeline log of a trace: span starts and events of its spans (see
/// `timeline_unsorted`), in time order, lines at the same time in span order.
pub fn collect_and_filter_timeline_items_for_trace(
    spans: &Vec<(SpanRecord, String)>,
    set: &TimelineSettings,
) -> (r: Vec<TimelineItem>)
    ensures
        item_views(r@) == sort_by_time(timeline_unsorted(spans@, spans@.len() as int, *set)),
{
    sort_timeline(timeline_items_unsorted(spans, set))
}

// ----------------------------------------------------------------------------
// Grouping the spans of a batch by trace
// ----------------------------------------------------------------------------

/// The spans of one scope, each with the service of its resource.
pub open spec fn with_service(spans: Seq<SpanRecord>, service: Seq<char>) -> Seq<(SpanRecord, Seq<char>)> {
    spans.map_values(|sp: SpanRecord| (sp, service))
}

/// The spans of the first `n` scopes of a resource, with its service.
pub open spec fn scope_spans_with_service(scopes: Seq<Vec<SpanRecord>>, service: Seq<char>, n: int) -> Seq<
    (SpanRecord, Seq<char>),
>
    decreases n,
{
    if n <= 0 {
        Seq::empty()
    } else {
        scope_spans_with_service(scopes, service, n - 1) + with_service(scopes[n - 1]@, service)
    }
}

/// The spans of the first `n` resources, each with the service named by its
/// resource's attributes.
pub open spec fn resource_spans_with_service(res: Seq<ResourceRecord>, n: int) -> Seq<
    (SpanRecord, Seq<char>),
>
    decreases n,
{
    if n <= 0 {
        Seq::empty()
    } else {
        let r = res[n - 1];
        resource_spans_with_service(res, n - 1) + scope_spans_with_service(
            r.scopes@,
            service_name_spec(resource_attrs(r)),
            r.scopes@.len() as int,
        )
    }
}

/// The spans of the first `n` payloads of a batch, with their services;
/// payloads that do not decode give none.
pub open spec fn batch_spans(batch: Seq<crate::livetrace::processing::TelemetryData>, n: int) -> Seq<
    (SpanRecord, Seq<char>),
>
    decreases n,
{
    if n <= 0 {
        Seq::empty()
    } else {
        batch_spans(batch, n - 1) + match decoded_trace_records(batch[n - 1].payload@) {
            Some(res) => resource_spans_with_service(res, res.len() as int),
            None => Seq::empty(),
        }
    }
}

/// Position of the group of a trace.
pub open spec fn group_index(groups: Seq<(Seq<char>, Seq<(SpanRecord, Seq<char>)>)>, key: Seq<char>) -> Option<
    int,
>
    decreases groups.len(),
{
    if groups.len() == 0 {
        None
    } else if groups.last().0 == key {
        Some(groups.len() - 1)
    } else {
        group_index(groups.drop_last(), key)
    }
}

/// Spans grouped by the hex text of their trace id; groups in the order their
/// first span comes, spans in order within a group.
pub open spec fn group_by_trace(spans: Seq<(SpanRecord, Seq<char>)>) -> Seq<
    (Seq<char>, Seq<(SpanRecord, Seq<char>)>),
>
    decreases spans.len(),
{
    if spans.len() == 0 {
        Seq::empty()
    } else {
        let groups = group_by_trace(spans.drop_last());
        let x = spans.last();
        let key = hex_lower(x.0.trace_id@);
        match group_index(groups, key) {
            Some(i) => groups.update(i, (key, groups[i].1.push(x))),
            None => groups.push((key, seq![x])),
        }
    }
}

pub open spec fn span_pair_views(v: Seq<(SpanRecord, String)>) -> Seq<(SpanRecord, Seq<char>)> {
    v.map_values(|p: (SpanRecord, String)| (p.0, p.1@))
}

pub open spec fn group_views(v: Seq<(String, Vec<(SpanRecord, String)>)>) -> Seq<
    (Seq<char>, Seq<(SpanRecord, Seq<char>)>),
> {
    v.map_values(|g: (String, Vec<(SpanRecord, String)>)| (g.0@, span_pair_views(g.1@)))
}

proof fn lemma_group_index(groups: Seq<(Seq<char>, Seq<(SpanRecord, Seq<char>)>)>, key: Seq<char>)
    ensures
        match group_index(groups, key) {
            Some(i) => 0 <= i < groups.len() && groups[i].0 == key && forall|j: int|
                i < j < groups.len() ==> (#[trigger] groups[j]).0 != key,
            None => forall|j: int| 0 <= j < groups.len() ==> (#[trigger] groups[j]).0 != key,
        },
    decreases groups.len(),
{
    if groups.len() > 0 {
        lemma_group_index(groups.drop_last(), key);
        assert forall|j: int| 0 <= j < groups.len() - 1 implies groups[j] == groups.drop_last()[j] by {}
    }
}

/// Adds a span to the group of its trace.
fn add_to_groups(groups: &mut Vec<(String, Vec<(SpanRecord, String)>)>, span: SpanRecord, service: String)
    ensures
        ({
            let gs = group_views(old(groups)@);
            let x = (span, service@);
            let key = hex_lower(span.trace_id@);
            group_views(final(groups)@) == match group_index(gs, key) {
                Some(i) => gs.update(i, (key, gs[i].1.push(x))),
                None => gs.push((key, seq![x])),
            }
        }),
{
    let key = hex_encode(span.trace_id.as_slice());
    let ghost gs = group_views(groups@);
    let ghost x = (span, service@);
    proof {
        lemma_group_index(gs, key@);
    }
    let mut i = groups.len();
    while i > 0
        invariant
            i <= groups@.len(),
            gs == group_views(groups@),
            forall|j: int| i <= j < gs.len() ==> (#[trigger] gs[j]).0 != key@,
        ensures
            i <= groups@.len(),
            forall|j: int| i <= j < gs.len() ==> (#[trigger] gs[j]).0 != key@,
            i > 0 ==> gs[i - 1].0 == key@,
        decreases i,
    {
        assert(gs[i - 1].0 == groups@[i - 1].0@);
        if str_eq(groups[i - 1].0.as_str(), key.as_str()) {
            break;
        }
        i = i - 1;
    }
    if i > 0 {
        let k = i - 1;
        proof {
            assert(group_index(gs, key@) == Some(k as int));
        }
        let mut all = Vec::new();
        std::mem::swap(&mut all, groups);
        let mut entry = all.remove(k);
        let ghost before = span_pair_views(entry.1@);
        entry.1.push((span, service));
        assert(span_pair_views(entry.1@) =~= before.push(x));
        all.insert(k, entry);
        assert(group_views(all@) =~= gs.update(k as int, (key@, gs[k as int].1.push(x))));
        *groups = all;
    } else {
        proof {
            assert(group_index(gs, key@) is None);
        }
        let mut members = Vec::new();
        members.push((span, service));
        assert(span_pair_views(members@) =~= seq![x]);
        let ghost before = groups@;
        groups.push((key, members));
        assert(group_views(groups@) =~= gs.push((key@, seq![x])));
    }
}

/// The spans of a batch's payloads grouped by trace (see `batch_spans` and
/// `group_by_trace`); payloads that do not decode are skipped.
pub fn prepare_trace_data_from_batch(batch: &Vec<crate::livetrace::processing::TelemetryData>) -> (r: Vec<
    (String, Vec<(SpanRecord, String)>),
>)
    ensures
        group_views(r@) == group_by_trace(batch_spans(batch@, batch@.len() as int)),
{
    let mut groups: Vec<(String, Vec<(SpanRecord, String)>)> = Vec::new();
    let ghost mut seen: Seq<(SpanRecord, Seq<char>)> = Seq::empty();
    assert(group_views(groups@) =~= Seq::<(Seq<char>, Seq<(SpanRecord, Seq<char>)>)>::empty());
    let mut b: usize = 0;
    while b < batch.len()
        invariant
            b <= batch@.len(),
            seen == batch_spans(batch@, b as int),
            group_views(groups@) == group_by_trace(seen),
        decreases batch@.len() - b,
    {
        let ghost seen_before = seen;
        match decode_records(batch[b].payload.as_slice()) {
            None => {},
            Some(records) => {
                let ghost res = records@;
                let mut rest = records;
                let ghost n = res.len();
                assert(rest@ =~= res.subrange(0, n as int));
                while rest.len() > 0
                    invariant
                        n == res.len(),
                        rest@.len() <= n,
                        rest@ == res.subrange(n - rest@.len(), n as int),
                        seen == seen_before + resource_spans_with_service(res, n - rest@.len()),
                        group_views(groups@) == group_by_trace(seen),
                    decreases rest@.len(),
                {
                    let ghost ri = n - rest@.len();
                    let resource = rest.remove(0);
                    assert(rest@ =~= res.subrange(ri + 1, n as int));
                    assert(resource == res[ri]);
                    let service = match &resource.attributes {
                        Some(attrs) => find_service_name(attrs),
                        None => {
                            let none: Vec<Attr> = Vec::new();
                            assert(none@ =~= Seq::<Attr>::empty());
                            find_service_name(&none)
                        },
                    };
                    let ghost sc = resource.scopes@;
                    let ghost base = seen;
                    let mut scopes = resource.scopes;
                    let ghost m = sc.len();
                    assert(scopes@ =~= sc.subrange(0, m as int));
                    assert(base + scope_spans_with_service(sc, service@, 0) =~= base);
                    while scopes.len() > 0
                        invariant
                            m == sc.len(),
                            scopes@.len() <= m,
                            scopes@ == sc.subrange(m - scopes@.len(), m as int),
                            seen == base + scope_spans_with_service(sc, service@, m - scopes@.len()),
                            group_views(groups@) == group_by_trace(seen),
                        decreases scopes@.len(),
                    {
                        let ghost si = m - scopes@.len();
                        let spans = scopes.remove(0);
                        assert(scopes@ =~= sc.subrange(si + 1, m as int));
                        assert(spans == sc[si]);
                        let ghost sp = spans@;
                        let ghost base2 = seen;
                        let mut pending = spans;
                        let ghost q = sp.len();
                        assert(pending@ =~= sp.subrange(0, q as int));
                        assert(base2 + with_service(sp, service@).take(0) =~= base2);
                        while pending.len() > 0
                            invariant
                                q == sp.len(),
                                pending@.len() <= q,
                                pending@ == sp.subrange(q - pending@.len(), q as int),
                                seen == base2 + with_service(sp, service@).take(q - pending@.len()),
                                group_views(groups@) == group_by_trace(seen),
                            decreases pending@.len(),
                        {
                            let ghost pi = q - pending@.len();
                            let span = pending.remove(0);
                            assert(pending@ =~= sp.subrange(pi + 1, q as int));
                            assert(span == sp[pi]);
                            let ghost x = (span, service@);
                            add_to_groups(&mut groups, span, service.clone());
                            proof {
                                let next = seen.push(x);
                                assert(next.drop_last() =~= seen);
                                assert(base2 + with_service(sp, service@).take(pi + 1) =~= next);
                                seen = next;
                            }
                        }
                        proof {
                            assert(with_service(sp, service@).take(q as int) =~= with_service(sp, service@));
                            assert(base + scope_spans_with_service(sc, service@, si + 1) =~= base
                                + scope_spans_with_service(sc, service@, si) + with_service(sc[si]@, service@));
                        }
                    }
                    proof {
                        assert(seen_before + resource_spans_with_service(res, ri + 1) =~= seen_before
                            + resource_spans_with_service(res, ri) + scope_spans_with_service(
                            res[ri].scopes@,
                            service_name_spec(resource_attrs(res[ri])),
                            res[ri].scopes@.len() as int,
                        ));
                    }
                }
            },
        }
        proof {
            assert(batch_spans(batch@, b + 1) == batch_spans(batch@, b as int) + match decoded_trace_records(
                batch@[b as int].payload@,
            ) {
                Some(res) => resource_spans_with_service(res, res.len() as int),
                None => Seq::empty(),
            });
            if decoded_trace_records(batch@[b as int].payload@) is None {
                assert(seen =~= batch_spans(batch@, b + 1));
            }
        }
        b = b + 1;
    }
    groups
}

// ----------------------------------------------------------------------------
// The waterfall of a trace
// ----------------------------------------------------------------------------

/// The hex span id of span `i`.
pub open spec fn span_hex(spans: Seq<(SpanRecord, String)>, i: int) -> Seq<char> {
    hex_lower(spans[i].0.span_id@)
}

/// The last span with this hex span id (a later span replaces an earlier one
/// with the same id).
pub open spec fn span_with_id(spans: Seq<(SpanRecord, String)>, id: Seq<char>, n: int) -> Option<int>
    decreases n,
{
    if n <= 0 {
        None
    } else if span_hex(spans, n - 1) == id {
        Some(n - 1)
    } else {
        span_with_id(spans, id, n - 1)
    }
}

/// Whether span `i` is the one kept for its id.
pub open spec fn is_kept(spans: Seq<(SpanRecord, String)>, i: int) -> bool {
    span_with_id(spans, span_hex(spans, i), spans.len() as int) == Some(i)
}

/// The parent of span `i` in the trace: the kept span with its parent id;
/// `None` for a span without parent id or whose parent is not in the trace.
pub open spec fn parent_of(spans: Seq<(SpanRecord, String)>, i: int) -> Option<int> {
    if spans[i].0.parent_span_id@.len() == 0 {
        None
    } else {
        span_with_id(spans, hex_lower(spans[i].0.parent_span_id@), spans.len() as int)
    }
}

/// The kept spans among the first `n` whose parent is `p` (`None`: the roots),
/// in order.
pub open spec fn children_of(spans: Seq<(SpanRecord, String)>, p: Option<int>, n: int) -> Seq<usize>
    decreases n,
{
    if n <= 0 {
        Seq::empty()
    } else if is_kept(spans, n - 1) && parent_of(spans, n - 1) == p {
        children_of(spans, p, n - 1).push((n - 1) as usize)
    } else {
        children_of(spans, p, n - 1)
    }
}

pub open spec fn start_of(spans: Seq<(SpanRecord, String)>, i: usize) -> u64 {
    spans[i as int].0.start_time_unix_nano
}

/// `x` put after every span that does not start later.
pub open spec fn insert_by_start(spans: Seq<(SpanRecord, String)>, sorted: Seq<usize>, x: usize) -> Seq<usize>
    decreases sorted.len(),
{
    if sorted.len() == 0 {
        seq![x]
    } else if start_of(spans, sorted.last()) <= start_of(spans, x) {
        sorted.push(x)
    } else {
        insert_by_start(spans, sorted.drop_last(), x).push(sorted.last())
    }
}

/// Spans in start order, spans starting together in their given order.
pub open spec fn by_start(spans: Seq<(SpanRecord, String)>, list: Seq<usize>) -> Seq<usize>
    decreases list.len(),
{
    if list.len() == 0 {
        Seq::empty()
    } else {
        insert_by_start(spans, by_start(spans, list.drop_last()), list.last())
    }
}

/// The rows of span `node` at `depth`: the span, then the rows of its children
/// in start order one level deeper, at most `fuel` levels down.
pub open spec fn rows_from(spans: Seq<(SpanRecord, String)>, node: usize, depth: nat, fuel: nat) -> Seq<
    (usize, usize),
>
    decreases fuel, 0int, 0int,
{
    if fuel == 0 {
        Seq::empty()
    } else {
        let kids = by_start(spans, children_of(spans, Some(node as int), spans.len() as int));
        seq![(node, depth as usize)] + rows_of_list(spans, kids, kids.len() as int, depth + 1, (fuel - 1) as nat)
    }
}

/// The rows of the first `n` spans of a list, one after the other.
pub open spec fn rows_of_list(
    spans: Seq<(SpanRecord, String)>,
    list: Seq<usize>,
    n: int,
    depth: nat,
    fuel: nat,
) -> Seq<(usize, usize)>
    decreases fuel, 1int, n,
{
    if n <= 0 || n > list.len() {
        Seq::empty()
    } else {
        rows_of_list(spans, list, n - 1, depth, fuel) + rows_from(spans, list[n - 1], depth, fuel)
    }
}

/// The waterfall rows `(span, depth)` of a trace: the tree below each root in
/// start order, each span followed by its children in start order. A trace has
/// fewer levels than spans, so the depth bound of `rows_from` never cuts.
pub open spec fn waterfall_rows(spans: Seq<(SpanRecord, String)>) -> Seq<(usize, usize)> {
    let roots = by_start(spans, children_of(spans, None, spans.len() as int));
    rows_of_list(spans, roots, roots.len() as int, 0, spans.len() as nat)
}

/// The hex span ids of the spans.
fn span_hex_ids(spans: &Vec<(SpanRecord, String)>) -> (r: Vec<String>)
    ensures
        r@.len() == spans@.len(),
        forall|i: int| 0 <= i < spans@.len() ==> (#[trigger] r@[i])@ == span_hex(spans@, i),
{
    let mut out: Vec<String> = Vec::new();
    let mut i: usize = 0;
    while i < spans.len()
        invariant
            i <= spans@.len(),
            out@.len() == i,
            forall|k: int| 0 <= k < i ==> (#[trigger] out@[k])@ == span_hex(spans@, k),
        decreases spans@.len() - i,
    {
        out.push(hex_encode(spans[i].0.span_id.as_slice()));
        i = i + 1;
    }
    out
}

fn find_span_with_id(ids: &Vec<String>, id: &str, Ghost(spans): Ghost<Seq<(SpanRecord, String)>>) -> (r:
    Option<usize>)
    requires
        ids@.len() == spans.len(),
        forall|i: int| 0 <= i < spans.len() ==> (#[trigger] ids@[i])@ == span_hex(spans, i),
    ensures
        match r {
            Some(k) => span_with_id(spans, id@, spans.len() as int) == Some(k as int),
            None => span_with_id(spans, id@, spans.len() as int) is None,
        },
{
    let mut n = ids.len();
    while n > 0
        invariant
            n <= ids@.len(),
            ids@.len() == spans.len(),
            forall|i: int| 0 <= i < spans.len() ==> (#[trigger] ids@[i])@ == span_hex(spans, i),
            span_with_id(spans, id@, spans.len() as int) == span_with_id(spans, id@, n as int),
        decreases n,
    {
        assert(ids@[n - 1]@ == span_hex(spans, n - 1));
        if str_eq(ids[n - 1].as_str(), id) {
            return Some(n - 1);
        }
        n = n - 1;
    }
    None
}

/// The parent of each span and whether it is kept (see `parent_of`, `is_kept`).
fn span_links(spans: &Vec<(SpanRecord, String)>, ids: &Vec<String>) -> (r: (Vec<Option<usize>>, Vec<bool>))
    requires
        ids@.len() == spans@.len(),
        forall|i: int| 0 <= i < spans@.len() ==> (#[trigger] ids@[i])@ == span_hex(spans@, i),
    ensures
        r.0@.len() == spans@.len(),
        r.1@.len() == spans@.len(),
        forall|i: int|
            0 <= i < spans@.len() ==> match (#[trigger] r.0@[i]) {
                Some(p) => parent_of(spans@, i) == Some(p as int),
                None => parent_of(spans@, i) is None,
            },
        forall|i: int| 0 <= i < spans@.len() ==> (#[trigger] r.1@[i]) == is_kept(spans@, i),
{
    let mut parents: Vec<Option<usize>> = Vec::new();
    let mut kept: Vec<bool> = Vec::new();
    let mut i: usize = 0;
    while i < spans.len()
        invariant
            i <= spans@.len(),
            ids@.len() == spans@.len(),
            forall|k: int| 0 <= k < spans@.len() ==> (#[trigger] ids@[k])@ == span_hex(spans@, k),
            parents@.len() == i,
            kept@.len() == i,
            forall|k: int|
                0 <= k < i ==> match (#[trigger] parents@[k]) {
                    Some(p) => parent_of(spans@, k) == Some(p as int),
                    None => parent_of(spans@, k) is None,
                },
            forall|k: int| 0 <= k < i ==> (#[trigger] kept@[k]) == is_kept(spans@, k),
        decreases spans@.len() - i,
    {
        let parent_id = &spans[i].0.parent_span_id;
        if parent_id.len() == 0 {
            parents.push(None);
        } else {
            let hex = hex_encode(parent_id.as_slice());
            parents.push(find_span_with_id(ids, hex.as_str(), Ghost(spans@)));
        }
        let own = find_span_with_id(ids, ids[i].as_str(), Ghost(spans@));
        kept.push(own == Some(i));
        i = i + 1;
    }
    (parents, kept)
}

fn children_list(
    parents: &Vec<Option<usize>>,
    kept: &Vec<bool>,
    p: Option<usize>,
    Ghost(spans): Ghost<Seq<(SpanRecord, String)>>,
) -> (r: Vec<usize>)
    requires
        parents@.len() == spans.len(),
        kept@.len() == spans.len(),
        forall|i: int|
            0 <= i < spans.len() ==> match (#[trigger] parents@[i]) {
                Some(q) => parent_of(spans, i) == Some(q as int),
                None => parent_of(spans, i) is None,
            },
        forall|i: int| 0 <= i < spans.len() ==> (#[trigger] kept@[i]) == is_kept(spans, i),
    ensures
        r@ == children_of(
            spans,
            match p {
                Some(q) => Some(q as int),
                None => None,
            },
            spans.len() as int,
        ),
{
    let ghost target = match p {
        Some(q) => Some(q as int),
        None => None,
    };
    let mut out: Vec<usize> = Vec::new();
    let mut j: usize = 0;
    while j < parents.len()
        invariant
            j <= parents@.len(),
            parents@.len() == spans.len(),
            kept@.len() == spans.len(),
            forall|i: int|
                0 <= i < spans.len() ==> match (#[trigger] parents@[i]) {
                    Some(q) => parent_of(spans, i) == Some(q as int),
                    None => parent_of(spans, i) is None,
                },
            forall|i: int| 0 <= i < spans.len() ==> (#[trigger] kept@[i]) == is_kept(spans, i),
            out@ == children_of(spans, target, j as int),
            target == match p {
                Some(q) => Some(q as int),
                None => None,
            },
        decreases parents@.len() - j,
    {
        let pj_exec = parents[j];
        let same = match p {
            Some(b) => match pj_exec {
                Some(a) => a == b,
                None => false,
            },
            None => pj_exec.is_none(),
        };
        proof {
            let pj = parents@[j as int];
            match pj {
                Some(a) => {
                    assert(parent_of(spans, j as int) == Some(a as int));
                },
                None => {
                    assert(parent_of(spans, j as int) is None);
                },
            }
        }
        assert(same == (parent_of(spans, j as int) == target));
        if kept[j] && same {
            out.push(j);
        }
        j = j + 1;
    }
    out
}

fn sort_by_start(list: Vec<usize>, spans: &Vec<(SpanRecord, String)>) -> (r: Vec<usize>)
    requires
        forall|k: int| 0 <= k < list@.len() ==> list@[k] < spans@.len(),
    ensures
        r@ == by_start(spans@, list@),
{
    let ghost lv = list@;
    let mut out: Vec<usize> = Vec::new();
    let mut i: usize = 0;
    assert(lv.take(0) =~= Seq::<usize>::empty());
    while i < list.len()
        invariant
            lv == list@,
            i <= lv.len(),
            forall|k: int| 0 <= k < lv.len() ==> lv[k] < spans@.len(),
            out@ == by_start(spans@, lv.take(i as int)),
            forall|k: int| 0 <= k < out@.len() ==> out@[k] < spans@.len(),
        decreases lv.len() - i,
    {
        let x = list[i];
        let sx = spans[x].0.start_time_unix_nano;
        let ghost sorted = out@;
        let mut j = out.len();
        while j > 0 && spans[out[j - 1]].0.start_time_unix_nano > sx
            invariant
                j <= out@.len(),
                sorted == out@,
                x < spans@.len(),
                sx == start_of(spans@, x),
                forall|k: int| 0 <= k < out@.len() ==> out@[k] < spans@.len(),
                forall|k: int| j <= k < sorted.len() ==> start_of(spans@, #[trigger] sorted[k]) > sx,
            decreases j,
        {
            j = j - 1;
        }
        proof {
            lemma_insert_start_split(spans@, sorted, x, j as int);
            assert(lv.take(i + 1).drop_last() =~= lv.take(i as int));
        }
        out.insert(j, x);
        assert(out@ =~= sorted.take(j as int).push(x) + sorted.skip(j as int));
        i = i + 1;
    }
    assert(lv.take(i as int) =~= lv);
    out
}

proof fn lemma_insert_start_split(spans: Seq<(SpanRecord, String)>, sorted: Seq<usize>, x: usize, j: int)
    requires
        0 <= j <= sorted.len(),
        j == 0 || start_of(spans, sorted[j - 1]) <= start_of(spans, x),
        forall|k: int| j <= k < sorted.len() ==> start_of(spans, #[trigger] sorted[k]) > start_of(spans, x),
    ensures
        insert_by_start(spans, sorted, x) == sorted.take(j).push(x) + sorted.skip(j),
    decreases sorted.len(),
{
    if sorted.len() == 0 {
        assert(sorted.take(j).push(x) + sorted.skip(j) =~= seq![x]);
    } else if j == sorted.len() {
        assert(sorted.take(j) =~= sorted);
        assert(sorted.take(j).push(x) + sorted.skip(j) =~= sorted.push(x));
    } else {
        let d = sorted.drop_last();
        assert forall|k: int| j <= k < d.len() implies start_of(spans, #[trigger] d[k]) > start_of(spans, x) by {
            assert(d[k] == sorted[k]);
        }
        if j > 0 {
            assert(d[j - 1] == sorted[j - 1]);
        }
        lemma_insert_start_split(spans, d, x, j);
        assert(sorted.take(j).push(x) + sorted.skip(j) =~= (d.take(j).push(x) + d.skip(j)).push(
            sorted.last(),
        ));
    }
}

proof fn lemma_children_bounded(spans: Seq<(SpanRecord, String)>, p: Option<int>, n: int)
    requires
        n <= spans.len(),
    ensures
        forall|k: int| 0 <= k < children_of(spans, p, n).len() ==> #[trigger] children_of(spans, p, n)[k] < spans.len(),
    decreases n,
{
    if n > 0 {
        lemma_children_bounded(spans, p, n - 1);
        let prev = children_of(spans, p, n - 1);
        let cur = children_of(spans, p, n);
        assert forall|k: int| 0 <= k < cur.len() implies #[trigger] cur[k] < spans.len() by {
            if k < prev.len() {
                assert(cur[k] == prev[k]);
            }
        }
    }
}

proof fn lemma_by_start_bounded(spans: Seq<(SpanRecord, String)>, list: Seq<usize>)
    requires
        forall|k: int| 0 <= k < list.len() ==> list[k] < spans.len(),
    ensures
        forall|k: int| 0 <= k < by_start(spans, list).len() ==> #[trigger] by_start(spans, list)[k] < spans.len(),
    decreases list.len(),
{
    if list.len() > 0 {
        lemma_by_start_bounded(spans, list.drop_last());
        lemma_insert_start_bounded(spans, by_start(spans, list.drop_last()), list.last());
    }
}

proof fn lemma_insert_start_bounded(spans: Seq<(SpanRecord, String)>, sorted: Seq<usize>, x: usize)
    requires
        x < spans.len(),
        forall|k: int| 0 <= k < sorted.len() ==> sorted[k] < spans.len(),
    ensures
        forall|k: int| 0 <= k < insert_by_start(spans, sorted, x).len() ==> #[trigger] insert_by_start(spans, sorted, x)[k] < spans.len(),
    decreases sorted.len(),
{
    if sorted.len() > 0 && start_of(spans, sorted.last()) > start_of(spans, x) {
        let d = sorted.drop_last();
        lemma_insert_start_bounded(spans, d, x);
        let i = insert_by_start(spans, d, x);
        let r = i.push(sorted.last());
        assert forall|k: int| 0 <= k < r.len() implies #[trigger] r[k] < spans.len() by {
            if k < i.len() {
                assert(r[k] == i[k]);
            }
        }
    }
}

/// The kept children of a span in start order.
fn sorted_children(
    spans: &Vec<(SpanRecord, String)>,
    parents: &Vec<Option<usize>>,
    kept: &Vec<bool>,
    p: Option<usize>,
) -> (r: Vec<usize>)
    requires
        parents@.len() == spans@.len(),
        kept@.len() == spans@.len(),
        forall|i: int|
            0 <= i < spans@.len() ==> match (#[trigger] parents@[i]) {
                Some(q) => parent_of(spans@, i) == Some(q as int),
                None => parent_of(spans@, i) is None,
            },
        forall|i: int| 0 <= i < spans@.len() ==> (#[trigger] kept@[i]) == is_kept(spans@, i),
    ensures
        r@ == by_start(
            spans@,
            children_of(
                spans@,
                match p {
                    Some(q) => Some(q as int),
                    None => None,
                },
                spans@.len() as int,
            ),
        ),
        forall|k: int| 0 <= k < r@.len() ==> r@[k] < spans@.len(),
{
    let list = children_list(parents, kept, p, Ghost(spans@));
    proof {
        lemma_children_bounded(
            spans@,
            match p {
                Some(q) => Some(q as int),
                None => None,
            },
            spans@.len() as int,
        );
        lemma_by_start_bounded(spans@, list@);
    }
    sort_by_start(list, spans)
}

/// Appends the rows of `node` (see `rows_from`).
fn push_rows_from(
    spans: &Vec<(SpanRecord, String)>,
    parents: &Vec<Option<usize>>,
    kept: &Vec<bool>,
    node: usize,
    depth: usize,
    fuel: usize,
    out: &mut Vec<(usize, usize)>,
)
    requires
        node < spans@.len(),
        depth + fuel <= spans@.len(),
        parents@.len() == spans@.len(),
        kept@.len() == spans@.len(),
        forall|i: int|
            0 <= i < spans@.len() ==> match (#[trigger] parents@[i]) {
                Some(q) => parent_of(spans@, i) == Some(q as int),
                None => parent_of(spans@, i) is None,
            },
        forall|i: int| 0 <= i < spans@.len() ==> (#[trigger] kept@[i]) == is_kept(spans@, i),
    ensures
        final(out)@ == old(out)@ + rows_from(spans@, node, depth as nat, fuel as nat),
    decreases fuel,
{
    if fuel == 0 {
        assert(old(out)@ + rows_from(spans@, node, depth as nat, fuel as nat) =~= old(out)@);
        return;
    }
    let ghost start = out@;
    let total = spans.len();
    out.push((node, depth));
    let kids = sorted_children(spans, parents, kept, Some(node));
    let ghost mid = out@;
    let mut k: usize = 0;
    assert(mid + rows_of_list(spans@, kids@, 0, (depth + 1) as nat, (fuel - 1) as nat) =~= mid);
    while k < kids.len()
        invariant
            k <= kids@.len(),
            fuel > 0,
            total == spans@.len(),
            depth + fuel <= spans@.len(),
            forall|q: int| 0 <= q < kids@.len() ==> kids@[q] < spans@.len(),
            parents@.len() == spans@.len(),
            kept@.len() == spans@.len(),
            forall|i: int|
                0 <= i < spans@.len() ==> match (#[trigger] parents@[i]) {
                    Some(q) => parent_of(spans@, i) == Some(q as int),
                    None => parent_of(spans@, i) is None,
                },
            forall|i: int| 0 <= i < spans@.len() ==> (#[trigger] kept@[i]) == is_kept(spans@, i),
            out@ == mid + rows_of_list(spans@, kids@, k as int, (depth + 1) as nat, (fuel - 1) as nat),
        decreases kids@.len() - k,
    {
        let ghost before = out@;
        push_rows_from(spans, parents, kept, kids[k], depth + 1, fuel - 1, out);
        assert(out@ =~= mid + rows_of_list(spans@, kids@, k + 1, (depth + 1) as nat, (fuel - 1) as nat));
        k = k + 1;
    }
    assert(out@ =~= start + rows_from(spans@, node, depth as nat, fuel as nat));
}

/// The rows of a trace's waterfall (see `waterfall_rows`).
pub fn waterfall_rows_of(spans: &Vec<(SpanRecord, String)>) -> (r: Vec<(usize, usize)>)
    ensures
        r@ == waterfall_rows(spans@),
{
    let ids = span_hex_ids(spans);
    let (parents, kept) = span_links(spans, &ids);
    let roots = sorted_children(spans, &parents, &kept, None);
    let n = spans.len();
    let mut out: Vec<(usize, usize)> = Vec::new();
    let mut k: usize = 0;
    assert(out@ =~= rows_of_list(spans@, roots@, 0, 0, n as nat));
    while k < roots.len()
        invariant
            k <= roots@.len(),
            n == spans@.len(),
            forall|q: int| 0 <= q < roots@.len() ==> roots@[q] < spans@.len(),
            parents@.len() == spans@.len(),
            kept@.len() == spans@.len(),
            forall|i: int|
                0 <= i < spans@.len() ==> match (#[trigger] parents@[i]) {
                    Some(q) => parent_of(spans@, i) == Some(q as int),
                    None => parent_of(spans@, i) is None,
                },
            forall|i: int| 0 <= i < spans@.len() ==> (#[trigger] kept@[i]) == is_kept(spans@, i),
            out@ == rows_of_list(spans@, roots@, k as int, 0, n as nat),
        decreases roots@.len() - k,
    {
        push_rows_from(spans, &parents, &kept, roots[k], 0, n, &mut out);
        k = k + 1;
    }
    out
}

/// The earliest start of a root span (0 without roots), and the time from it to
/// the latest end of any span (0 when nothing ends after it).
pub open spec fn min_root_start(spans: Seq<(SpanRecord, String)>, roots: Seq<usize>, n: int) -> u64
    decreases n,
{
    if n <= 0 {
        0
    } else if n == 1 {
        start_of(spans, roots[0])
    } else {
        let m = min_root_start(spans, roots, n - 1);
        if start_of(spans, roots[n - 1]) < m {
            start_of(spans, roots[n - 1])
        } else {
            m
        }
    }
}

pub open spec fn max_end(spans: Seq<(SpanRecord, String)>, n: int) -> u64
    decreases n,
{
    if n <= 0 {
        0
    } else {
        let m = max_end(spans, n - 1);
        if spans[n - 1].0.end_time_unix_nano > m {
            spans[n - 1].0.end_time_unix_nano
        } else {
            m
        }
    }
}

/// The start of a trace and its duration: from the earliest root start to the
/// latest span end, zero when the latest end is not later.
pub fn trace_timing(spans: &Vec<(SpanRecord, String)>, roots: &Vec<usize>) -> (r: (u64, u64))
    requires
        forall|q: int| 0 <= q < roots@.len() ==> roots@[q] < spans@.len(),
    ensures
        r.0 == min_root_start(spans@, roots@, roots@.len() as int),
        r.1 == (if max_end(spans@, spans@.len() as int) > r.0 {
            max_end(spans@, spans@.len() as int) - r.0
        } else {
            0
        }),
{
    let mut min_start: u64 = 0;
    let mut k: usize = 0;
    while k < roots.len()
        invariant
            k <= roots@.len(),
            forall|q: int| 0 <= q < roots@.len() ==> roots@[q] < spans@.len(),
            min_start == min_root_start(spans@, roots@, k as int),
        decreases roots@.len() - k,
    {
        let s = spans[roots[k]].0.start_time_unix_nano;
        if k == 0 || s < min_start {
            min_start = s;
        }
        k = k + 1;
    }
    let mut end: u64 = 0;
    let mut i: usize = 0;
    while i < spans.len()
        invariant
            i <= spans@.len(),
            end == max_end(spans@, i as int),
        decreases spans@.len() - i,
    {
        if spans[i].0.end_time_unix_nano > end {
            end = spans[i].0.end_time_unix_nano;
        }
        i = i + 1;
    }
    let duration = if end > min_start {
        end - min_start
    } else {
        0
    };
    (min_start, duration)
}

/// The timing of a trace: the start of its earliest root span (0 without
/// roots) and the time from it to the latest span end (0 when not later).
pub open spec fn trace_timing_spec(spans: Seq<(SpanRecord, String)>) -> (u64, u64) {
    let roots = by_start(spans, children_of(spans, None, spans.len() as int));
    let start = min_root_start(spans, roots, roots.len() as int);
    let end = max_end(spans, spans.len() as int);
    (start, if end > start { (end - start) as u64 } else { 0 })
}

/// A root span of a trace: kept, and without a parent in the trace.
pub open spec fn is_root(spans: Seq<(SpanRecord, String)>, i: int) -> bool {
    0 <= i < spans.len() && is_kept(spans, i) && parent_of(spans, i) is None
}

proof fn lemma_children_contains(spans: Seq<(SpanRecord, String)>, p: Option<int>, n: int)
    requires
        0 <= n <= spans.len(),
        spans.len() <= usize::MAX,
    ensures
        forall|i: int|
            0 <= i < n && is_kept(spans, i) && parent_of(spans, i) == p ==> #[trigger] children_of(spans, p, n).contains(
                i as usize,
            ),
        forall|k: int|
            0 <= k < children_of(spans, p, n).len() ==> {
                let c = #[trigger] children_of(spans, p, n)[k] as int;
                0 <= c < n && is_kept(spans, c) && parent_of(spans, c) == p
            },
    decreases n,
{
    if n > 0 {
        lemma_children_contains(spans, p, n - 1);
        let prev = children_of(spans, p, n - 1);
        let cur = children_of(spans, p, n);
        if is_kept(spans, n - 1) && parent_of(spans, n - 1) == p {
            assert(cur == prev.push((n - 1) as usize));
            assert forall|k: int| 0 <= k < cur.len() implies {
                let c = #[trigger] cur[k] as int;
                0 <= c < n && is_kept(spans, c) && parent_of(spans, c) == p
            } by {
                if k < prev.len() {
                    assert(cur[k] == prev[k]);
                }
            }
            assert forall|i: int|
                0 <= i < n && is_kept(spans, i) && parent_of(spans, i) == p implies #[trigger] cur.contains(i as usize) by {
                if i < n - 1 {
                    assert(prev.contains(i as usize));
                    let k = choose|k: int| 0 <= k < prev.len() && prev[k] == i as usize;
                    assert(cur[k] == prev[k]);
                } else {
                    assert(cur[prev.len() as int] == (n - 1) as usize);
                }
            }
        } else {
            assert(cur == prev);
            assert forall|i: int|
                0 <= i < n && is_kept(spans, i) && parent_of(spans, i) == p implies #[trigger] cur.contains(i as usize) by {
                assert(i < n - 1);
                assert(prev.contains(i as usize));
            }
        }
    }
}

proof fn lemma_insert_start_contains(spans: Seq<(SpanRecord, String)>, sorted: Seq<usize>, x: usize)
    ensures
        forall|y: usize| insert_by_start(spans, sorted, x).contains(y) <==> (sorted.contains(y) || y == x),
        insert_by_start(spans, sorted, x).len() == sorted.len() + 1,
    decreases sorted.len(),
{
    let r = insert_by_start(spans, sorted, x);
    if sorted.len() == 0 {
        assert forall|y: usize| r.contains(y) <==> (sorted.contains(y) || y == x) by {
            if y == x {
                assert(r[0] == x);
            }
        }
    } else if start_of(spans, sorted.last()) <= start_of(spans, x) {
        assert forall|y: usize| r.contains(y) <==> (sorted.contains(y) || y == x) by {
            if sorted.contains(y) {
                let k = choose|k: int| 0 <= k < sorted.len() && sorted[k] == y;
                assert(r[k] == sorted[k]);
            }
            if y == x {
                assert(r[sorted.len() as int] == x);
            }
            if r.contains(y) {
                let k = choose|k: int| 0 <= k < r.len() && r[k] == y;
                if k < sorted.len() {
                    assert(r[k] == sorted[k]);
                }
            }
        }
    } else {
        let d = sorted.drop_last();
        lemma_insert_start_contains(spans, d, x);
        let i = insert_by_start(spans, d, x);
        assert(r == i.push(sorted.last()));
        assert forall|y: usize| r.contains(y) <==> (sorted.contains(y) || y == x) by {
            if sorted.contains(y) {
                let k = choose|k: int| 0 <= k < sorted.len() && sorted[k] == y;
                if k < d.len() {
                    assert(d[k] == y);
                    assert(d.contains(y));
                    assert(i.contains(y));
                    let j = choose|j: int| 0 <= j < i.len() && i[j] == y;
                    assert(r[j] == i[j]);
                } else {
                    assert(r[i.len() as int] == sorted.last());
                }
            }
            if y == x {
                assert(i.contains(x));
                let j = choose|j: int| 0 <= j < i.len() && i[j] == x;
                assert(r[j] == i[j]);
            }
            if r.contains(y) {
                let k = choose|k: int| 0 <= k < r.len() && r[k] == y;
                if k < i.len() {
                    assert(r[k] == i[k]);
                    assert(i.contains(y));
                    if y != x {
                        assert(d.contains(y));
                        let j = choose|j: int| 0 <= j < d.len() && d[j] == y;
                        assert(sorted[j] == y);
                    }
                } else {
                    assert(sorted[sorted.len() - 1] == y);
                }
            }
        }
    }
}

proof fn lemma_by_start_contains(spans: Seq<(SpanRecord, String)>, list: Seq<usize>)
    ensures
        forall|y: usize| by_start(spans, list).contains(y) <==> list.contains(y),
        by_start(spans, list).len() == list.len(),
    decreases list.len(),
{
    if list.len() > 0 {
        let d = list.drop_last();
        lemma_by_start_contains(spans, d);
        lemma_insert_start_contains(spans, by_start(spans, d), list.last());
        assert forall|y: usize| by_start(spans, list).contains(y) <==> list.contains(y) by {
            if list.contains(y) && y != list.last() {
                let k = choose|k: int| 0 <= k < list.len() && list[k] == y;
                assert(d[k] == y);
            }
            if d.contains(y) {
                let k = choose|k: int| 0 <= k < d.len() && d[k] == y;
                assert(list[k] == y);
            }
            if y == list.last() {
                assert(list[list.len() - 1] == y);
            }
        }
    }
}

proof fn lemma_min_root_start(spans: Seq<(SpanRecord, String)>, roots: Seq<usize>, n: int)
    requires
        0 < n <= roots.len(),
    ensures
        forall|q: int| 0 <= q < n ==> min_root_start(spans, roots, n) <= start_of(spans, #[trigger] roots[q]),
        exists|q: int| 0 <= q < n && min_root_start(spans, roots, n) == start_of(spans, #[trigger] roots[q]),
    decreases n,
{
    if n == 1 {
        assert(min_root_start(spans, roots, 1) == start_of(spans, roots[0]));
    } else {
        lemma_min_root_start(spans, roots, n - 1);
        let m = min_root_start(spans, roots, n - 1);
        if start_of(spans, roots[n - 1]) < m {
            assert(min_root_start(spans, roots, n) == start_of(spans, roots[n - 1]));
        } else {
            let q = choose|q: int| 0 <= q < n - 1 && m == start_of(spans, #[trigger] roots[q]);
            assert(min_root_start(spans, roots, n) == start_of(spans, roots[q]));
        }
    }
}

proof fn lemma_max_end(spans: Seq<(SpanRecord, String)>, n: int)
    requires
        0 <= n <= spans.len(),
    ensures
        forall|j: int| 0 <= j < n ==> (#[trigger] spans[j]).0.end_time_unix_nano <= max_end(spans, n),
        n > 0 ==> exists|j: int| 0 <= j < n && (#[trigger] spans[j]).0.end_time_unix_nano == max_end(spans, n),
        n == 0 ==> max_end(spans, n) == 0,
    decreases n,
{
    if n > 0 {
        lemma_max_end(spans, n - 1);
        if n == 1 {
            assert(spans[0].0.end_time_unix_nano == max_end(spans, 1));
        } else if !(spans[n - 1].0.end_time_unix_nano > max_end(spans, n - 1)) {
            let j = choose|j: int| 0 <= j < n - 1 && (#[trigger] spans[j]).0.end_time_unix_nano == max_end(spans, n - 1);
            assert(spans[j].0.end_time_unix_nano == max_end(spans, n));
        }
    }
}

/// The timing of a trace: its start is the earliest start of its root spans
/// (0 without roots), and its duration runs from there to the latest end of
/// any of its spans (0 when no span ends later).
pub proof fn lemma_trace_timing(spans: Seq<(SpanRecord, String)>)
    requires
        spans.len() <= usize::MAX,
    ensures
        ({
            let (start, duration) = trace_timing_spec(spans);
            &&& forall|i: int| is_root(spans, i) ==> start <= (#[trigger] spans[i]).0.start_time_unix_nano
            &&& (exists|i: int| is_root(spans, i)) ==> exists|i: int|
                is_root(spans, i) && (#[trigger] spans[i]).0.start_time_unix_nano == start
            &&& (forall|i: int| !is_root(spans, i)) ==> start == 0
            &&& forall|j: int|
                0 <= j < spans.len() ==> (#[trigger] spans[j]).0.end_time_unix_nano <= start + duration
            &&& duration == 0 || exists|j: int|
                0 <= j < spans.len() && (#[trigger] spans[j]).0.end_time_unix_nano == start + duration
            &&& duration > 0 ==> exists|j: int|
                0 <= j < spans.len() && (#[trigger] spans[j]).0.end_time_unix_nano > start
        }),
{
    let n = spans.len() as int;
    let kids = children_of(spans, None, n);
    assert(n <= usize::MAX);
    let roots = by_start(spans, kids);
    lemma_children_contains(spans, None, n);
    lemma_by_start_contains(spans, kids);
    lemma_max_end(spans, n);
    let (start, duration) = trace_timing_spec(spans);
    assert forall|i: int| is_root(spans, i) implies start <= (#[trigger] spans[i]).0.start_time_unix_nano by {
        assert(kids.contains(i as usize));
        assert(roots.contains(i as usize));
        let q = choose|q: int| 0 <= q < roots.len() && roots[q] == i as usize;
        lemma_min_root_start(spans, roots, roots.len() as int);
        assert(start <= start_of(spans, roots[q]));
    }
    if exists|i: int| is_root(spans, i) {
        let i0 = choose|i: int| is_root(spans, i);
        assert(kids.contains(i0 as usize));
        assert(roots.contains(i0 as usize));
        lemma_min_root_start(spans, roots, roots.len() as int);
        let q = choose|q: int| 0 <= q < roots.len() && start == start_of(spans, #[trigger] roots[q]);
        assert(roots.contains(roots[q]));
        assert(kids.contains(roots[q]));
        let k = choose|k: int| 0 <= k < kids.len() && kids[k] == roots[q];
        let r = kids[k] as int;
        assert(is_root(spans, r));
        assert(spans[r].0.start_time_unix_nano == start);
    }
    if forall|i: int| !is_root(spans, i) {
        if roots.len() > 0 {
            assert(roots.contains(roots[0]));
            assert(kids.contains(roots[0]));
            let k = choose|k: int| 0 <= k < kids.len() && kids[k] == roots[0];
            assert(is_root(spans, kids[k] as int));
        }
    }
}

/// The kept root spans of a trace in start order.
pub fn root_spans(spans: &Vec<(SpanRecord, String)>) -> (r: Vec<usize>)
    ensures
        r@ == by_start(spans@, children_of(spans@, None, spans@.len() as int)),
        forall|q: int| 0 <= q < r@.len() ==> r@[q] < spans@.len(),
{
    let ids = span_hex_ids(spans);
    let (parents, kept) = span_links(spans, &ids);
    sorted_children(spans, &parents, &kept, None)
}

// ----------------------------------------------------------------------------
// Layout and cell texts
// ----------------------------------------------------------------------------

pub const SERVICE_NAME_WIDTH: usize = 25;
pub const SPAN_NAME_WIDTH: usize = 40;
pub const SPAN_ID_WIDTH: usize = 10;
pub const SPAN_KIND_WIDTH: usize = 10;
pub const STATUS_WIDTH: usize = 9;
pub const DURATION_WIDTH: usize = 13;

/// The widths of the console: the terminal width, the width left for the
/// timeline bars (the terminal width less the fixed columns, their spacing and
/// one free column, at least 10), and the table width.
pub fn calculate_layout_widths(terminal_width: usize) -> (r: (usize, usize, usize))
    ensures
        r.0 == terminal_width,
        r.2 == terminal_width,
        r.1 == (if terminal_width > 123 {
            terminal_width - 114
        } else {
            10
        }),
{
    let fixed = SERVICE_NAME_WIDTH + SPAN_NAME_WIDTH + SPAN_KIND_WIDTH + DURATION_WIDTH + SPAN_ID_WIDTH
        + STATUS_WIDTH + 6;
    let free = terminal_width.saturating_sub(fixed + 1);
    let timeline = if free > 10 {
        free
    } else {
        10
    };
    (terminal_width, timeline, terminal_width)
}

/// The dashes left and right of a trace heading of `heading_len` characters in
/// a table `total_width` wide: one on the left, the rest on the right.
pub fn header_dashes(heading_len: usize, total_width: usize) -> (r: (usize, usize))
    ensures
        r.0 == 1,
        r.1 == (if total_width > heading_len + 3 {
            total_width - heading_len - 3
        } else {
            0
        }),
{
    let total_dash = total_width.saturating_sub(heading_len.saturating_add(2));
    (1, total_dash.saturating_sub(1))
}

/// The heading of a trace: `Trace ID: <id>`, and ` (Missing Root)` when its root
/// span was not received.
pub fn trace_heading(trace_id: &str, root_received: bool) -> (r: (String, &'static str))
    ensures
        r.0@ == "Trace ID: "@ + trace_id@,
        r.1@ == (if root_received {
            ""@
        } else {
            " (Missing Root)"@
        }),
{
    let mut base = String::from_str("Trace ID: ");
    base.append(trace_id);
    let suffix = if root_received {
        ""
    } else {
        " (Missing Root)"
    };
    (base, suffix)
}

/// The first `n` characters of a text.
pub fn truncate_chars(s: &str, n: usize) -> (r: String)
    ensures
        r@ == s@.take(if n < s@.len() { n as int } else { s@.len() as int }),
{
    let len = s.unicode_len();
    let end = if n < len {
        n
    } else {
        len
    };
    String::from_str(s.substring_char(0, end))
}

/// The span-name cell of a waterfall row: two spaces per level, a space, the
/// name, cut to the column width.
pub open spec fn span_name_cell_spec(depth: nat, name: Seq<char>) -> Seq<char> {
    let full = Seq::new(2 * depth, |i: int| ' ') + " "@ + name;
    full.take(if SPAN_NAME_WIDTH < full.len() { SPAN_NAME_WIDTH as int } else { full.len() as int })
}

pub fn span_name_cell(depth: usize, name: &str) -> (r: String)
    ensures
        r@ == span_name_cell_spec(depth as nat, name@),
{
    let mut full = String::new();
    let mut i: usize = 0;
    while i < depth
        invariant
            i <= depth,
            full@ == Seq::new(2 * i as nat, |k: int| ' '),
        decreases depth - i,
    {
        push_char(&mut full, ' ');
        push_char(&mut full, ' ');
        assert(full@ =~= Seq::new(2 * (i + 1) as nat, |k: int| ' '));
        i = i + 1;
    }
    push_char(&mut full, ' ');
    full.append(name);
    proof {
        reveal_strlit(" ");
    }
    assert(full@ =~= Seq::new(2 * depth as nat, |k: int| ' ') + " "@ + name@);
    truncate_chars(full.as_str(), SPAN_NAME_WIDTH)
}

/// The status word of a timeline line: for a span start its status (`UNSET`,
/// `ERROR`, `OK` as found in the text, else `STATUS?`), for an event its level
/// upper-cased.
pub open spec fn timeline_status_word(item_type: ItemType, level_or_status: Seq<char>) -> Seq<char> {
    if item_type == ItemType::SpanStart {
        if crate::startled::names::contains_text(level_or_status, "UNSET"@) {
            "UNSET"@
        } else if crate::startled::names::contains_text(level_or_status, "ERROR"@) {
            "ERROR"@
        } else if crate::startled::names::contains_text(level_or_status, "OK"@) {
            "OK"@
        } else {
            "STATUS?"@
        }
    } else {
        uppercase_of(level_or_status)
    }
}

pub fn timeline_status(item: &TimelineItem) -> (r: String)
    ensures
        r@ == timeline_status_word(item.item_type, item.level_or_status@),
{
    let t = item.level_or_status.as_str();
    if item.item_type == ItemType::SpanStart {
        if crate::startled::names::contains_substring(t, "UNSET") {
            String::from_str("UNSET")
        } else if crate::startled::names::contains_substring(t, "ERROR") {
            String::from_str("ERROR")
        } else if crate::startled::names::contains_substring(t, "OK") {
            String::from_str("OK")
        } else {
            String::from_str("STATUS?")
        }
    } else {
        to_uppercase(t)
    }
}

/// The tag of a timeline line.
pub fn item_tag(item_type: ItemType) -> (r: &'static str)
    ensures
        r@ == (if item_type == ItemType::SpanStart {
            "SPAN"@
        } else {
            "EVENT"@
        }),
{
    match item_type {
        ItemType::SpanStart => "SPAN",
        ItemType::Event => "EVENT",
    }
}

/// What the console shows of one trace.
pub struct TraceDisplay {
    pub trace_id: String,
    pub spans: Vec<(SpanRecord, String)>,
    pub timeline: Vec<TimelineItem>,
    pub rows: Vec<(usize, usize)>,
    pub start_ns: u64,
    pub duration_ns: u64,
}

/// The console model of a batch: its spans grouped by trace (see
/// `prepare_trace_data_from_batch`) and, for each trace, its timeline log,
/// its waterfall rows and its timing.
pub fn console_model(batch: &Vec<crate::livetrace::processing::TelemetryData>, set: &TimelineSettings) -> (r:
    Vec<TraceDisplay>)
    ensures
        r@.len() == group_by_trace(batch_spans(batch@, batch@.len() as int)).len(),
        forall|t: int|
            0 <= t < r@.len() ==> {
                let g = group_by_trace(batch_spans(batch@, batch@.len() as int))[t];
                let d = #[trigger] r@[t];
                &&& d.trace_id@ == g.0
                &&& span_pair_views(d.spans@) == g.1
                &&& item_views(d.timeline@) == sort_by_time(
                    timeline_unsorted(d.spans@, d.spans@.len() as int, *set),
                )
                &&& d.rows@ == waterfall_rows(d.spans@)
                &&& (d.start_ns, d.duration_ns) == trace_timing_spec(d.spans@)
            },
{
    let groups = prepare_trace_data_from_batch(batch);
    let ghost gv = group_views(groups@);
    let mut out: Vec<TraceDisplay> = Vec::new();
    let mut rest = groups;
    let ghost n = gv.len();
    assert(group_views(rest@) =~= gv.subrange(0, n as int));
    while rest.len() > 0
        invariant
            n == gv.len(),
            gv == group_by_trace(batch_spans(batch@, batch@.len() as int)),
            rest@.len() <= n,
            group_views(rest@) == gv.subrange(n - rest@.len(), n as int),
            out@.len() == n - rest@.len(),
            forall|t: int|
                0 <= t < out@.len() ==> {
                    let g = gv[t];
                    let d = #[trigger] out@[t];
                    &&& d.trace_id@ == g.0
                    &&& span_pair_views(d.spans@) == g.1
                    &&& item_views(d.timeline@) == sort_by_time(
                        timeline_unsorted(d.spans@, d.spans@.len() as int, *set),
                    )
                    &&& d.rows@ == waterfall_rows(d.spans@)
                    &&& (d.start_ns, d.duration_ns) == trace_timing_spec(d.spans@)
                },
        decreases rest@.len(),
    {
        let ghost k = n - rest@.len();
        let ghost old_rest = rest@;
        assert(group_views(old_rest)[0] == gv[k]);
        let (trace_id, spans) = rest.remove(0);
        assert(group_views(rest@) =~= group_views(old_rest).subrange(1, old_rest.len() as int));
        let timeline = collect_and_filter_timeline_items_for_trace(&spans, set);
        let rows = waterfall_rows_of(&spans);
        let roots = root_spans(&spans);
        let (start_ns, duration_ns) = trace_timing(&spans, &roots);
        out.push(TraceDisplay { trace_id, spans, timeline, rows, start_ns, duration_ns });
    }
    out
}

} // verus!

