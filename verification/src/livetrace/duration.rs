//! Duration strings such as `30s`, `500ms`, `45m` or `1h`, as accepted on the
//! command line and in profiles, and their canonical rendering.
use vstd::prelude::*;
use vstd::string::*;
use vstd::utf8::is_ascii_chars;
use crate::text::{
    all_digits, ascii_lower_seq, decimal_text, is_digit, unsigned_body, lemma_decimal_text, lemma_parse_decimal_text, lowercase_of,
    parse_u64_range, parse_u64_spec, push_char, push_decimal,
    to_lowercase,
};

verus! {

pub open spec fn ms_suffix() -> Seq<char> {
    seq!['m', 's']
}

/// The number of milliseconds that a duration string denotes before any
/// overflow check: the lower-cased text must end in `ms`, `s`, `m` or `h`
/// and the rest must be what `u64::from_str` accepts.
pub open spec fn duration_value(lower: Seq<char>) -> Option<int> {
    if lower.len() >= 2 && lower.subrange(lower.len() - 2, lower.len() as int) == ms_suffix() {
        match parse_u64_spec(lower.subrange(0, lower.len() - 2)) {
            Some(n) => Some(n as int),
            None => None,
        }
    } else if lower.len() >= 1 && lower.last() == 's' {
        match parse_u64_spec(lower.drop_last()) {
            Some(n) => Some(n * 1000),
            None => None,
        }
    } else if lower.len() >= 1 && lower.last() == 'm' {
        match parse_u64_spec(lower.drop_last()) {
            Some(n) => Some(n * 60000),
            None => None,
        }
    } else if lower.len() >= 1 && lower.last() == 'h' {
        match parse_u64_spec(lower.drop_last()) {
            Some(n) => Some(n * 3600000),
            None => None,
        }
    } else {
        None
    }
}

/// The lower-cased text that the parser reads: ASCII text is lower-cased
/// letter by letter; other text as `str::to_lowercase` does.
pub open spec fn lowered(s: Seq<char>) -> Seq<char> {
    if is_ascii_chars(s) {
        ascii_lower_seq(s)
    } else {
        lowercase_of(s)
    }
}

/// Milliseconds denoted by a duration string (case-insensitive unit suffix).
pub open spec fn duration_millis(s: Seq<char>) -> Option<int> {
    duration_value(lowered(s))
}

/// The multiplication by the unit does not overflow 64 bits.
pub open spec fn duration_fits(s: Seq<char>) -> bool {
    match duration_millis(s) {
        Some(v) => v <= u64::MAX,
        None => true,
    }
}


/// Canonical text of a number of milliseconds: the largest whole unit among
/// `h`, `m`, `s` and `ms`; zero is `0ms`.
pub open spec fn format_duration_spec(millis: u64) -> Seq<char> {
    if millis == 0 {
        seq!['0', 'm', 's']
    } else if millis % 3600000 == 0 {
        decimal_text((millis / 3600000) as nat).push('h')
    } else if millis % 60000 == 0 {
        decimal_text((millis / 60000) as nat).push('m')
    } else if millis % 1000 == 0 {
        decimal_text((millis / 1000) as nat).push('s')
    } else {
        decimal_text(millis as nat) + ms_suffix()
    }
}

fn push_str(out: &mut String, s: &str)
    ensures
        final(out)@ == old(out)@ + s@,
{
    out.append(s);
}

/// Renders milliseconds as the largest whole unit (`h`, `m`, `s`, else `ms`).
pub fn format_millis_to_duration_string(millis: u64) -> (r: String)
    ensures
        r@ == format_duration_spec(millis),
{
    let mut out = String::new();
    if millis == 0 {
        push_char(&mut out, '0');
        push_char(&mut out, 'm');
        push_char(&mut out, 's');
        assert(out@ =~= seq!['0', 'm', 's']);
    } else if millis % 3600000 == 0 {
        push_decimal(&mut out, millis / 3600000);
        push_char(&mut out, 'h');
        assert(out@ =~= decimal_text((millis / 3600000) as nat).push('h'));
    } else if millis % 60000 == 0 {
        push_decimal(&mut out, millis / 60000);
        push_char(&mut out, 'm');
        assert(out@ =~= decimal_text((millis / 60000) as nat).push('m'));
    } else if millis % 1000 == 0 {
        push_decimal(&mut out, millis / 1000);
        push_char(&mut out, 's');
        assert(out@ =~= decimal_text((millis / 1000) as nat).push('s'));
    } else {
        push_decimal(&mut out, millis);
        push_char(&mut out, 'm');
        push_char(&mut out, 's');
        assert(out@ =~= decimal_text(millis as nat) + ms_suffix());
    }
    out
}

/// The `Display` of `u64::from_str`'s error on a text it rejects: empty text,
/// a sign alone or a non-digit is an invalid digit, digits alone are too large.
pub open spec fn int_error_spec(t: Seq<char>) -> Seq<char> {
    if t.len() == 0 {
        "cannot parse integer from empty string"@
    } else if unsigned_body(t).len() == 0 || !all_digits(unsigned_body(t)) {
        "invalid digit found in string"@
    } else {
        "number too large to fit in target type"@
    }
}

/// Why `u64::from_str` rejected `s[from..to]` (see `int_error_spec`).
fn int_error_text(s: &str, from: usize, to: usize) -> (r: String)
    requires
        from <= to <= s@.len(),
    ensures
        r@ == int_error_spec(s@.subrange(from as int, to as int)),
{
    let ghost t = s@.subrange(from as int, to as int);
    if from == to {
        String::from_str("cannot parse integer from empty string")
    } else {
        let mut start = from;
        if s.get_char(from) == '+' {
            start = from + 1;
        }
        assert(t[0] == s@[from as int]);
        assert(unsigned_body(t) =~= s@.subrange(start as int, to as int));
        if start == to {
            assert(unsigned_body(t).len() == 0);
            return String::from_str("invalid digit found in string");
        }
        let mut i = start;
        while i < to
            invariant
                start <= i <= to <= s@.len(),
                t == s@.subrange(from as int, to as int),
                t.len() > 0,
                unsigned_body(t) == s@.subrange(start as int, to as int),
                forall|j: int| start <= j < i ==> is_digit(#[trigger] s@[j]),
            decreases to - i,
        {
            let c = s.get_char(i);
            if !('0' <= c && c <= '9') {
                assert(!is_digit(s@.subrange(start as int, to as int)[i - start]));
                return String::from_str("invalid digit found in string");
            }
            i = i + 1;
        }
        assert(all_digits(s@.subrange(start as int, to as int))) by {
            assert forall|k: int| 0 <= k < to - start implies is_digit(
                #[trigger] s@.subrange(start as int, to as int)[k],
            ) by {
                assert(s@.subrange(start as int, to as int)[k] == s@[start + k]);
            }
        }
        String::from_str("number too large to fit in target type")
    }
}

/// The error message for the rejected number `t` with the given unit word: the
/// unit, the text and why `u64::from_str` rejected it.
pub open spec fn value_error_spec(unit: Seq<char>, t: Seq<char>) -> Seq<char> {
    "Invalid "@ + unit + " value '"@ + t + "': "@ + int_error_spec(t)
}

/// The error message of a duration string that `duration_millis` rejects: a
/// rejected number names its unit (read from the lower-cased text), any other
/// text is told that it must end with a unit.
pub open spec fn duration_error_spec(s: Seq<char>) -> Seq<char> {
    let lower = lowered(s);
    if lower.len() >= 2 && lower.subrange(lower.len() - 2, lower.len() as int) == ms_suffix() {
        value_error_spec("milliseconds"@, lower.subrange(0, lower.len() - 2))
    } else if lower.len() >= 1 && lower.last() == 's' {
        value_error_spec("seconds"@, lower.drop_last())
    } else if lower.len() >= 1 && lower.last() == 'm' {
        value_error_spec("minutes"@, lower.drop_last())
    } else if lower.len() >= 1 && lower.last() == 'h' {
        value_error_spec("hours"@, lower.drop_last())
    } else {
        "Invalid duration string '"@ + s
            + "'. Must end with 'ms', 's', 'm', or 'h'. Bare numbers are not allowed."@
    }
}

/// The error message for a rejected number with the given unit word (see
/// `value_error_spec`).
fn value_error(unit: &str, s: &str, from: usize, to: usize) -> (r: String)
    requires
        from <= to <= s@.len(),
    ensures
        r@ == value_error_spec(unit@, s@.subrange(from as int, to as int)),
{
    let mut msg = String::from_str("Invalid ");
    push_str(&mut msg, unit);
    push_str(&mut msg, " value '");
    push_str(&mut msg, s.substring_char(from, to));
    push_str(&mut msg, "': ");
    let reason = int_error_text(s, from, to);
    push_str(&mut msg, reason.as_str());
    msg
}

/// Parses a duration string into milliseconds. The unit suffix (`ms`, `s`, `m`,
/// `h`) is matched case-insensitively and is required; the number is read as
/// `u64::from_str` reads it. Inputs whose value overflows 64 bits after scaling
/// are excluded, as the unchecked multiplication would. A rejected string gets
/// the message of `duration_error_spec`.
pub fn parse_duration_to_millis(s: &str) -> (r: Result<u64, String>)
    requires
        duration_fits(s@),
    ensures
        match r {
            Ok(v) => duration_millis(s@) == Some(v as int),
            Err(m) => duration_millis(s@) is None && m@ == duration_error_spec(s@),
        },
{
    let lower = to_lowercase(s);
    let l = lower.as_str();
    assert(l@ == lowered(s@));
    let n = l.unicode_len();
    if n >= 2 && l.get_char(n - 2) == 'm' && l.get_char(n - 1) == 's' {
        assert(l@.subrange(n - 2, n as int) =~= ms_suffix());
        match parse_u64_range(l, 0, n - 2) {
            Some(v) => {
                assert(l@.len() >= 2);
                assert(parse_u64_spec(l@.subrange(0, l@.len() - 2)) == Some(v));
                Ok(v)
            },
            None => Err(value_error("milliseconds", l, 0, n - 2)),
        }
    } else {
        assert(n >= 2 ==> l@.subrange(n - 2, n as int) != ms_suffix()) by {
            if n >= 2 && l@.subrange(n - 2, n as int) == ms_suffix() {
                assert(l@.subrange(n - 2, n as int)[0] == l@[n - 2]);
                assert(l@.subrange(n - 2, n as int)[1] == l@[n - 1]);
            }
        }
        if n >= 1 && l.get_char(n - 1) == 's' {
            assert(l@.drop_last() =~= l@.subrange(0, n - 1));
            match parse_u64_range(l, 0, n - 1) {
                Some(v) => Ok(v * 1000),
                None => Err(value_error("seconds", l, 0, n - 1)),
            }
        } else if n >= 1 && l.get_char(n - 1) == 'm' {
            assert(l@.drop_last() =~= l@.subrange(0, n - 1));
            match parse_u64_range(l, 0, n - 1) {
                Some(v) => Ok(v * 60000),
                None => Err(value_error("minutes", l, 0, n - 1)),
            }
        } else if n >= 1 && l.get_char(n - 1) == 'h' {
            assert(l@.drop_last() =~= l@.subrange(0, n - 1));
            match parse_u64_range(l, 0, n - 1) {
                Some(v) => Ok(v * 3600000),
                None => Err(value_error("hours", l, 0, n - 1)),
            }
        } else {
            let mut msg = String::from_str("Invalid duration string '");
            push_str(&mut msg, s);
            push_str(
                &mut msg,
                "'. Must end with 'ms', 's', 'm', or 'h'. Bare numbers are not allowed.",
            );
            Err(msg)
        }
    }
}

/// Whether `s` is a duration whose value fits in 64 bits after scaling, i.e.
/// whether `parse_duration_to_millis` may be called on it.
pub fn duration_in_range(s: &str) -> (b: bool)
    ensures
        b == duration_fits(s@),
{
    let lower = to_lowercase(s);
    let l = lower.as_str();
    let n = l.unicode_len();
    if n >= 2 && l.get_char(n - 2) == 'm' && l.get_char(n - 1) == 's' {
        assert(l@.subrange(n - 2, n as int) =~= ms_suffix());
        true
    } else {
        assert(n >= 2 ==> l@.subrange(n - 2, n as int) != ms_suffix()) by {
            if n >= 2 && l@.subrange(n - 2, n as int) == ms_suffix() {
                assert(l@.subrange(n - 2, n as int)[0] == l@[n - 2]);
                assert(l@.subrange(n - 2, n as int)[1] == l@[n - 1]);
            }
        }
        if n >= 1 {
            let last = l.get_char(n - 1);
            let factor: u64 = if last == 's' {
                1000
            } else if last == 'm' {
                60000
            } else if last == 'h' {
                3600000
            } else {
                return true;
            };
            assert(l@.drop_last() =~= l@.subrange(0, n - 1));
            match parse_u64_range(l, 0, n - 1) {
                Some(v) => v <= u64::MAX / factor,
                None => true,
            }
        } else {
            true
        }
    }
}

/// Parsing the canonical text of a number of milliseconds gives the number back:
/// `parse_duration_to_millis(format_millis_to_duration_string(m)) == Ok(m)`.
pub proof fn lemma_format_then_parse(millis: u64)
    ensures
        duration_millis(format_duration_spec(millis)) == Some(millis as int),
        duration_fits(format_duration_spec(millis)),
{
    let t = format_duration_spec(millis);
    let q: u64 = if millis == 0 {
        0
    } else if millis % 3600000 == 0 {
        millis / 3600000
    } else if millis % 60000 == 0 {
        millis / 60000
    } else if millis % 1000 == 0 {
        millis / 1000
    } else {
        millis
    };
    lemma_decimal_text(q as nat);
    lemma_parse_decimal_text(q);
    let d = decimal_text(q as nat);
    assert(millis == 0 ==> d == seq!['0']);
    assert(is_ascii_chars(t)) by {
        assert forall|i: int| 0 <= i < t.len() implies '\0' <= #[trigger] t[i] <= '\u{7f}' by {
            if i < d.len() {
                assert(is_digit(d[i]));
            }
        }
    }
    let lt = ascii_lower_seq(t);
    assert(lt =~= t) by {
        assert forall|i: int| 0 <= i < t.len() implies lt[i] == t[i] by {
            if i < d.len() {
                assert(is_digit(d[i]));
                assert(t[i] == d[i]);
            }
        }
    }
    assert(lowered(t) == t);
    if millis == 0 || (millis % 3600000 != 0 && millis % 60000 != 0 && millis % 1000 != 0) {
        assert(t =~= d + ms_suffix());
        assert(t.subrange(t.len() - 2, t.len() as int) =~= ms_suffix());
        assert(t.subrange(0, t.len() - 2) =~= d);
    } else {
        assert(t.drop_last() =~= d);
        assert(t.subrange(t.len() - 2, t.len() as int)[0] == d.last());
    }
}

} // verus!
