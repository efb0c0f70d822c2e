//! OTLP request headers given as `Key=Value` strings, and where the endpoint and
//! headers come from (configuration, then the OpenTelemetry environment
//! variables).
use vstd::prelude::*;
use vstd::string::*;
use vstd::utf8::encode_utf8;
use http::{HeaderMap, HeaderName, HeaderValue};
use crate::pairs::{
    insert_entry, insert_pair, key_index, lemma_key_index, lemma_lookup_after_insert, lookup, pairs_view,
};
use crate::text::{ascii_lower_seq, clone_opt_string, clone_strings, comma_list_spec, opt_seq, seqs_of, split_comma_list};

verus! {

#[verifier::external_type_specification]
#[verifier::external_body]
#[verifier::reject_recursive_types(T)]
pub struct ExHeaderMap<T>(HeaderMap<T>);

#[verifier::external_type_specification]
#[verifier::external_body]
pub struct ExHeaderName(HeaderName);

#[verifier::external_type_specification]
#[verifier::external_body]
pub struct ExHeaderValue(HeaderValue);

/// A character of an HTTP header name (a `tchar`): a letter, a digit, or one
/// of ``!#$%&'*+-.^_`|~``.
pub open spec fn header_token_char(c: char) -> bool {
    ('a' <= c && c <= 'z') || ('A' <= c && c <= 'Z') || ('0' <= c && c <= '9') || c == '!' || c == '#'
        || c == '$' || c == '%' || c == '&' || c == '\'' || c == '*' || c == '+' || c == '-' || c == '.'
        || c == '^' || c == '_' || c == '`' || c == '|' || c == '~'
}

/// The canonical text of the header name that `http::HeaderName::from_str`
/// builds from a string, or `None` when it rejects it: the string must hold 1
/// to 65535 name characters, and its letters are lower-cased.
pub open spec fn header_name_of(s: Seq<char>) -> Option<Seq<char>> {
    if 1 <= s.len() <= 65535 && forall|i: int| 0 <= i < s.len() ==> header_token_char(#[trigger] s[i]) {
        Some(ascii_lower_seq(s))
    } else {
        None
    }
}

/// The text of a header name (`HeaderName::as_str`).
pub uninterp spec fn header_name_text(name: HeaderName) -> Seq<char>;

/// `http::HeaderName::from_str`, as its source shows (`parse_hdr` with the
/// `HEADER_CHARS` table): a name of 1 to 65535 bytes, each mapped by the table
/// to a non-zero byte, that is a name character, lower-cased; any other byte,
/// including every byte of a non-ASCII character, is refused.
#[verifier::external_body]
fn parse_header_name(s: &str) -> (r: Option<HeaderName>)
    ensures
        match r {
            Some(name) => header_name_of(s@) == Some(header_name_text(name)),
            None => header_name_of(s@) is None,
        },
{
    <HeaderName as std::str::FromStr>::from_str(s).ok()
}

/// What `http::HeaderValue::from_str` accepts: every byte is a tab or lies in
/// 32..=255 except 127. For a character this means a tab, or a code point of
/// at least 32 other than 127 (characters above ASCII encode to bytes >= 128).
pub open spec fn header_value_char_ok(c: char) -> bool {
    c == '\t' || ((c as u32) >= 32 && (c as u32) != 127)
}

pub open spec fn header_value_ok(s: Seq<char>) -> bool {
    forall|i: int| 0 <= i < s.len() ==> header_value_char_ok(#[trigger] s[i])
}

/// The bytes of a header value (`HeaderValue::as_bytes`).
pub uninterp spec fn header_value_bytes(value: HeaderValue) -> Seq<u8>;

/// `http::HeaderValue::from_str`: it accepts the text as its source (`is_valid`
/// over the bytes) shows, and then holds a copy of the text's bytes.
#[verifier::external_body]
fn parse_header_value(s: &str) -> (r: Option<HeaderValue>)
    ensures
        r is Some <==> header_value_ok(s@),
        r matches Some(value) ==> header_value_bytes(value) == encode_utf8(s@),
{
    HeaderValue::from_str(s).ok()
}

/// The most headers a map built here holds: below this size, `http`'s
/// `HeaderMap::insert` cannot reach its size limit (`MAX_SIZE` is 2^15 index
/// slots, and the index only grows while it is at most five times the number
/// of names).
pub const HEADER_MAP_LIMIT: usize = 6553;

/// The headers a map holds: each name, by its text, with the bytes of its
/// first value (`HeaderMap::get`).
pub uninterp spec fn header_map_contents(map: HeaderMap) -> Map<Seq<char>, Seq<u8>>;

/// No header at all.
pub open spec fn no_headers() -> Map<Seq<char>, Seq<u8>> {
    Map::empty()
}

/// `HeaderMap::new`: a map without headers.
#[verifier::external_body]
fn header_map_new() -> (map: HeaderMap)
    ensures
        header_map_contents(map) == no_headers(),
{
    HeaderMap::new()
}

/// `HeaderMap::insert`: the name gets the value, every earlier value of the
/// name being removed; the other names keep theirs. It panics when the map
/// cannot grow (see `HEADER_MAP_LIMIT`), which the bound on the size rules out.
#[verifier::external_body]
fn header_map_insert(map: &mut HeaderMap, name: HeaderName, value: HeaderValue)
    requires
        header_map_contents(*old(map)).dom().finite(),
        header_map_contents(*old(map)).dom().len() < HEADER_MAP_LIMIT,
    ensures
        header_map_contents(*final(map)) == header_map_contents(*old(map)).insert(
            header_name_text(name),
            header_value_bytes(value),
        ),
{
    map.insert(name, value);
}

/// The headers of a list of canonical names and values, a later entry
/// replacing an earlier one of the same name.
pub open spec fn header_contents_of(m: Seq<(Seq<char>, Seq<char>)>) -> Map<Seq<char>, Seq<u8>>
    decreases m.len(),
{
    if m.len() == 0 {
        Map::empty()
    } else {
        header_contents_of(m.drop_last()).insert(m.last().0, encode_utf8(m.last().1))
    }
}

proof fn lemma_header_contents_size(m: Seq<(Seq<char>, Seq<char>)>)
    ensures
        header_contents_of(m).dom().finite(),
        header_contents_of(m).dom().len() <= m.len(),
    decreases m.len(),
{
    if m.len() > 0 {
        lemma_header_contents_size(m.drop_last());
    }
}

/// Setting an entry of the list, where its key last occurs, sets that header.
proof fn lemma_header_contents_insert(m: Seq<(Seq<char>, Seq<char>)>, k: Seq<char>, v: Seq<char>)
    ensures
        header_contents_of(insert_entry(m, k, v)) == header_contents_of(m).insert(k, encode_utf8(v)),
    decreases m.len(),
{
    match key_index(m, k) {
        None => {
            assert(insert_entry(m, k, v).drop_last() =~= m);
        },
        Some(i) => {
            lemma_key_index(m, k);
            let u = m.update(i, (k, v));
            if i == m.len() - 1 {
                assert(u.drop_last() =~= m.drop_last());
                assert(header_contents_of(u) =~= header_contents_of(m).insert(k, encode_utf8(v)));
            } else {
                let p = m.drop_last();
                assert(key_index(p, k) == Some(i));
                assert(u.drop_last() =~= p.update(i, (k, v)));
                assert(insert_entry(p, k, v) == p.update(i, (k, v)));
                lemma_header_contents_insert(p, k, v);
                assert(header_contents_of(u) =~= header_contents_of(m).insert(k, encode_utf8(v)));
            }
        },
    }
}

/// Why a header list was rejected.
pub enum HeaderError {
    /// The part before `=` is not a valid header name.
    InvalidName { name: String },
    /// The part after `=` is not a valid header value.
    InvalidValue { name: String, value: String },
}

/// The view of a `HeaderError`: which kind, the raw name and, for values, the
/// raw value.
pub enum HeaderProblem {
    InvalidName(Seq<char>),
    InvalidValue(Seq<char>, Seq<char>),
}

impl HeaderError {
    pub open spec fn problem(&self) -> HeaderProblem {
        match self {
            HeaderError::InvalidName { name } => HeaderProblem::InvalidName(name@),
            HeaderError::InvalidValue { name, value } => HeaderProblem::InvalidValue(
                name@,
                value@,
            ),
        }
    }

    /// The error message.
    pub fn message(&self) -> (r: String)
        ensures
            r@ == match self {
                HeaderError::InvalidName { name } => "Invalid OTLP header name: "@ + name@,
                HeaderError::InvalidValue { name, value } => "Invalid OTLP header value for "@ + name@ + ": "@
                    + value@,
            },
    {
        match self {
            HeaderError::InvalidName { name } => {
                let mut m = String::from_str("Invalid OTLP header name: ");
                m.append(name.as_str());
                m
            },
            HeaderError::InvalidValue { name, value } => {
                let mut m = String::from_str("Invalid OTLP header value for ");
                m.append(name.as_str());
                m.append(": ");
                m.append(value.as_str());
                m
            },
        }
    }
}

/// Index of the first occurrence of `c` in `s`.
pub open spec fn first_index_of(s: Seq<char>, c: char) -> Option<int>
    decreases s.len(),
{
    if s.len() == 0 {
        None
    } else {
        match first_index_of(s.drop_last(), c) {
            Some(i) => Some(i),
            None => if s.last() == c {
                Some(s.len() - 1)
            } else {
                None
            },
        }
    }
}

/// One `Key=Value` string applied to the headers read so far: text without `=`
/// is ignored; otherwise the name must be valid, then the value.
pub open spec fn header_step(m: Seq<(Seq<char>, Seq<char>)>, h: Seq<char>) -> Result<
    Seq<(Seq<char>, Seq<char>)>,
    HeaderProblem,
> {
    match first_index_of(h, '=') {
        None => Ok(m),
        Some(i) => {
            let name = h.subrange(0, i);
            let value = h.subrange(i + 1, h.len() as int);
            match header_name_of(name) {
                None => Err(HeaderProblem::InvalidName(name)),
                Some(canonical) => if header_value_ok(value) {
                    Ok(insert_entry(m, canonical, value))
                } else {
                    Err(HeaderProblem::InvalidValue(name, value))
                },
            }
        },
    }
}

/// All header strings in order; the first rejected one decides the error.
pub open spec fn parse_headers_spec(hs: Seq<Seq<char>>) -> Result<
    Seq<(Seq<char>, Seq<char>)>,
    HeaderProblem,
>
    decreases hs.len(),
{
    if hs.len() == 0 {
        Ok(Seq::empty())
    } else {
        match parse_headers_spec(hs.drop_last()) {
            Err(e) => Err(e),
            Ok(m) => header_step(m, hs.last()),
        }
    }
}

pub(crate) fn find_char(s: &str, c: char) -> (r: Option<usize>)
    ensures
        match r {
            Some(i) => first_index_of(s@, c) == Some(i as int) && i < s@.len(),
            None => first_index_of(s@, c) is None,
        },
{
    let n = s.unicode_len();
    let mut i: usize = 0;
    assert(s@.subrange(0, 0) =~= Seq::<char>::empty());
    while i < n
        invariant
            n == s@.len(),
            i <= n,
            first_index_of(s@.subrange(0, i as int), c) is None,
        decreases n - i,
    {
        let d = s.get_char(i);
        let ghost next = s@.subrange(0, i + 1);
        assert(next.drop_last() =~= s@.subrange(0, i as int));
        if d == c {
            proof {
                lemma_first_index_extend(s@, i as int + 1, c);
            }
            return Some(i);
        }
        i = i + 1;
    }
    assert(s@.subrange(0, n as int) =~= s@);
    None
}

/// A first occurrence found in a prefix is the first occurrence in the whole.
proof fn lemma_first_index_extend(s: Seq<char>, k: int, c: char)
    requires
        0 <= k <= s.len(),
        first_index_of(s.subrange(0, k), c) is Some,
    ensures
        first_index_of(s, c) == first_index_of(s.subrange(0, k), c),
    decreases s.len() - k,
{
    if k < s.len() {
        assert(s.drop_last().subrange(0, k) =~= s.subrange(0, k));
        lemma_first_index_extend(s.drop_last(), k, c);
    } else {
        assert(s.subrange(0, k) =~= s);
    }
}

/// Once a prefix of the header strings is rejected, the whole list is rejected
/// with the same error.
proof fn lemma_parse_error_stays(hs: Seq<Seq<char>>, k: int)
    requires
        0 <= k <= hs.len(),
        parse_headers_spec(hs.subrange(0, k)) is Err,
    ensures
        parse_headers_spec(hs) == parse_headers_spec(hs.subrange(0, k)),
    decreases hs.len() - k,
{
    if k < hs.len() {
        assert(hs.drop_last().subrange(0, k) =~= hs.subrange(0, k));
        lemma_parse_error_stays(hs.drop_last(), k);
    } else {
        assert(hs.subrange(0, k) =~= hs);
    }
}

/// Whether one `Key=Value` string is refused: it has an `=`, and the text
/// before the first `=` is not a valid header name or the text after it is not
/// a valid header value.
pub open spec fn header_entry_refused(h: Seq<char>) -> bool {
    match first_index_of(h, '=') {
        None => false,
        Some(i) => header_name_of(h.subrange(0, i)) is None || !header_value_ok(
            h.subrange(i + 1, h.len() as int),
        ),
    }
}

proof fn lemma_header_step_refusal(m: Seq<(Seq<char>, Seq<char>)>, h: Seq<char>)
    ensures
        header_step(m, h) is Err <==> header_entry_refused(h),
        header_entry_refused(h) ==> header_step(m, h) == header_step(Seq::empty(), h),
{
}

/// A header list is rejected exactly when one of its strings is refused, and
/// then with the error of the first refused string, whatever follows it.
pub proof fn lemma_first_refused_header_decides(hs: Seq<Seq<char>>)
    ensures
        parse_headers_spec(hs) is Err <==> exists|k: int|
            0 <= k < hs.len() && header_entry_refused(#[trigger] hs[k]),
        forall|k: int|
            0 <= k < hs.len() && header_entry_refused(#[trigger] hs[k]) && (forall|j: int|
                0 <= j < k ==> !header_entry_refused(#[trigger] hs[j])) ==> parse_headers_spec(hs)
                == header_step(Seq::empty(), hs[k]),
    decreases hs.len(),
{
    if hs.len() > 0 {
        let p = hs.drop_last();
        lemma_first_refused_header_decides(p);
        assert forall|k: int| 0 <= k < p.len() implies p[k] == #[trigger] hs[k] by {}
        match parse_headers_spec(p) {
            Err(e) => {
                let k0 = choose|k: int| 0 <= k < p.len() && header_entry_refused(#[trigger] p[k]);
                assert(header_entry_refused(hs[k0]));
                assert forall|k: int|
                    0 <= k < hs.len() && header_entry_refused(#[trigger] hs[k]) && (forall|j: int|
                        0 <= j < k ==> !header_entry_refused(#[trigger] hs[j])) implies parse_headers_spec(hs)
                    == header_step(Seq::empty(), hs[k]) by {
                    if k == hs.len() - 1 {
                        assert(!header_entry_refused(hs[k0]));
                    } else {
                        assert(header_entry_refused(p[k]));
                        assert forall|j: int| 0 <= j < k implies !header_entry_refused(#[trigger] p[j]) by {
                            assert(!header_entry_refused(hs[j]));
                        }
                    }
                }
            },
            Ok(m) => {
                lemma_header_step_refusal(m, hs.last());
                assert(forall|k: int| 0 <= k < p.len() ==> !header_entry_refused(#[trigger] p[k]));
                if header_entry_refused(hs.last()) {
                    assert(header_entry_refused(hs[hs.len() - 1]));
                }
                assert forall|k: int|
                    0 <= k < hs.len() && header_entry_refused(#[trigger] hs[k]) implies k == hs.len() - 1 by {
                    if k < hs.len() - 1 {
                        assert(header_entry_refused(p[k]));
                    }
                }
            },
        }
    }
}

/// A string without `=` leaves the headers as they are; a string that is not
/// refused sets its header, by canonical name, to its value, replacing the
/// value of an earlier string with the same name, and leaves every other
/// header as it was.
pub proof fn lemma_later_header_overwrites(hs: Seq<Seq<char>>, h: Seq<char>)
    requires
        parse_headers_spec(hs) is Ok,
        !header_entry_refused(h),
    ensures
        first_index_of(h, '=') is None ==> parse_headers_spec(hs.push(h)) == parse_headers_spec(hs),
        first_index_of(h, '=') matches Some(i) ==> ({
            let name = header_name_of(h.subrange(0, i))->Some_0;
            let value = h.subrange(i + 1, h.len() as int);
            let before = parse_headers_spec(hs)->Ok_0;
            parse_headers_spec(hs.push(h)) matches Ok(after) && lookup(after, name) == Some(value)
                && forall|other: Seq<char>|
                other != name ==> #[trigger] lookup(after, other) == lookup(before, other)
        }),
{
    assert(hs.push(h).drop_last() =~= hs);
    if let Some(i) = first_index_of(h, '=') {
        let name = header_name_of(h.subrange(0, i))->Some_0;
        let value = h.subrange(i + 1, h.len() as int);
        lemma_lookup_after_insert(parse_headers_spec(hs)->Ok_0, name, value);
    }
}

/// Whether the `k`-th string stays within the size the map can take: when the
/// strings before it are accepted and it sets a header, fewer than
/// `HEADER_MAP_LIMIT` names are set before it.
pub open spec fn header_fits_at(hs: Seq<Seq<char>>, k: int) -> bool {
    match parse_headers_spec(hs.subrange(0, k)) {
        Ok(m) => (first_index_of(hs[k], '=') is Some && !header_entry_refused(hs[k])) ==> m.len()
            < HEADER_MAP_LIMIT,
        Err(_) => true,
    }
}

/// Every string of the list stays within the size the map can take.
pub open spec fn headers_fit(hs: Seq<Seq<char>>) -> bool {
    forall|k: int| 0 <= k < hs.len() ==> #[trigger] header_fits_at(hs, k)
}

/// The text of a header name (`HeaderName::as_str`).
#[verifier::external_body]
fn header_name_string(name: &HeaderName) -> (r: String)
    ensures
        r@ == header_name_text(*name),
{
    name.as_str().to_string()
}

/// Whether the list of header strings stays within the size the map can take
/// (see `headers_fit`): the names are counted as parsing sets them, until a
/// string is refused.
pub fn headers_within_limit(headers_vec: &Vec<String>) -> (b: bool)
    ensures
        b == headers_fit(seqs_of(headers_vec@)),
{
    let ghost hs = seqs_of(headers_vec@);
    let mut names: Vec<(String, String)> = Vec::new();
    let mut j: usize = 0;
    assert(hs.subrange(0, 0) =~= Seq::<Seq<char>>::empty());
    assert(pairs_view(names@) =~= Seq::<(Seq<char>, Seq<char>)>::empty());
    while j < headers_vec.len()
        invariant
            j <= headers_vec@.len(),
            hs == seqs_of(headers_vec@),
            parse_headers_spec(hs.subrange(0, j as int)) == Ok::<
                Seq<(Seq<char>, Seq<char>)>,
                HeaderProblem,
            >(pairs_view(names@)),
            forall|k: int| 0 <= k < j ==> #[trigger] header_fits_at(hs, k),
        decreases headers_vec@.len() - j,
    {
        let h = headers_vec[j].as_str();
        let ghost next = hs.subrange(0, j + 1);
        assert(next.drop_last() =~= hs.subrange(0, j as int));
        assert(next.last() == h@);
        assert(hs[j as int] == h@);
        match find_char(h, '=') {
            None => {
                assert(header_fits_at(hs, j as int));
            },
            Some(i) => {
                let n = h.unicode_len();
                let name_part = h.substring_char(0, i);
                let value_part = h.substring_char(i + 1, n);
                let refused = match parse_header_name(name_part) {
                    None => true,
                    Some(name) => {
                        match parse_header_value(value_part) {
                            None => true,
                            Some(_) => {
                                if names.len() >= HEADER_MAP_LIMIT {
                                    assert(!header_fits_at(hs, j as int));
                                    return false;
                                }
                                let text = header_name_string(&name);
                                insert_pair(&mut names, text, String::from_str(value_part));
                                assert(header_fits_at(hs, j as int));
                                false
                            },
                        }
                    },
                };
                if refused {
                    proof {
                        assert(header_fits_at(hs, j as int));
                        assert forall|k: int| 0 <= k < hs.len() implies #[trigger] header_fits_at(hs, k) by {
                            if k > j {
                                lemma_parse_error_stays(hs.subrange(0, k), j as int + 1);
                                assert(hs.subrange(0, k).subrange(0, j as int + 1) =~= hs.subrange(0, j as int + 1));
                            }
                        }
                    }
                    return true;
                }
            },
        }
        j = j + 1;
    }
    true
}

/// Parses `Key=Value` header strings into a header map, when the list stays
/// within the size the map can take (see `parse_otlp_headers_from_vec`);
/// `None` otherwise.
pub fn try_parse_otlp_headers(headers_vec: &Vec<String>) -> (r: Option<Result<HeaderMap, HeaderError>>)
    ensures
        r is None <==> !headers_fit(seqs_of(headers_vec@)),
        r matches Some(x) ==> match x {
            Ok(map) => parse_headers_spec(seqs_of(headers_vec@)) matches Ok(pairs)
                && header_map_contents(map) == header_contents_of(pairs),
            Err(e) => parse_headers_spec(seqs_of(headers_vec@)) == Err::<
                Seq<(Seq<char>, Seq<char>)>,
                HeaderProblem,
            >(e.problem()),
        },
{
    if headers_within_limit(headers_vec) {
        Some(parse_otlp_headers_from_vec(headers_vec))
    } else {
        None
    }
}

/// Parses `Key=Value` header strings into a header map. Strings without `=`
/// are ignored; the first string whose name or value `http` rejects makes the
/// whole result an error. A repeated name takes the later value. Lists that
/// would set `HEADER_MAP_LIMIT` names or more are left out (see
/// `headers_fit`), as the map might not grow to hold them.
pub fn parse_otlp_headers_from_vec(headers_vec: &Vec<String>) -> (r: Result<HeaderMap, HeaderError>)
    requires
        headers_fit(seqs_of(headers_vec@)),
    ensures
        match r {
            Ok(map) => parse_headers_spec(seqs_of(headers_vec@)) matches Ok(pairs)
                && header_map_contents(map) == header_contents_of(pairs),
            Err(e) => parse_headers_spec(seqs_of(headers_vec@)) == Err::<
                Seq<(Seq<char>, Seq<char>)>,
                HeaderProblem,
            >(e.problem()),
        },
{
    let mut map = header_map_new();
    let ghost mut pairs: Seq<(Seq<char>, Seq<char>)> = Seq::empty();
    let mut j: usize = 0;
    assert(seqs_of(headers_vec@).subrange(0, 0) =~= Seq::<Seq<char>>::empty());
    assert(header_contents_of(pairs) =~= no_headers());
    while j < headers_vec.len()
        invariant
            j <= headers_vec@.len(),
            headers_fit(seqs_of(headers_vec@)),
            parse_headers_spec(seqs_of(headers_vec@).subrange(0, j as int)) == Ok::<
                Seq<(Seq<char>, Seq<char>)>,
                HeaderProblem,
            >(pairs),
            header_map_contents(map) == header_contents_of(pairs),
        decreases headers_vec@.len() - j,
    {
        let h = headers_vec[j].as_str();
        let ghost hs = seqs_of(headers_vec@);
        let ghost next = hs.subrange(0, j + 1);
        assert(next.drop_last() =~= hs.subrange(0, j as int));
        assert(next.last() == h@);
        match find_char(h, '=') {
            None => {},
            Some(i) => {
                let n = h.unicode_len();
                let name_part = h.substring_char(0, i);
                let value_part = h.substring_char(i + 1, n);
                match parse_header_name(name_part) {
                    None => {
                        proof {
                            lemma_parse_error_stays(hs, j as int + 1);
                        }
                        return Err(HeaderError::InvalidName { name: String::from_str(name_part) });
                    },
                    Some(name) => {
                        match parse_header_value(value_part) {
                            Some(value) => {
                                proof {
                                    assert(header_fits_at(hs, j as int));
                                    lemma_header_contents_size(pairs);
                                    lemma_key_index(pairs, header_name_text(name));
                                    lemma_header_contents_insert(pairs, header_name_text(name), value_part@);
                                    pairs = insert_entry(pairs, header_name_text(name), value_part@);
                                }
                                header_map_insert(&mut map, name, value);
                            },
                            None => {
                                proof {
                                    lemma_parse_error_stays(hs, j as int + 1);
                                }
                                return Err(
                                    HeaderError::InvalidValue {
                                        name: String::from_str(name_part),
                                        value: String::from_str(value_part),
                                    },
                                );
                            },
                        }
                    },
                }
            },
        }
        j = j + 1;
    }
    assert(seqs_of(headers_vec@).subrange(0, j as int) =~= seqs_of(headers_vec@));
    Ok(map)
}

/// Where the OTLP endpoint comes from: the configuration, else
/// `OTEL_EXPORTER_OTLP_TRACES_ENDPOINT`, else `OTEL_EXPORTER_OTLP_ENDPOINT`.
pub fn resolve_otlp_endpoint(
    configured: &Option<String>,
    env_traces_endpoint: &Option<String>,
    env_endpoint: &Option<String>,
) -> (r: Option<String>)
    ensures
        r == (if configured is Some {
            *configured
        } else if env_traces_endpoint is Some {
            *env_traces_endpoint
        } else {
            *env_endpoint
        }),
{
    if configured.is_some() {
        clone_opt_string(configured)
    } else if env_traces_endpoint.is_some() {
        clone_opt_string(env_traces_endpoint)
    } else {
        clone_opt_string(env_endpoint)
    }
}

/// The header strings in force: the configured ones if there are any; else the
/// comma-separated list of `OTEL_EXPORTER_OTLP_TRACES_HEADERS` if that variable
/// is set; else that of `OTEL_EXPORTER_OTLP_HEADERS`; else none.
pub open spec fn resolve_headers_spec(
    configured: Seq<Seq<char>>,
    env_traces_headers: Option<Seq<char>>,
    env_headers: Option<Seq<char>>,
) -> Seq<Seq<char>> {
    if configured.len() > 0 {
        configured
    } else {
        match env_traces_headers {
            Some(s) => comma_list_spec(s),
            None => match env_headers {
                Some(s) => comma_list_spec(s),
                None => Seq::empty(),
            },
        }
    }
}

/// Resolves the OTLP header strings (see `resolve_headers_spec`).
pub fn resolve_otlp_headers(
    configured: &Vec<String>,
    env_traces_headers: &Option<String>,
    env_headers: &Option<String>,
) -> (r: Vec<String>)
    ensures
        seqs_of(r@) == resolve_headers_spec(
            seqs_of(configured@),
            opt_seq(*env_traces_headers),
            opt_seq(*env_headers),
        ),
{
    if configured.len() > 0 {
        clone_strings(configured)
    } else if let Some(s) = env_traces_headers {
        split_comma_list(s.as_str())
    } else if let Some(s) = env_headers {
        split_comma_list(s.as_str())
    } else {
        let r: Vec<String> = Vec::new();
        assert(seqs_of(r@) =~= Seq::<Seq<char>>::empty());
        r
    }
}

} // verus!
