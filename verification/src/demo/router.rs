//! The small HTTP router of the demo Lambda functions: the events it reads, the
//! regular expression a route path becomes, the key a route is stored by, the
//! route table, and which route a request goes to with what parameters.
use vstd::prelude::*;
use vstd::string::*;
use crate::text::{str_eq, to_uppercase, uppercase_of};
use crate::json::{json_view, JsonValue, JsonView};
use crate::pairs::{
    distinct_keys, insert_entry, key_index, key_position, lemma_insert_positions, lemma_lookup_after_insert, pairs_view,
};

verus! {

/// An HTTP request event that a route can match: its path and its method.
pub trait LambdaHttpEvent {
    fn raw_path(&self) -> Option<String>;

    fn http_method(&self) -> String;
}

/// The method of routes that do not name one.
pub fn default_method() -> (m: String)
    ensures
        m@ == "GET"@,
{
    String::from_str("GET")
}

/// A character that has a meaning in a regular expression.
pub open spec fn regex_meta(c: char) -> bool {
    c == '\\' || c == '.' || c == '+' || c == '*' || c == '?' || c == '(' || c == ')' || c == '|'
        || c == '[' || c == ']' || c == '{' || c == '}' || c == '^' || c == '$' || c == '#' || c
        == '&' || c == '-' || c == '~'
}

/// Text with a `\` put before each meta character.
pub open spec fn regex_escaped(s: Seq<char>) -> Seq<char>
    decreases s.len(),
{
    if s.len() == 0 {
        Seq::empty()
    } else if regex_meta(s.last()) {
        regex_escaped(s.drop_last()) + seq!['\\', s.last()]
    } else {
        regex_escaped(s.drop_last()).push(s.last())
    }
}

/// `regex::escape`: each character of `\.+*?()|[]{}^$#&-~` is preceded by a
/// backslash, as the crate's `escape_into` and `is_meta_character` show.
#[verifier::external_body]
fn escape_regex(s: &str) -> (r: String)
    ensures
        r@ == regex_escaped(s@),
{
    regex::escape(s)
}

/// The pieces of `s` between `/` characters, in order (`str::split('/')`).
pub open spec fn split_slashes(s: Seq<char>) -> Seq<Seq<char>>
    decreases s.len(),
{
    if s.len() == 0 {
        seq![Seq::<char>::empty()]
    } else if s.last() == '/' {
        split_slashes(s.drop_last()).push(Seq::<char>::empty())
    } else {
        let parts = split_slashes(s.drop_last());
        parts.update(parts.len() - 1, parts.last().push(s.last()))
    }
}

/// A name with every trailing `+` removed.
pub open spec fn trim_plus(s: Seq<char>) -> Seq<char>
    decreases s.len(),
{
    if s.len() > 0 && s.last() == '+' {
        trim_plus(s.drop_last())
    } else {
        s
    }
}

/// The regular expression of one path segment: `{name}` captures one segment
/// (no `/`), `{name+}` captures the rest of the path, any other text matches
/// itself.
pub open spec fn segment_pattern(seg: Seq<char>) -> Seq<char> {
    if seg.len() > 0 && seg[0] == '{' && seg.last() == '}' {
        let name = trim_plus(seg.subrange(1, seg.len() - 1));
        if seg.len() >= 2 && seg[seg.len() - 2] == '+' {
            "(?P<"@ + name + ">.*)"@
        } else {
            "(?P<"@ + name + ">[^/]+)"@
        }
    } else {
        regex_escaped(seg)
    }
}

/// The segment patterns joined by `/`.
pub open spec fn join_segment_patterns(segs: Seq<Seq<char>>) -> Seq<char>
    decreases segs.len(),
{
    if segs.len() == 0 {
        Seq::empty()
    } else if segs.len() == 1 {
        segment_pattern(segs[0])
    } else {
        join_segment_patterns(segs.drop_last()) + "/"@ + segment_pattern(segs.last())
    }
}

/// The anchored regular expression of a route path.
pub open spec fn route_regex_spec(path: Seq<char>) -> Seq<char> {
    "^"@ + join_segment_patterns(split_slashes(path)) + "$"@
}

fn trimmed_plus_end(s: &str, from: usize, to: usize) -> (e: usize)
    requires
        from <= to <= s@.len(),
    ensures
        from <= e <= to,
        trim_plus(s@.subrange(from as int, to as int)) == s@.subrange(from as int, e as int),
{
    let mut e = to;
    while e > from && s.get_char(e - 1) == '+'
        invariant
            from <= e <= to <= s@.len(),
            trim_plus(s@.subrange(from as int, to as int)) == trim_plus(s@.subrange(from as int, e as int)),
        decreases e,
    {
        assert(s@.subrange(from as int, e as int).drop_last() =~= s@.subrange(from as int, e - 1));
        e = e - 1;
    }
    proof {
        let t = s@.subrange(from as int, e as int);
        if t.len() > 0 {
            assert(t.last() == s@[e - 1]);
        }
    }
    e
}

/// The pattern of the segment `s[from..to]`.
fn segment_regex(s: &str, from: usize, to: usize) -> (r: String)
    requires
        from <= to <= s@.len(),
    ensures
        r@ == segment_pattern(s@.subrange(from as int, to as int)),
{
    let ghost seg = s@.subrange(from as int, to as int);
    if to > from && s.get_char(from) == '{' && s.get_char(to - 1) == '}' {
        assert(seg[0] == s@[from as int] && seg.last() == s@[to - 1]);
        let inner_to = to - 1;
        let inner_from = from + 1;
        assert(seg.subrange(1, seg.len() - 1) =~= s@.subrange(inner_from as int, inner_to as int));
        let e = trimmed_plus_end(s, inner_from, inner_to);
        let name = s.substring_char(inner_from, e);
        let greedy = to - from >= 2 && s.get_char(to - 2) == '+';
        proof {
            if to - from >= 2 {
                assert(seg[seg.len() - 2] == s@[to - 2]);
            }
            reveal_strlit("(?P<");
            reveal_strlit(">.*)");
            reveal_strlit(">[^/]+)");
        }
        let mut out = String::from_str("(?P<");
        out.append(name);
        if greedy {
            out.append(">.*)");
        } else {
            out.append(">[^/]+)");
        }
        out
    } else {
        proof {
            if to > from {
                assert(seg[0] == s@[from as int] && seg.last() == s@[to - 1]);
            }
        }
        escape_regex(s.substring_char(from, to))
    }
}

/// The regular expression a route path is matched with (see
/// `route_regex_spec`).
pub fn route_regex(path: &str) -> (r: String)
    ensures
        r@ == route_regex_spec(path@),
{
    let n = path.unicode_len();
    let mut body = String::new();
    let mut seg: usize = 0;
    let mut i: usize = 0;
    let ghost mut done: Seq<Seq<char>> = Seq::empty();
    assert(path@.subrange(0, 0) =~= Seq::<char>::empty());
    assert(path@.subrange(0, 0).subrange(0, 0) =~= Seq::<char>::empty());
    while i < n
        invariant
            n == path@.len(),
            seg <= i <= n,
            split_slashes(path@.subrange(0, i as int)) == done.push(
                path@.subrange(seg as int, i as int),
            ),
            body@ == join_segment_patterns(done),
            (seg > 0) == (done.len() > 0),
        decreases n - i,
    {
        let c = path.get_char(i);
        let ghost pre = path@.subrange(0, i as int);
        let ghost next = path@.subrange(0, i + 1);
        assert(next.drop_last() =~= pre);
        assert(next.last() == c);
        if c == '/' {
            let p = segment_regex(path, seg, i);
            proof {
                let piece = path@.subrange(seg as int, i as int);
                let nd = done.push(piece);
                assert(nd.drop_last() =~= done);
                assert(nd.last() == piece);
                if done.len() == 0 {
                    assert(nd =~= seq![piece]);
                }
            }
            proof {
                reveal_strlit("/");
            }
            if seg > 0 {
                body.append("/");
            }
            body.append(p.as_str());
            proof {
                done = done.push(path@.subrange(seg as int, i as int));
            }
            seg = i + 1;
            assert(path@.subrange(seg as int, i + 1) =~= Seq::<char>::empty());
        } else {
            assert(path@.subrange(seg as int, i + 1) =~= path@.subrange(seg as int, i as int).push(c));
            let ghost parts = split_slashes(pre);
            assert(parts.update(parts.len() - 1, parts.last().push(c)) =~= done.push(
                path@.subrange(seg as int, i + 1),
            ));
        }
        i = i + 1;
    }
    let p = segment_regex(path, seg, n);
    proof {
        let piece = path@.subrange(seg as int, n as int);
        let nd = done.push(piece);
        assert(nd.drop_last() =~= done);
        assert(nd.last() == piece);
        assert(path@.subrange(0, n as int) =~= path@);
        if done.len() == 0 {
            assert(nd =~= seq![piece]);
        }
        reveal_strlit("/");
        reveal_strlit("^");
        reveal_strlit("$");
    }
    if seg > 0 {
        body.append("/");
    }
    body.append(p.as_str());
    let mut r = String::from_str("^");
    r.append(body.as_str());
    r.append("$");
    r
}

/// The key a route is stored by: the method upper-cased, a space, the path.
pub fn route_key(method: &str, path: &str) -> (r: String)
    ensures
        r@ == uppercase_of(method@) + " "@ + path@,
{
    let mut r = to_uppercase(method);
    r.append(" ");
    r.append(path);
    r
}

/// The path a request is routed by: its raw path, `/` when it has none.
pub fn request_path(raw_path: &Option<String>) -> (r: String)
    ensures
        r@ == match raw_path {
            Some(p) => p@,
            None => "/"@,
        },
{
    match raw_path {
        Some(p) => p.clone(),
        None => String::from_str("/"),
    }
}

// ----------------------------------------------------------------------------
// The route table
// ----------------------------------------------------------------------------

/// Whether `regex::Regex::new` accepts a pattern.
pub uninterp spec fn regex_valid(pattern: Seq<char>) -> bool;

/// `regex::Regex::new(pattern).is_ok()`, named by `regex_valid`.
#[verifier::external_body]
fn regex_compiles(pattern: &str) -> (b: bool)
    ensures
        b == regex_valid(pattern@),
{
    regex::Regex::new(pattern).is_ok()
}

/// For each group of the regex, in group order, its name (`None` for unnamed
/// groups, such as the whole match) and the text it matched in the first match
/// in `text` (`None` when it took no part); `Some(None)` when nothing matches;
/// `None` when the pattern is not a valid regex.
pub uninterp spec fn regex_groups(pattern: Seq<char>, text: Seq<char>) -> Option<
    Option<Seq<(Option<Seq<char>>, Option<Seq<char>>)>>,
>;

/// The view of a list of groups.
pub open spec fn group_views(v: Seq<(Option<String>, Option<String>)>) -> Seq<
    (Option<Seq<char>>, Option<Seq<char>>),
> {
    v.map_values(
        |g: (Option<String>, Option<String>)| (crate::text::opt_seq(g.0), crate::text::opt_seq(g.1)),
    )
}

/// `Regex::new`, then `Regex::captures` on `text`, pairing `capture_names`
/// with the captured texts group by group; named by `regex_groups`. The outer
/// `None` comes exactly when `Regex::new` refuses the pattern.
#[verifier::external_body]
fn regex_captures(pattern: &str, text: &str) -> (r: Option<Option<Vec<(Option<String>, Option<String>)>>>)
    ensures
        r is None <==> !regex_valid(pattern@),
        match r {
            None => regex_groups(pattern@, text@) is None,
            Some(None) => regex_groups(pattern@, text@) == Some(
                None::<Seq<(Option<Seq<char>>, Option<Seq<char>>)>>,
            ),
            Some(Some(g)) => regex_groups(pattern@, text@) == Some(Some(group_views(g@))),
        },
{
    let re = match regex::Regex::new(pattern) {
        Ok(re) => re,
        Err(_) => return None,
    };
    Some(re.captures(text).map(|c| re.capture_names().zip(c.iter()).map(|(n, m)| (n.map(String::from), m.map(|m| m.as_str().to_string()))).collect()))
}

/// The named groups that matched, with their text, in group order.
pub open spec fn named_params(groups: Seq<(Option<Seq<char>>, Option<Seq<char>>)>) -> Seq<
    (Seq<char>, Seq<char>),
>
    decreases groups.len(),
{
    if groups.len() == 0 {
        Seq::empty()
    } else {
        let rest = named_params(groups.drop_last());
        match groups.last() {
            (Some(n), Some(t)) => rest.push((n, t)),
            _ => rest,
        }
    }
}

/// The routes of a router, by key (`METHOD path`): each key once, with the
/// route's regular expression, its upper-cased method and its handler, in the
/// order the keys were first registered.
pub struct Router<H> {
    routes: Vec<(String, String)>,
    methods: Vec<String>,
    handlers: Vec<H>,
}

impl<H> Router<H> {
    /// The `(key, regex)` of each route.
    pub closed spec fn routes(&self) -> Seq<(Seq<char>, Seq<char>)> {
        pairs_view(self.routes@)
    }

    /// The upper-cased method of each route.
    pub closed spec fn methods(&self) -> Seq<Seq<char>> {
        method_views(self.methods@)
    }

    /// The handler of each route.
    pub closed spec fn handlers(&self) -> Seq<H> {
        self.handlers@
    }

    #[verifier::type_invariant]
    spec fn well_formed(&self) -> bool {
        &&& self.routes@.len() == self.handlers@.len()
        &&& self.routes@.len() == self.methods@.len()
        &&& distinct_keys(pairs_view(self.routes@))
    }

    /// A router without routes.
    pub fn new() -> (r: Self)
        ensures
            r.routes() == Seq::<(Seq<char>, Seq<char>)>::empty(),
            r.methods() == Seq::<Seq<char>>::empty(),
            r.handlers() == Seq::<H>::empty(),
    {
        let r = Router { routes: Vec::new(), methods: Vec::new(), handlers: Vec::new() };
        assert(pairs_view(r.routes@) =~= Seq::<(Seq<char>, Seq<char>)>::empty());
        assert(method_views(r.methods@) =~= Seq::<Seq<char>>::empty());
        r
    }

    /// The number of routes.
    pub fn len(&self) -> (n: usize)
        ensures
            n == self.routes().len(),
            n == self.methods().len(),
            n == self.handlers().len(),
    {
        proof {
            use_type_invariant(self);
        }
        self.routes.len()
    }

    /// The handler of route `i`.
    pub fn handler(&self, i: usize) -> (h: &H)
        requires
            i < self.handlers().len(),
        ensures
            *h == self.handlers()[i as int],
    {
        &self.handlers[i]
    }

    /// Registers a route: its key is the method upper-cased and the path, its
    /// regex that of `route_regex`, its method the method upper-cased. A key
    /// already present gets the new regex and handler in place; a new key is
    /// appended. The regex must be one
    /// `regex` accepts: registering a route whose regex it refuses is a
    /// programming error (see `try_register_route`).
    pub fn register_route(&mut self, method: &str, path: &str, handler: H)
        requires
            regex_valid(route_regex_spec(path@)),
        ensures
            (final(self).routes(), final(self).methods(), final(self).handlers()) == registered_table(
                old(self).routes(),
                old(self).methods(),
                old(self).handlers(),
                uppercase_of(method@) + " "@ + path@,
                uppercase_of(method@),
                route_regex_spec(path@),
                handler,
            ),
    {
        proof {
            use_type_invariant(&*self);
        }
        let pattern = route_regex(path);
        let key = route_key(method, path);
        let upper = to_uppercase(method);
        let ghost kv = key@;
        let ghost pv = pattern@;
        let ghost mv = upper@;
        let ghost before = pairs_view(self.routes@);
        let ghost before_methods = method_views(self.methods@);
        proof {
            lemma_lookup_after_insert(before, kv, pv);
        }
        let mut current = Router { routes: Vec::new(), methods: Vec::new(), handlers: Vec::new() };
        assert(pairs_view(current.routes@) =~= Seq::<(Seq<char>, Seq<char>)>::empty());
        std::mem::swap(&mut current, self);
        let Router { mut routes, mut methods, mut handlers } = current;
        match key_position(&routes, key.as_str()) {
            Some(i) => {
                routes.set(i, (key, pattern));
                methods.set(i, upper);
                handlers.set(i, handler);
                assert(pairs_view(routes@) =~= before.update(i as int, (kv, pv)));
                assert(method_views(methods@) =~= before_methods.update(i as int, mv));
            },
            None => {
                routes.push((key, pattern));
                methods.push(upper);
                handlers.push(handler);
                assert(pairs_view(routes@) =~= before.push((kv, pv)));
                assert(method_views(methods@) =~= before_methods.push(mv));
            },
        }
        *self = Router { routes, methods, handlers };
    }

    /// Registers a route (see `register_route`) when `regex` accepts its
    /// regex; returns whether it did. The router is unchanged otherwise.
    pub fn try_register_route(&mut self, method: &str, path: &str, handler: H) -> (ok: bool)
        ensures
            ok == regex_valid(route_regex_spec(path@)),
            ok ==> (final(self).routes(), final(self).methods(), final(self).handlers()) == registered_table(
                old(self).routes(),
                old(self).methods(),
                old(self).handlers(),
                uppercase_of(method@) + " "@ + path@,
                uppercase_of(method@),
                route_regex_spec(path@),
                handler,
            ),
            !ok ==> final(self).routes() == old(self).routes() && final(self).methods() == old(
                self,
            ).methods() && final(self).handlers() == old(self).handlers(),
    {
        let pattern = route_regex(path);
        if regex_compiles(pattern.as_str()) {
            self.register_route(method, path, handler);
            true
        } else {
            false
        }
    }

    /// Routes a request: the path is the raw path (`/` without one), the method
    /// is upper-cased; the route is the first, in table order, whose method is
    /// the request's and whose regex matches the path, and its parameters are
    /// the named groups that matched.
    pub fn handle_request(&self, raw_path: &Option<String>, http_method: &str) -> (d: Dispatch)
        ensures
            match d {
                Dispatch::Route { index, context } => {
                    &&& first_route(
                        self.routes(),
                        self.methods(),
                        request_path_spec(*raw_path),
                        uppercase_of(http_method@),
                        0,
                    ) == Some((index as int, pairs_view(context.params@)))
                    &&& index < self.routes().len()
                    &&& self.methods()[index as int] == uppercase_of(http_method@)
                    &&& context.path@ == request_path_spec(*raw_path)
                    &&& context.method@ == uppercase_of(http_method@)
                },
                Dispatch::NotFound => first_route(
                    self.routes(),
                    self.methods(),
                    request_path_spec(*raw_path),
                    uppercase_of(http_method@),
                    0,
                ) is None,
            },
    {
        proof {
            use_type_invariant(self);
        }
        let path = request_path(raw_path);
        let method = to_uppercase(http_method);
        let mut i: usize = 0;
        while i < self.routes.len()
            invariant
                i <= self.routes@.len(),
                self.routes@.len() == self.methods@.len(),
                path@ == request_path_spec(*raw_path),
                method@ == uppercase_of(http_method@),
                first_route(self.routes(), self.methods(), path@, method@, 0) == first_route(
                    self.routes(),
                    self.methods(),
                    path@,
                    method@,
                    i as int,
                ),
            decreases self.routes@.len() - i,
        {
            assert(self.routes()[i as int].1 == self.routes@[i as int].1@);
            assert(self.methods()[i as int] == self.methods@[i as int]@);
            if str_eq(self.methods[i].as_str(), method.as_str()) {
                match regex_captures(self.routes[i].1.as_str(), path.as_str()) {
                    Some(Some(groups)) => {
                        let params = matched_params(&groups);
                        assert(first_route(self.routes(), self.methods(), path@, method@, i as int) == Some(
                            (i as int, named_params(group_views(groups@))),
                        ));
                        let context = RouteContext { path, method, params };
                        return Dispatch::Route { index: i, context };
                    },
                    _ => {},
                }
            }
            i = i + 1;
        }
        Dispatch::NotFound
    }
}

/// The path a request is routed by.
pub open spec fn request_path_spec(raw_path: Option<String>) -> Seq<char> {
    match raw_path {
        Some(p) => p@,
        None => "/"@,
    }
}

/// The views of the methods of a route table.
pub open spec fn method_views(v: Seq<String>) -> Seq<Seq<char>> {
    v.map_values(|m: String| m@)
}

/// The first route from position `i` on whose method is `method` and whose
/// regex matches `path`, with the parameters it captured.
pub open spec fn first_route(
    routes: Seq<(Seq<char>, Seq<char>)>,
    methods: Seq<Seq<char>>,
    path: Seq<char>,
    method: Seq<char>,
    i: int,
) -> Option<(int, Seq<(Seq<char>, Seq<char>)>)>
    decreases routes.len() - i,
{
    if i < 0 || i >= routes.len() {
        None
    } else if methods[i] == method {
        match regex_groups(routes[i].1, path) {
            Some(Some(g)) => Some((i, named_params(g))),
            _ => first_route(routes, methods, path, method, i + 1),
        }
    } else {
        first_route(routes, methods, path, method, i + 1)
    }
}

/// The named groups that matched (see `named_params`).
fn matched_params(groups: &Vec<(Option<String>, Option<String>)>) -> (r: Vec<(String, String)>)
    ensures
        pairs_view(r@) == named_params(group_views(groups@)),
{
    let mut out: Vec<(String, String)> = Vec::new();
    let mut i: usize = 0;
    while i < groups.len()
        invariant
            i <= groups@.len(),
            pairs_view(out@) == named_params(group_views(groups@.take(i as int))),
        decreases groups@.len() - i,
    {
        let ghost before = out@;
        assert(group_views(groups@.take(i + 1)).drop_last() =~= group_views(groups@.take(i as int)));
        match (&groups[i].0, &groups[i].1) {
            (Some(n), Some(t)) => {
                out.push((n.clone(), t.clone()));
                assert(pairs_view(out@) =~= pairs_view(before).push((n@, t@)));
            },
            _ => {},
        }
        i = i + 1;
    }
    assert(groups@.take(groups@.len() as int) =~= groups@);
    out
}

/// The plain parts of the context a handler runs with: the request's path,
/// its upper-cased method and the route's parameters.
pub struct RouteContext {
    pub path: String,
    pub method: String,
    pub params: Vec<(String, String)>,
}

/// Where a request goes.
pub enum Dispatch {
    /// To the handler of route `index`, with this context.
    Route { index: usize, context: RouteContext },
    /// Nowhere: the answer is `not_found_response`.
    NotFound,
}

/// The answer to a request no route matches.
pub open spec fn not_found_view() -> JsonView {
    JsonView::Object(
        seq![
            ("body"@, JsonView::Str("Not Found"@)),
            ("headers"@, JsonView::Object(seq![("Content-Type"@, JsonView::Str("text/plain"@))])),
            ("statusCode"@, JsonView::PosInt(404)),
        ],
    )
}

/// The 404 answer (keys in the order `serde_json`'s map keeps them).
pub fn not_found_response() -> (r: JsonValue)
    ensures
        json_view(r) == not_found_view(),
{
    let mut headers: Vec<(String, JsonValue)> = Vec::new();
    headers.push((String::from_str("Content-Type"), JsonValue::Str(String::from_str("text/plain"))));
    let ghost hv = headers@;
    let headers = JsonValue::Object(headers);
    proof {
        crate::json::lemma_entry_views(hv, 1);
        assert(crate::json::entry_views(hv, 1) =~= seq![("Content-Type"@, JsonView::Str("text/plain"@))]);
    }
    let mut top: Vec<(String, JsonValue)> = Vec::new();
    top.push((String::from_str("body"), JsonValue::Str(String::from_str("Not Found"))));
    top.push((String::from_str("headers"), headers));
    top.push((String::from_str("statusCode"), JsonValue::PosInt(404)));
    let ghost tv = top@;
    proof {
        crate::json::lemma_entry_views(tv, 3);
        assert(crate::json::entry_views(tv, 3) =~= match not_found_view() {
            JsonView::Object(x) => x,
            _ => Seq::empty(),
        });
    }
    JsonValue::Object(top)
}

/// Routes gathered before a router is built, in the order they were added.
pub struct RouterBuilder<H> {
    pub routes: Vec<(String, String, H)>,
}

/// The router that registering these `(method, path, handler)` routes in order
/// makes, from the given one.
pub open spec fn registered<H>(
    routes: Seq<(Seq<char>, Seq<char>)>,
    methods: Seq<Seq<char>>,
    handlers: Seq<H>,
    added: Seq<(String, String, H)>,
) -> (Seq<(Seq<char>, Seq<char>)>, Seq<Seq<char>>, Seq<H>)
    decreases added.len(),
{
    if added.len() == 0 {
        (routes, methods, handlers)
    } else {
        let (r, m, h) = registered(routes, methods, handlers, added.drop_last());
        let x = added.last();
        registered_table(
            r,
            m,
            h,
            uppercase_of(x.0@) + " "@ + x.1@,
            uppercase_of(x.0@),
            route_regex_spec(x.1@),
            x.2,
        )
    }
}

impl<H> RouterBuilder<H> {
    /// A builder without routes.
    pub fn new() -> (b: Self)
        ensures
            b.routes@.len() == 0,
    {
        RouterBuilder { routes: Vec::new() }
    }

    /// Adds a route.
    pub fn route(self, method: &str, path: &str, handler: H) -> (b: Self)
        ensures
            b.routes@.len() == self.routes@.len() + 1,
            forall|i: int| 0 <= i < self.routes@.len() ==> b.routes@[i] == self.routes@[i],
            b.routes@.last().0@ == method@,
            b.routes@.last().1@ == path@,
            b.routes@.last().2 == handler,
    {
        let mut routes = self.routes;
        routes.push((String::from_str(method), String::from_str(path), handler));
        RouterBuilder { routes }
    }

    /// Registers the routes in order into a new router (see `registered`);
    /// every route's regex must be one `regex` accepts.
    pub fn build(self) -> (r: Router<H>)
        requires
            forall|i: int| 0 <= i < self.routes@.len() ==> regex_valid(route_regex_spec(#[trigger] self.routes@[i].1@)),
        ensures
            (r.routes(), r.methods(), r.handlers()) == registered(
                Seq::empty(),
                Seq::empty(),
                Seq::empty(),
                self.routes@,
            ),
    {
        let ghost all = self.routes@;
        let mut router = Router::new();
        let mut rest = self.routes;
        let mut taken: Vec<(String, String, H)> = Vec::new();
        let ghost n = all.len();
        while rest.len() > 0
            invariant
                rest@ == all.subrange(n - rest@.len(), n as int),
                rest@.len() <= n,
                n == all.len(),
                forall|i: int| 0 <= i < all.len() ==> regex_valid(route_regex_spec(#[trigger] all[i].1@)),
                (router.routes(), router.methods(), router.handlers()) == registered(
                    Seq::empty(),
                    Seq::empty(),
                    Seq::empty(),
                    all.subrange(0, n - rest@.len()),
                ),
            decreases rest@.len(),
        {
            let ghost k = n - rest@.len();
            let ghost old_rest = rest@;
            let (method, path, handler) = rest.remove(0);
            assert(rest@ =~= all.subrange(n - rest@.len(), n as int));
            assert(all[k] == old_rest[0]);
            router.register_route(method.as_str(), path.as_str(), handler);
            assert(all.subrange(0, k + 1).drop_last() =~= all.subrange(0, k));
        }
        assert(all.subrange(0, n as int) =~= all);
        router
    }

    /// Builds the router (see `build`) when `regex` accepts the regex of every
    /// route; `None` otherwise.
    pub fn try_build(self) -> (r: Option<Router<H>>)
        ensures
            r is Some <==> forall|i: int|
                0 <= i < self.routes@.len() ==> regex_valid(route_regex_spec(#[trigger] self.routes@[i].1@)),
            r matches Some(router) ==> (router.routes(), router.methods(), router.handlers()) == registered(
                Seq::empty(),
                Seq::empty(),
                Seq::empty(),
                self.routes@,
            ),
    {
        let mut i: usize = 0;
        while i < self.routes.len()
            invariant
                i <= self.routes@.len(),
                forall|j: int| 0 <= j < i ==> regex_valid(route_regex_spec(#[trigger] self.routes@[j].1@)),
            decreases self.routes@.len() - i,
        {
            let pattern = route_regex(self.routes[i].1.as_str());
            if !regex_compiles(pattern.as_str()) {
                return None;
            }
            i = i + 1;
        }
        Some(self.build())
    }
}

/// The route table after registering `handler` for `key` with `method` and
/// `pattern` (as `Router::register_route` states it).
pub open spec fn registered_table<H>(
    routes: Seq<(Seq<char>, Seq<char>)>,
    methods: Seq<Seq<char>>,
    handlers: Seq<H>,
    key: Seq<char>,
    method: Seq<char>,
    pattern: Seq<char>,
    handler: H,
) -> (Seq<(Seq<char>, Seq<char>)>, Seq<Seq<char>>, Seq<H>) {
    (
        insert_entry(routes, key, pattern),
        match key_index(routes, key) {
            Some(i) => methods.update(i, method),
            None => methods.push(method),
        },
        match key_index(routes, key) {
            Some(i) => handlers.update(i, handler),
            None => handlers.push(handler),
        },
    )
}

/// Registering a route makes its key designate the new regex, method and
/// handler, and leaves every other key designating the regex, method and
/// handler it did, at the same place in the table.
pub proof fn lemma_register_then_find<H>(
    routes: Seq<(Seq<char>, Seq<char>)>,
    methods: Seq<Seq<char>>,
    handlers: Seq<H>,
    key: Seq<char>,
    method: Seq<char>,
    pattern: Seq<char>,
    handler: H,
)
    requires
        routes.len() == handlers.len(),
        routes.len() == methods.len(),
    ensures
        ({
            let (r, m, h) = registered_table(routes, methods, handlers, key, method, pattern, handler);
            &&& r.len() == h.len()
            &&& r.len() == m.len()
            &&& key_index(r, key) matches Some(i) && r[i] == (key, pattern) && m[i] == method && h[i]
                == handler
            &&& forall|k: Seq<char>|
                k != key ==> #[trigger] key_index(r, k) == key_index(routes, k) && (key_index(routes, k) matches Some(
                    j,
                ) ==> r[j] == routes[j] && m[j] == methods[j] && h[j] == handlers[j])
        }),
{
    lemma_insert_positions(routes, key, pattern);
    lemma_key_lands(routes, key);
    let (r, m, h) = registered_table(routes, methods, handlers, key, method, pattern, handler);
    match key_index(routes, key) {
        Some(i) => {
            assert(r == routes.update(i, (key, pattern)));
            assert(h == handlers.update(i, handler));
            assert(key_index(r, key) == Some(i));
        },
        None => {
            assert(r == routes.push((key, pattern)));
            assert(h == handlers.push(handler));
            assert(key_index(r, key) == Some(routes.len() as int));
        },
    }
    assert forall|k: Seq<char>| k != key implies #[trigger] key_index(r, k) == key_index(routes, k) && (key_index(
        routes,
        k,
    ) matches Some(j) ==> r[j] == routes[j] && m[j] == methods[j] && h[j] == handlers[j]) by {
        lemma_key_lands(routes, k);
    }
}

proof fn lemma_key_lands(m: Seq<(Seq<char>, Seq<char>)>, k: Seq<char>)
    ensures
        key_index(m, k) matches Some(i) ==> 0 <= i < m.len() && m[i].0 == k,
    decreases m.len(),
{
    if m.len() > 0 && m.last().0 != k {
        lemma_key_lands(m.drop_last(), k);
    }
}

} // verus!
