//! Finding the CloudWatch log groups to follow: log groups named by a
//! CloudFormation stack's resources, their Lambda@Edge variants, the checks on
//! what was found, the ARNs built from the names, and the start times of the
//! polling mode.
use vstd::prelude::*;
use vstd::string::*;
use crate::text::str_eq;

verus! {

pub open spec fn lambda_prefix() -> Seq<char> {
    "/aws/lambda/"@
}

/// The log group of a stack resource: a log group resource is its own log
/// group; a Lambda function logs to `/aws/lambda/<function>`; other resources,
/// and resources without a physical id, have none.
pub open spec fn stack_log_group_spec(resource_type: Option<Seq<char>>, physical_id: Option<Seq<char>>) -> Option<
    Seq<char>,
> {
    match physical_id {
        None => None,
        Some(id) => if resource_type == Some("AWS::Logs::LogGroup"@) {
            Some(id)
        } else if resource_type == Some("AWS::Lambda::Function"@) {
            Some(lambda_prefix() + id)
        } else {
            None
        },
    }
}

pub fn stack_resource_log_group(resource_type: &Option<String>, physical_id: &Option<String>) -> (r:
    Option<String>)
    ensures
        match r {
            Some(s) => stack_log_group_spec(
                crate::text::opt_seq(*resource_type),
                crate::text::opt_seq(*physical_id),
            ) == Some(s@),
            None => stack_log_group_spec(
                crate::text::opt_seq(*resource_type),
                crate::text::opt_seq(*physical_id),
            ) is None,
        },
{
    let id = match physical_id {
        Some(id) => id,
        None => {
            return None;
        },
    };
    let t = match resource_type {
        Some(t) => t,
        None => {
            return None;
        },
    };
    if str_eq(t.as_str(), "AWS::Logs::LogGroup") {
        Some(id.clone())
    } else if str_eq(t.as_str(), "AWS::Lambda::Function") {
        let mut name = String::from_str("/aws/lambda/");
        name.append(id.as_str());
        proof {
            reveal_strlit("/aws/lambda/");
        }
        Some(name)
    } else {
        None
    }
}

/// The log groups of a stack's resources, in resource order.
pub open spec fn stack_log_groups_spec(resources: Seq<(Option<Seq<char>>, Option<Seq<char>>)>) -> Seq<
    Seq<char>,
>
    decreases resources.len(),
{
    if resources.len() == 0 {
        Seq::empty()
    } else {
        let rest = stack_log_groups_spec(resources.drop_last());
        match stack_log_group_spec(resources.last().0, resources.last().1) {
            Some(g) => rest.push(g),
            None => rest,
        }
    }
}

pub open spec fn resource_views(v: Seq<(Option<String>, Option<String>)>) -> Seq<
    (Option<Seq<char>>, Option<Seq<char>>),
> {
    v.map_values(
        |r: (Option<String>, Option<String>)| (crate::text::opt_seq(r.0), crate::text::opt_seq(r.1)),
    )
}

/// Collects the log groups of `(resource type, physical id)` pairs of stack
/// resources (see `stack_log_group_spec`).
pub fn log_groups_from_stack_resources(resources: &Vec<(Option<String>, Option<String>)>) -> (r: Vec<
    String,
>)
    ensures
        crate::text::seqs_of(r@) == stack_log_groups_spec(resource_views(resources@)),
{
    let ghost rv = resource_views(resources@);
    let mut out: Vec<String> = Vec::new();
    let mut i: usize = 0;
    assert(rv.take(0) =~= Seq::<(Option<Seq<char>>, Option<Seq<char>>)>::empty());
    assert(crate::text::seqs_of(out@) =~= Seq::<Seq<char>>::empty());
    while i < resources.len()
        invariant
            rv == resource_views(resources@),
            i <= resources@.len(),
            crate::text::seqs_of(out@) == stack_log_groups_spec(rv.take(i as int)),
        decreases resources@.len() - i,
    {
        assert(rv.take(i + 1).drop_last() =~= rv.take(i as int));
        let found = stack_resource_log_group(&resources[i].0, &resources[i].1);
        if let Some(g) = found {
            out.push(g);
        }
        assert(crate::text::seqs_of(out@) =~= stack_log_groups_spec(rv.take(i + 1)));
        i = i + 1;
    }
    assert(rv.take(i as int) =~= rv);
    out
}

/// The Lambda@Edge variant of a Lambda log group name: the function's log
/// group in a region is `/aws/lambda/<region>.<function>`. Other names have
/// none.
pub open spec fn edge_variant_spec(name: Seq<char>, region: Seq<char>) -> Option<Seq<char>> {
    if lambda_prefix().is_prefix_of(name) {
        Some(lambda_prefix() + region + "."@ + name.subrange(lambda_prefix().len() as int, name.len() as int))
    } else {
        None
    }
}

fn starts_with_lambda_prefix(name: &str) -> (b: bool)
    ensures
        b == lambda_prefix().is_prefix_of(name@),
{
    let prefix = "/aws/lambda/";
    proof {
        reveal_strlit("/aws/lambda/");
    }
    let n = name.unicode_len();
    let p = prefix.unicode_len();
    if n < p {
        return false;
    }
    let head = name.substring_char(0, p);
    let b = str_eq(head, prefix);
    assert(b == (name@.subrange(0, p as int) == prefix@));
    proof {
        if b {
            assert forall|i: int| 0 <= i < prefix@.len() implies prefix@[i] == name@[i] by {
                assert(name@.subrange(0, p as int)[i] == name@[i]);
            }
        } else {
            if lambda_prefix().is_prefix_of(name@) {
                assert(name@.subrange(0, p as int) =~= prefix@);
            }
        }
    }
    b
}

pub fn lambda_edge_variant(name: &str, region: &str) -> (r: Option<String>)
    ensures
        match r {
            Some(s) => edge_variant_spec(name@, region@) == Some(s@),
            None => edge_variant_spec(name@, region@) is None,
        },
{
    if starts_with_lambda_prefix(name) {
        proof {
            reveal_strlit("/aws/lambda/");
            reveal_strlit(".");
        }
        let mut v = String::from_str("/aws/lambda/");
        v.append(region);
        v.append(".");
        v.append(name.substring_char(12, name.unicode_len()));
        Some(v)
    } else {
        None
    }
}

/// The names to look up for a log group, in order: for a Lambda log group its
/// Lambda@Edge variant first, then the name itself.
pub open spec fn validation_candidates_spec(name: Seq<char>, region: Seq<char>) -> Seq<Seq<char>> {
    match edge_variant_spec(name, region) {
        Some(edge) => seq![edge, name],
        None => seq![name],
    }
}

pub fn validation_candidates(name: &str, region: &str) -> (r: Vec<String>)
    ensures
        crate::text::seqs_of(r@) == validation_candidates_spec(name@, region@),
{
    let mut out: Vec<String> = Vec::new();
    if let Some(edge) = lambda_edge_variant(name, region) {
        out.push(edge);
    }
    out.push(String::from_str(name));
    assert(crate::text::seqs_of(out@) =~= validation_candidates_spec(name@, region@));
    out
}

/// What a lookup of one exact log group name answered.
#[derive(Clone, Copy, Debug, PartialEq, Eq, Structural)]
pub enum Lookup {
    Found,
    Missing,
    Failed,
}

/// The outcome of looking up the candidates of one name in order: the first
/// candidate found is the validated name; a failed lookup before that is an
/// error (with the candidate's position); all missing means the name is
/// skipped.
pub open spec fn validation_outcome(lookups: Seq<Lookup>) -> Result<Option<int>, int>
    decreases lookups.len(),
{
    if lookups.len() == 0 {
        Ok(None)
    } else if lookups[0] == Lookup::Found {
        Ok(Some(0))
    } else if lookups[0] == Lookup::Failed {
        Err(0)
    } else {
        match validation_outcome(lookups.drop_first()) {
            Ok(None) => Ok(None),
            Ok(Some(i)) => Ok(Some(i + 1)),
            Err(i) => Err(i + 1),
        }
    }
}

/// Decides a name's validation from the answers to its candidate lookups,
/// made in order and stopped at the first that is not `Missing` (see
/// `validation_outcome`); returns the position of the deciding candidate.
pub fn decide_validation(lookups: &Vec<Lookup>) -> (r: Result<Option<usize>, usize>)
    ensures
        match r {
            Ok(None) => validation_outcome(lookups@) == Ok::<Option<int>, int>(None),
            Ok(Some(i)) => validation_outcome(lookups@) == Ok::<Option<int>, int>(Some(i as int)),
            Err(i) => validation_outcome(lookups@) == Err::<Option<int>, int>(i as int),
        },
{
    let mut i: usize = 0;
    while i < lookups.len()
        invariant
            i <= lookups@.len(),
            forall|k: int| 0 <= k < i ==> lookups@[k] == Lookup::Missing,
        decreases lookups@.len() - i,
    {
        if lookups[i] == Lookup::Found {
            proof {
                lemma_outcome_after_missing(lookups@, i as int);
            }
            return Ok(Some(i));
        }
        if lookups[i] == Lookup::Failed {
            proof {
                lemma_outcome_after_missing(lookups@, i as int);
            }
            return Err(i);
        }
        i = i + 1;
    }
    proof {
        lemma_outcome_after_missing(lookups@, i as int);
    }
    Ok(None)
}

proof fn lemma_outcome_after_missing(s: Seq<Lookup>, i: int)
    requires
        0 <= i <= s.len(),
        forall|k: int| 0 <= k < i ==> s[k] == Lookup::Missing,
    ensures
        i == s.len() ==> validation_outcome(s) == Ok::<Option<int>, int>(None),
        i < s.len() && s[i] == Lookup::Found ==> validation_outcome(s) == Ok::<Option<int>, int>(
            Some(i),
        ),
        i < s.len() && s[i] == Lookup::Failed ==> validation_outcome(s) == Err::<Option<int>, int>(
            i,
        ),
    decreases i,
{
    if i > 0 {
        let t = s.drop_first();
        assert forall|k: int| 0 <= k < i - 1 implies t[k] == Lookup::Missing by {
            assert(t[k] == s[k + 1]);
        }
        lemma_outcome_after_missing(t, i - 1);
        if i < s.len() {
            assert(t[i - 1] == s[i]);
        }
    }
}

/// The validated names, in order, unless a validation failed: then the first
/// failure, in order, is the error.
pub open spec fn collect_validations_spec(results: Seq<Result<Option<Seq<char>>, Seq<char>>>) -> Result<
    Seq<Seq<char>>,
    Seq<char>,
>
    decreases results.len(),
{
    if results.len() == 0 {
        Ok(Seq::empty())
    } else {
        match results[0] {
            Err(e) => match collect_validations_spec(results.drop_first()) {
                _ => Err(e),
            },
            Ok(x) => match collect_validations_spec(results.drop_first()) {
                Err(e) => Err(e),
                Ok(rest) => match x {
                    Some(n) => Ok(seq![n] + rest),
                    None => Ok(rest),
                },
            },
        }
    }
}

pub open spec fn validation_result_views(v: Seq<Result<Option<String>, String>>) -> Seq<
    Result<Option<Seq<char>>, Seq<char>>,
> {
    v.map_values(
        |r: Result<Option<String>, String>|
            match r {
                Ok(o) => Ok(crate::text::opt_seq(o)),
                Err(e) => Err(e@),
            },
    )
}

/// Gathers the answers of all validations (see `collect_validations_spec`).
pub fn collect_validations(results: Vec<Result<Option<String>, String>>) -> (r: Result<
    Vec<String>,
    String,
>)
    ensures
        match r {
            Ok(v) => collect_validations_spec(validation_result_views(results@)) == Ok::<
                Seq<Seq<char>>,
                Seq<char>,
            >(crate::text::seqs_of(v@)),
            Err(e) => collect_validations_spec(validation_result_views(results@)) == Err::<
                Seq<Seq<char>>,
                Seq<char>,
            >(e@),
        },
{
    let ghost rv = validation_result_views(results@);
    let mut names: Vec<String> = Vec::new();
    let mut rest = results;
    let ghost n = rv.len();
    assert(validation_result_views(rest@) =~= rv.subrange(0, n as int));
    assert(crate::text::seqs_of(names@) =~= Seq::<Seq<char>>::empty());
    while rest.len() > 0
        invariant
            rv == validation_result_views(results@),
            n == rv.len(),
            rest@.len() <= n,
            validation_result_views(rest@) == rv.subrange(n - rest@.len(), n as int),
            forall|k: int| 0 <= k < n - rest@.len() ==> rv[k] is Ok,
            collect_validations_spec(rv) == match collect_validations_spec(
                rv.subrange(n - rest@.len(), n as int),
            ) {
                Ok(tail) => Ok(crate::text::seqs_of(names@) + tail),
                Err(e) => Err(e),
            },
        decreases rest@.len(),
    {
        let ghost k = n - rest@.len();
        let ghost old_rest = rest@;
        assert(validation_result_views(old_rest)[0] == rv[k]);
        let item = rest.remove(0);
        assert(validation_result_views(rest@) =~= validation_result_views(old_rest).subrange(
            1,
            old_rest.len() as int,
        ));
        assert(validation_result_views(rest@) =~= rv.subrange(k + 1, n as int));
        assert(rv.subrange(k, n as int)[0] == rv[k]);
        assert(rv.subrange(k, n as int).drop_first() =~= rv.subrange(k + 1, n as int));
        match item {
            Err(e) => {
                assert(rv[k] == Err::<Option<Seq<char>>, Seq<char>>(e@));
                assert(collect_validations_spec(rv.subrange(k, n as int)) == Err::<
                    Seq<Seq<char>>,
                    Seq<char>,
                >(e@));
                return Err(e);
            },
            Ok(None) => {},
            Ok(Some(name)) => {
                let ghost before = crate::text::seqs_of(names@);
                names.push(name);
                proof {
                    assert(crate::text::seqs_of(names@) =~= before.push(rv[k]->Ok_0->Some_0));
                    match collect_validations_spec(rv.subrange(k + 1, n as int)) {
                        Ok(tail) => {
                            assert(before + (seq![rv[k]->Ok_0->Some_0] + tail) =~= before.push(
                                rv[k]->Ok_0->Some_0,
                            ) + tail);
                        },
                        Err(e) => {},
                    }
                }
            },
        }
    }
    assert(rv.subrange(n as int, n as int) =~= Seq::<Result<Option<Seq<char>>, Seq<char>>>::empty());
    assert(crate::text::seqs_of(names@) + Seq::<Seq<char>>::empty() =~= crate::text::seqs_of(names@));
    Ok(names)
}

/// Whether `s` has no repeated element.
pub open spec fn no_repeats(s: Seq<Seq<char>>) -> bool {
    forall|a: int, b: int| 0 <= a < b < s.len() ==> #[trigger] s[a] != #[trigger] s[b]
}

/// Joins lists of log group names into one without repeats; each name keeps
/// the place of its first occurrence.
pub fn merge_unique(lists: &Vec<Vec<String>>) -> (r: Vec<String>)
    ensures
        no_repeats(crate::text::seqs_of(r@)),
        forall|x: Seq<char>|
            crate::text::seqs_of(r@).contains(x) <==> exists|i: int|
                0 <= i < lists@.len() && #[trigger] crate::text::seqs_of(lists@[i]@).contains(x),
{
    let mut out: Vec<String> = Vec::new();
    let mut i: usize = 0;
    while i < lists.len()
        invariant
            i <= lists@.len(),
            no_repeats(crate::text::seqs_of(out@)),
            forall|x: Seq<char>|
                crate::text::seqs_of(out@).contains(x) <==> exists|k: int|
                    0 <= k < i && #[trigger] crate::text::seqs_of(lists@[k]@).contains(x),
        decreases lists@.len() - i,
    {
        let list = &lists[i];
        let mut j: usize = 0;
        while j < list.len()
            invariant
                i < lists@.len(),
                list == lists@[i as int],
                j <= list@.len(),
                no_repeats(crate::text::seqs_of(out@)),
                forall|x: Seq<char>|
                    crate::text::seqs_of(out@).contains(x) <==> (exists|k: int|
                        0 <= k < i && #[trigger] crate::text::seqs_of(lists@[k]@).contains(x))
                        || crate::text::seqs_of(list@).take(j as int).contains(x),
            decreases list@.len() - j,
        {
            let name = list[j].as_str();
            let ghost before = crate::text::seqs_of(out@);
            let mut present = false;
            let mut k: usize = 0;
            while k < out.len()
                invariant
                    k <= out@.len(),
                    before == crate::text::seqs_of(out@),
                    present <==> exists|m: int| 0 <= m < k && before[m] == name@,
                decreases out@.len() - k,
            {
                assert(before[k as int] == out@[k as int]@);
                if str_eq(out[k].as_str(), name) {
                    present = true;
                }
                k = k + 1;
            }
            let ghost lv = crate::text::seqs_of(list@);
            assert(lv.take(j + 1) =~= lv.take(j as int).push(name@));
            if !present {
                out.push(String::from_str(name));
                proof {
                    let after = crate::text::seqs_of(out@);
                    assert(after =~= before.push(name@));
                    assert forall|a: int, b: int| 0 <= a < b < after.len() implies #[trigger] after[a]
                        != #[trigger] after[b] by {
                        if b == after.len() - 1 {
                            assert(after[a] == before[a]);
                        } else {
                            assert(after[a] == before[a] && after[b] == before[b]);
                        }
                    }
                    assert forall|x: Seq<char>| after.contains(x) <==> before.contains(x) || x
                        == name@ by {
                        if after.contains(x) && x != name@ {
                            let m = choose|m: int| 0 <= m < after.len() && after[m] == x;
                            assert(before[m] == x);
                        }
                        if x == name@ {
                            assert(after[before.len() as int] == x);
                        }
                        if before.contains(x) {
                            let m = choose|m: int| 0 <= m < before.len() && before[m] == x;
                            assert(after[m] == x);
                        }
                    }
                }
            } else {
                proof {
                    let m = choose|m: int| 0 <= m < k && before[m] == name@;
                    assert(before.contains(name@));
                }
            }
            proof {
                assert forall|x: Seq<char>| lv.take(j + 1).contains(x) <==> lv.take(j as int).contains(x)
                    || x == name@ by {
                    let t = lv.take(j + 1);
                    if t.contains(x) && x != name@ {
                        let m = choose|m: int| 0 <= m < t.len() && t[m] == x;
                        assert(lv.take(j as int)[m] == x);
                    }
                    if x == name@ {
                        assert(t[j as int] == x);
                    }
                    if lv.take(j as int).contains(x) {
                        let m = choose|m: int| 0 <= m < j && lv.take(j as int)[m] == x;
                        assert(t[m] == x);
                    }
                }
            }
            j = j + 1;
        }
        proof {
            let lv = crate::text::seqs_of(list@);
            assert(lv.take(j as int) =~= lv);
            assert forall|x: Seq<char>|
                crate::text::seqs_of(out@).contains(x) <==> exists|k: int|
                    0 <= k < i + 1 && #[trigger] crate::text::seqs_of(lists@[k]@).contains(x) by {
                if crate::text::seqs_of(lists@[i as int]@).contains(x) {
                    assert(0 <= i < i + 1);
                }
            }
        }
        i = i + 1;
    }
    out
}

/// Why discovery found nothing to follow.
pub enum DiscoveryError {
    /// Neither patterns nor a stack name were given.
    NoPatternOrStack,
    /// The patterns and the stack found no log group.
    NothingFound,
    /// No name survived validation.
    NoValidGroup,
    /// Live Tail follows at most ten log groups.
    TooManyGroups { count: usize },
}

impl DiscoveryError {
    /// The error message.
    pub fn message(&self) -> (r: String)
        ensures
            r@ == match self {
                DiscoveryError::NoPatternOrStack => "Internal error: No log group pattern or stack name provided."@,
                DiscoveryError::NothingFound => "No log groups found with the provided pattern(s) and/or stack name."@,
                DiscoveryError::NoValidGroup => "No discoverable and valid log groups (checked Lambda@Edge variants)."@,
                DiscoveryError::TooManyGroups { count } => "Discovery resulted in "@ + crate::text::decimal_text(
                    *count as nat,
                ) + " valid log groups (max 10 allowed for live tail)"@,
            },
    {
        match self {
            DiscoveryError::NoPatternOrStack => String::from_str(
                "Internal error: No log group pattern or stack name provided.",
            ),
            DiscoveryError::NothingFound => String::from_str(
                "No log groups found with the provided pattern(s) and/or stack name.",
            ),
            DiscoveryError::NoValidGroup => String::from_str(
                "No discoverable and valid log groups (checked Lambda@Edge variants).",
            ),
            DiscoveryError::TooManyGroups { count } => {
                let mut m = String::from_str("Discovery resulted in ");
                m.append(crate::text::u64_to_string(*count as u64).as_str());
                m.append(" valid log groups (max 10 allowed for live tail)");
                m
            },
        }
    }
}

/// The check after discovery: an empty result is an error, telling apart the
/// case where nothing was asked for.
pub fn check_discovered(found: usize, has_stack: bool, has_patterns: bool) -> (r: Result<
    (),
    DiscoveryError,
>)
    ensures
        found > 0 <==> r is Ok,
        found == 0 && !has_stack && !has_patterns ==> r is Err && r->Err_0 is NoPatternOrStack,
        found == 0 && (has_stack || has_patterns) ==> r is Err && r->Err_0 is NothingFound,
{
    if found > 0 {
        Ok(())
    } else if !has_stack && !has_patterns {
        Err(DiscoveryError::NoPatternOrStack)
    } else {
        Err(DiscoveryError::NothingFound)
    }
}

/// The largest number of log groups a Live Tail session accepts.
pub const MAX_LIVE_TAIL_GROUPS: usize = 10;

/// The check after validation: at least one and at most ten log groups.
pub fn check_group_count(count: usize) -> (r: Result<(), DiscoveryError>)
    ensures
        r is Ok <==> 1 <= count <= MAX_LIVE_TAIL_GROUPS,
        count == 0 ==> r is Err && r->Err_0 is NoValidGroup,
        count > MAX_LIVE_TAIL_GROUPS ==> (r matches Err(DiscoveryError::TooManyGroups { count: c })
            && c == count),
{
    if count == 0 {
        Err(DiscoveryError::NoValidGroup)
    } else if count > MAX_LIVE_TAIL_GROUPS {
        Err(DiscoveryError::TooManyGroups { count })
    } else {
        Ok(())
    }
}

/// `arn:<partition>:logs:<region>:<account>:log-group:<name>`.
pub open spec fn log_group_arn_spec(
    partition: Seq<char>,
    region: Seq<char>,
    account: Seq<char>,
    name: Seq<char>,
) -> Seq<char> {
    "arn:"@ + partition + ":logs:"@ + region + ":"@ + account + ":log-group:"@ + name
}

pub fn log_group_arn(partition: &str, region: &str, account: &str, name: &str) -> (r: String)
    ensures
        r@ == log_group_arn_spec(partition@, region@, account@, name@),
{
    let mut s = String::from_str("arn:");
    s.append(partition);
    s.append(":logs:");
    s.append(region);
    s.append(":");
    s.append(account);
    s.append(":log-group:");
    s.append(name);
    s
}

// ----------------------------------------------------------------------------
// Polling mode
// ----------------------------------------------------------------------------

/// The newest event time seen while polling one log group, and whether any
/// event came.
pub struct PollProgress {
    pub latest_timestamp: i64,
    pub events_found: bool,
}

/// The maximum of `start` and the known timestamps.
pub open spec fn latest_of(start: i64, timestamps: Seq<Option<i64>>) -> i64
    decreases timestamps.len(),
{
    if timestamps.len() == 0 {
        start
    } else {
        let m = latest_of(start, timestamps.drop_last());
        match timestamps.last() {
            Some(t) => if t > m {
                t
            } else {
                m
            },
            None => m,
        }
    }
}

impl PollProgress {
    /// Polling from `start_time_ms`: nothing seen yet.
    pub fn new(start_time_ms: i64) -> (p: Self)
        ensures
            p.latest_timestamp == start_time_ms,
            !p.events_found,
    {
        PollProgress { latest_timestamp: start_time_ms, events_found: false }
    }

    /// One page of events, given by their timestamps: the newest time rises to
    /// the page's newest, and a non-empty page counts as events found.
    pub fn absorb_page(&mut self, timestamps: &Vec<Option<i64>>)
        ensures
            final(self).latest_timestamp == latest_of(old(self).latest_timestamp, timestamps@),
            final(self).events_found == (old(self).events_found || timestamps@.len() > 0),
    {
        let ghost start = self.latest_timestamp;
        let mut i: usize = 0;
        assert(timestamps@.take(0) =~= Seq::<Option<i64>>::empty());
        while i < timestamps.len()
            invariant
                i <= timestamps@.len(),
                self.latest_timestamp == latest_of(start, timestamps@.take(i as int)),
                self.events_found == old(self).events_found,
            decreases timestamps@.len() - i,
        {
            assert(timestamps@.take(i + 1).drop_last() =~= timestamps@.take(i as int));
            if let Some(t) = timestamps[i] {
                if t > self.latest_timestamp {
                    self.latest_timestamp = t;
                }
            }
            i = i + 1;
        }
        assert(timestamps@.take(i as int) =~= timestamps@);
        if timestamps.len() > 0 {
            self.events_found = true;
        }
    }

    /// The time to poll from next: the newest event time when events came.
    pub fn next_start(&self) -> (r: Option<i64>)
        ensures
            r == (if self.events_found {
                Some(self.latest_timestamp)
            } else {
                None
            }),
    {
        if self.events_found {
            Some(self.latest_timestamp)
        } else {
            None
        }
    }
}

/// The time each log group is polled from: its last event time when known,
/// else the time polling started.
pub struct PollCursors {
    pub initial_start_ms: i64,
    pub last_timestamps: Vec<(String, i64)>,
}

pub open spec fn cursor_lookup(c: Seq<(String, i64)>, arn: Seq<char>) -> Option<i64>
    decreases c.len(),
{
    if c.len() == 0 {
        None
    } else if c.last().0@ == arn {
        Some(c.last().1)
    } else {
        cursor_lookup(c.drop_last(), arn)
    }
}

impl PollCursors {
    pub fn new(initial_start_ms: i64) -> (p: Self)
        ensures
            p.initial_start_ms == initial_start_ms,
            p.last_timestamps@.len() == 0,
    {
        PollCursors { initial_start_ms, last_timestamps: Vec::new() }
    }

    /// Where polling of `arn` starts.
    pub fn start_time_for(&self, arn: &str) -> (t: i64)
        ensures
            t == match cursor_lookup(self.last_timestamps@, arn@) {
                Some(x) => x,
                None => self.initial_start_ms,
            },
    {
        let mut i = self.last_timestamps.len();
        assert(self.last_timestamps@.take(i as int) =~= self.last_timestamps@);
        while i > 0
            invariant
                i <= self.last_timestamps@.len(),
                cursor_lookup(self.last_timestamps@, arn@) == cursor_lookup(
                    self.last_timestamps@.take(i as int),
                    arn@,
                ),
            decreases i,
        {
            let ghost t = self.last_timestamps@.take(i as int);
            assert(t.drop_last() =~= self.last_timestamps@.take(i - 1));
            if str_eq(self.last_timestamps[i - 1].0.as_str(), arn) {
                return self.last_timestamps[i - 1].1;
            }
            i = i - 1;
        }
        self.initial_start_ms
    }

    /// Records the newest event time of `arn`.
    pub fn advance(&mut self, arn: String, timestamp: i64)
        ensures
            final(self).initial_start_ms == old(self).initial_start_ms,
            cursor_lookup(final(self).last_timestamps@, arn@) == Some(timestamp),
            forall|other: Seq<char>|
                other != arn@ ==> cursor_lookup(final(self).last_timestamps@, other) == cursor_lookup(
                    old(self).last_timestamps@,
                    other,
                ),
    {
        let ghost a = arn@;
        let ghost before = self.last_timestamps@;
        self.last_timestamps.push((arn, timestamp));
        assert(self.last_timestamps@.drop_last() =~= before);
    }
}

/// The first event time a poll asks for: just after the start time.
pub fn poll_request_start(start_time_ms: i64) -> (r: i64)
    requires
        start_time_ms < i64::MAX,
    ensures
        r == start_time_ms + 1,
{
    start_time_ms + 1
}

/// The Live Tail filter that selects the exporter's log lines.
pub fn live_tail_filter_pattern() -> (r: &'static str)
    ensures
        r@ == "{ $.__otel_otlp_stdout = * }"@,
{
    "{ $.__otel_otlp_stdout = * }"
}

} // verus!
