//! Benchmark settings of `startled`, the `KEY=VALUE` environment variables it
//! sets on a function, and the names of the files and directories its results
//! go to.
use vstd::prelude::*;
use vstd::string::*;
use crate::livetrace::forwarder::first_index_of;
use crate::pairs::{merge_entries, merge_pairs, pairs_view};
use crate::text::{decimal_text, opt_seq, u64_to_string};

verus! {

/// An environment variable given as `KEY=VALUE`.
#[derive(Debug, Clone)]
pub struct EnvVar {
    pub key: String,
    pub value: String,
}

/// Why a `KEY=VALUE` text was refused.
pub enum EnvVarError {
    /// No `=` in the text.
    Format,
    /// The key does not start with a letter or holds other characters than
    /// letters, digits and `_`.
    InvalidName { key: String },
}

impl EnvVarError {
    /// The error message.
    pub fn message(&self) -> (r: String)
        ensures
            r@ == match self {
                EnvVarError::Format => "Invalid environment variable format. Must be KEY=VALUE"@,
                EnvVarError::InvalidName { key } => "Invalid environment variable name: "@ + key@
                    + ". Must start with a letter and contain only letters, numbers, and underscores"@,
            },
    {
        match self {
            EnvVarError::Format => String::from_str(
                "Invalid environment variable format. Must be KEY=VALUE",
            ),
            EnvVarError::InvalidName { key } => {
                let mut m = String::from_str("Invalid environment variable name: ");
                m.append(key.as_str());
                m.append(
                    ". Must start with a letter and contain only letters, numbers, and underscores",
                );
                m
            },
        }
    }
}

pub open spec fn ascii_alpha(c: char) -> bool {
    ('a' <= c && c <= 'z') || ('A' <= c && c <= 'Z')
}

pub open spec fn env_key_char(c: char) -> bool {
    ascii_alpha(c) || ('0' <= c && c <= '9') || c == '_'
}

/// A valid variable name: an ASCII letter, then ASCII letters, digits and `_`.
pub open spec fn valid_env_key(k: Seq<char>) -> bool {
    &&& k.len() > 0
    &&& ascii_alpha(k[0])
    &&& forall|i: int| 0 <= i < k.len() ==> env_key_char(#[trigger] k[i])
}

/// The outcome of reading `KEY=VALUE`: the text is split at its first `=`.
pub enum EnvVarParse {
    Parsed(Seq<char>, Seq<char>),
    NoEquals,
    BadKey(Seq<char>),
}

pub open spec fn env_var_parse(s: Seq<char>) -> EnvVarParse {
    match first_index_of(s, '=') {
        None => EnvVarParse::NoEquals,
        Some(i) => {
            let key = s.subrange(0, i);
            if valid_env_key(key) {
                EnvVarParse::Parsed(key, s.subrange(i + 1, s.len() as int))
            } else {
                EnvVarParse::BadKey(key)
            }
        },
    }
}

fn is_valid_env_key(k: &str) -> (b: bool)
    ensures
        b == valid_env_key(k@),
{
    let n = k.unicode_len();
    if n == 0 {
        return false;
    }
    let c0 = k.get_char(0);
    if !(('a' <= c0 && c0 <= 'z') || ('A' <= c0 && c0 <= 'Z')) {
        return false;
    }
    let mut i: usize = 0;
    while i < n
        invariant
            n == k@.len(),
            i <= n,
            forall|j: int| 0 <= j < i ==> env_key_char(#[trigger] k@[j]),
        decreases n - i,
    {
        let c = k.get_char(i);
        if !(('a' <= c && c <= 'z') || ('A' <= c && c <= 'Z') || ('0' <= c && c <= '9') || c
            == '_') {
            assert(!env_key_char(k@[i as int]));
            return false;
        }
        i = i + 1;
    }
    true
}

impl EnvVar {
    /// Reads `KEY=VALUE` (see `env_var_parse`).
    pub fn parse(s: &str) -> (r: Result<EnvVar, EnvVarError>)
        ensures
            match env_var_parse(s@) {
                EnvVarParse::Parsed(k, v) => r is Ok && r->Ok_0.key@ == k && r->Ok_0.value@ == v,
                EnvVarParse::NoEquals => r is Err && r->Err_0 is Format,
                EnvVarParse::BadKey(k) => r matches Err(EnvVarError::InvalidName { key })
                    && key@ == k,
            },
    {
        let n = s.unicode_len();
        match crate::livetrace::forwarder::find_char(s, '=') {
            None => Err(EnvVarError::Format),
            Some(i) => {
                let key = s.substring_char(0, i);
                let value = s.substring_char(i + 1, n);
                if is_valid_env_key(key) {
                    Ok(EnvVar { key: String::from_str(key), value: String::from_str(value) })
                } else {
                    Err(EnvVarError::InvalidName { key: String::from_str(key) })
                }
            },
        }
    }
}

impl std::str::FromStr for EnvVar {
    type Err = EnvVarError;

    fn from_str(s: &str) -> (r: Result<Self, Self::Err>)
        ensures
            match env_var_parse(s@) {
                EnvVarParse::Parsed(k, v) => r is Ok && r->Ok_0.key@ == k && r->Ok_0.value@ == v,
                EnvVarParse::NoEquals => r is Err && r->Err_0 is Format,
                EnvVarParse::BadKey(k) => r matches Err(EnvVarError::InvalidName { key })
                    && key@ == k,
            },
    {
        EnvVar::parse(s)
    }
}

/// The settings a benchmark ran with, as saved with its results.
#[derive(Debug, Clone)]
pub struct BenchmarkConfig {
    pub function_name: String,
    pub memory_size: Option<i32>,
    pub concurrent_invocations: u32,
    pub rounds: u32,
    pub timestamp: String,
    pub runtime: Option<String>,
    pub architecture: Option<String>,
    pub environment: Vec<EnvVar>,
}

/// The settings of a benchmark of a stack's functions.
#[derive(Debug, Clone)]
pub struct StackBenchmarkConfig {
    pub stack_name: String,
    pub select_pattern: String,
    pub select_regex: Option<String>,
    pub memory_size: Option<i32>,
    pub concurrent_invocations: usize,
    pub rounds: usize,
    pub output_dir: Option<String>,
    pub payload: Option<String>,
    pub environment: Vec<EnvVar>,
    pub client_metrics_mode: bool,
    pub proxy_function: Option<String>,
}

/// A function's configuration before the benchmark changed it, to restore it
/// afterwards. The variables are `(name, value)` pairs with distinct names.
#[derive(Debug, Clone)]
pub struct OriginalConfig {
    pub memory_size: i32,
    pub environment: Vec<(String, String)>,
}

/// The memory size a function reports, 128 MB when it reports none.
pub fn original_memory_size(reported: Option<i32>) -> (m: i32)
    ensures
        m == match reported {
            Some(x) => x,
            None => 128,
        },
{
    match reported {
        Some(x) => x,
        None => 128,
    }
}

/// The settings of one function benchmark.
#[derive(Clone)]
pub struct FunctionBenchmarkConfig {
    pub function_name: String,
    pub memory_size: Option<i32>,
    pub concurrent: u32,
    pub rounds: u32,
    pub payload: Option<String>,
    pub output_dir: String,
    pub environment: Vec<(String, String)>,
    pub proxy_function: Option<String>,
}

impl FunctionBenchmarkConfig {
    pub fn new(
        function_name: String,
        memory_size: Option<i32>,
        concurrent: u32,
        rounds: u32,
        payload: Option<String>,
        output_dir: String,
        environment: Vec<(String, String)>,
        proxy_function: Option<String>,
    ) -> (c: Self)
        ensures
            c.function_name == function_name,
            c.memory_size == memory_size,
            c.concurrent == concurrent,
            c.rounds == rounds,
            c.payload == payload,
            c.output_dir == output_dir,
            c.environment == environment,
            c.proxy_function == proxy_function,
    {
        FunctionBenchmarkConfig {
            function_name,
            memory_size,
            concurrent,
            rounds,
            payload,
            output_dir,
            environment,
            proxy_function,
        }
    }
}

/// Decimal text of an integer, with a leading `-` when negative.
pub open spec fn int_text(m: int) -> Seq<char> {
    if m < 0 {
        "-"@ + decimal_text((-m) as nat)
    } else {
        decimal_text(m as nat)
    }
}

pub fn i32_to_string(m: i32) -> (r: String)
    ensures
        r@ == int_text(m as int),
{
    if m < 0 {
        let magnitude: u64 = (-(m as i64)) as u64;
        let mut s = String::from_str("-");
        s.append(u64_to_string(magnitude).as_str());
        proof {
            reveal_strlit("-");
        }
        s
    } else {
        u64_to_string(m as u64)
    }
}

/// The directory of a memory size's results: `<m>mb`, or `default` when the
/// function's own memory size was kept.
pub open spec fn memory_dir_name_spec(memory_size: Option<i32>) -> Seq<char> {
    match memory_size {
        Some(m) => int_text(m as int) + "mb"@,
        None => "default"@,
    }
}

pub fn memory_dir_name(memory_size: Option<i32>) -> (r: String)
    ensures
        r@ == memory_dir_name_spec(memory_size),
{
    match memory_size {
        Some(m) => {
            let mut s = i32_to_string(m);
            s.append("mb");
            s
        },
        None => String::from_str("default"),
    }
}

/// The results file of a function: `<function>.json`.
pub fn report_file_name(function_name: &str) -> (r: String)
    ensures
        r@ == function_name@ + ".json"@,
{
    let mut s = String::from_str(function_name);
    s.append(".json");
    s
}

/// The architecture shown for a function: its first one, `x86_64` when it
/// lists none.
pub fn architecture_label(architectures: &Vec<String>) -> (r: Option<String>)
    ensures
        architectures@.len() > 0 ==> r == Some(architectures@[0]),
        architectures@.len() == 0 ==> r is Some && r->Some_0@ == "x86_64"@,
{
    if architectures.len() == 0 {
        Some(String::from_str("x86_64"))
    } else {
        Some(architectures[0].clone())
    }
}

/// The function's configuration is changed (and restored afterwards) when a
/// memory size or environment variables are given.
pub fn needs_config_update(memory_size: Option<i32>, environment_len: usize) -> (b: bool)
    ensures
        b == (memory_size is Some || environment_len > 0),
{
    memory_size.is_some() || environment_len > 0
}

/// The variables a function is given for the benchmark: its current ones,
/// with the benchmark's values put over them.
pub fn benchmark_environment(current: &Vec<(String, String)>, overrides: &Vec<(String, String)>) -> (r:
    Vec<(String, String)>)
    ensures
        pairs_view(r@) == merge_entries(pairs_view(current@), pairs_view(overrides@)),
{
    merge_pairs(current, overrides)
}

/// A path segment pushed onto a base path, as `PathBuf::push` does on Unix: an
/// absolute segment replaces the base; otherwise a `/` separates the two
/// unless the base is empty or already ends with one.
pub open spec fn join_path_spec(base: Seq<char>, segment: Seq<char>) -> Seq<char> {
    if segment.len() > 0 && segment[0] == '/' {
        segment
    } else if base.len() == 0 {
        segment
    } else if base.last() == '/' {
        base + segment
    } else {
        base + "/"@ + segment
    }
}

/// Joins a segment onto a base path (see `join_path_spec`); the results
/// directory of a single-function benchmark is `function` under the given one.
pub fn join_path(base: &str, segment: &str) -> (r: String)
    ensures
        r@ == join_path_spec(base@, segment@),
{
    let n = base.unicode_len();
    if segment.unicode_len() > 0 && segment.get_char(0) == '/' {
        String::from_str(segment)
    } else if n == 0 {
        String::from_str(segment)
    } else if base.get_char(n - 1) == '/' {
        let mut s = String::from_str(base);
        s.append(segment);
        s
    } else {
        let mut s = String::from_str(base);
        s.append("/");
        s.append(segment);
        proof {
            reveal_strlit("/");
        }
        s
    }
}

/// The results directory of a stack group: `<base>/<group>`.
pub fn group_output_dir(base: &str, group: &str) -> (r: String)
    ensures
        r@ == base@ + "/"@ + group@,
{
    let mut s = String::from_str(base);
    s.append("/");
    s.append(group);
    s
}

/// The memory note shown for each function of a stack: `(<m>MB)`, or nothing.
pub fn memory_note(memory_size: Option<i32>) -> (r: String)
    ensures
        r@ == match memory_size {
            Some(m) => "("@ + int_text(m as int) + "MB)"@,
            None => Seq::<char>::empty(),
        },
{
    match memory_size {
        Some(m) => {
            let mut s = String::from_str("(");
            s.append(i32_to_string(m).as_str());
            s.append("MB)");
            s
        },
        None => {
            let s = String::new();
            s
        },
    }
}

/// How many invocation errors are listed (the rest are counted).
pub fn listed_error_count(errors: usize) -> (r: (usize, usize))
    ensures
        r.0 == (if errors < 10 {
            errors
        } else {
            10
        }),
        r.0 + r.1 == errors,
{
    if errors < 10 {
        (errors, 0)
    } else {
        (10, errors - 10)
    }
}

/// The region shown for an AWS telemetry endpoint: when the endpoint is on
/// `.amazonaws.com`, the configured region (`us-east-1` when none), marked
/// when it is that default value.
pub fn telemetry_region(endpoint: &str, configured_region: &Option<String>) -> (r: Option<
    (String, bool),
>)
    ensures
        !crate::startled::names::contains_text(endpoint@, ".amazonaws.com"@) ==> r is None,
        crate::startled::names::contains_text(endpoint@, ".amazonaws.com"@) ==> r is Some && ({
            let region = match opt_seq(*configured_region) {
                Some(x) => x,
                None => "us-east-1"@,
            };
            r->Some_0.0@ == region && r->Some_0.1 == (region == "us-east-1"@)
        }),
{
    if !crate::startled::names::contains_substring(endpoint, ".amazonaws.com") {
        return None;
    }
    let region = match configured_region {
        Some(x) => x.clone(),
        None => String::from_str("us-east-1"),
    };
    let is_default = crate::text::str_eq(region.as_str(), "us-east-1");
    Some((region, is_default))
}

} // verus!
