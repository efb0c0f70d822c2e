//! The batch configuration: global settings with their defaults, tests that
//! override them, and the metadata and index written for the tests run.
use vstd::prelude::*;
use vstd::string::*;
use crate::pairs::{merge_entries, merge_pairs, pairs_view};
use crate::text::clone_opt_string;

verus! {

pub use crate::startled::types::EnvVar;

/// The memory sizes tested when none are configured: 128, 512 and 1024 MB.
pub fn default_memory_sizes() -> (v: Vec<i32>)
    ensures
        v@ == seq![128i32, 512i32, 1024i32],
{
    let mut v = Vec::new();
    v.push(128);
    v.push(512);
    v.push(1024);
    v
}

/// One invocation at a time unless configured.
pub fn default_concurrent() -> (c: u32)
    ensures
        c == 1,
{
    1
}

/// One round of warm starts unless configured.
pub fn default_rounds() -> (r: u32)
    ensures
        r == 1,
{
    1
}

/// The stack named `benchmark` unless configured.
pub fn default_stack_name() -> (s: String)
    ensures
        s@ == "benchmark"@,
{
    String::from_str("benchmark")
}

/// Settings that apply to every test unless the test overrides them. The
/// variables are `(name, value)` pairs with distinct names.
#[derive(Debug, Clone)]
pub struct GlobalConfig {
    pub title: Option<String>,
    pub description: Option<String>,
    pub memory_sizes: Vec<i32>,
    pub concurrent: u32,
    pub rounds: u32,
    pub parallel: bool,
    pub stack_name: String,
    pub environment: Vec<(String, String)>,
    pub proxy_function: Option<String>,
}

/// The documented defaults: no title or description, memory sizes 128, 512
/// and 1024 MB, one concurrent invocation, one round, not parallel, stack
/// `benchmark`, no variables and no proxy function.
pub open spec fn has_documented_defaults(g: GlobalConfig) -> bool {
    &&& g.title is None
    &&& g.description is None
    &&& g.memory_sizes@ == seq![128i32, 512i32, 1024i32]
    &&& g.concurrent == 1
    &&& g.rounds == 1
    &&& !g.parallel
    &&& g.stack_name@ == "benchmark"@
    &&& g.environment@.len() == 0
    &&& g.proxy_function is None
}

impl GlobalConfig {
    /// The global settings with the documented defaults.
    pub fn new() -> (g: Self)
        ensures
            has_documented_defaults(g),
    {
        GlobalConfig {
            title: None,
            description: None,
            memory_sizes: default_memory_sizes(),
            concurrent: default_concurrent(),
            rounds: default_rounds(),
            parallel: false,
            stack_name: default_stack_name(),
            environment: Vec::new(),
            proxy_function: None,
        }
    }
}

impl Default for GlobalConfig {
    /// The same documented defaults as `new`.
    fn default() -> (g: Self)
        ensures
            has_documented_defaults(g),
    {
        GlobalConfig::new()
    }
}

/// Where a test's payload comes from: a JSON file, or JSON given inline (as
/// its text).
#[derive(Debug, Clone)]
pub enum PayloadConfig {
    Path(String),
    Inline(String),
}

/// One test of the batch; the options left `None` take the global setting.
#[derive(Debug, Clone)]
pub struct BatchTestConfig {
    pub title: String,
    pub description: String,
    pub name: String,
    pub stack_name: Option<String>,
    pub selector: String,
    pub payload: PayloadConfig,
    pub environment: Vec<(String, String)>,
    pub memory_sizes: Option<Vec<i32>>,
    pub concurrent: Option<u32>,
    pub rounds: Option<u32>,
    pub parallel: Option<bool>,
    pub proxy_function: Option<String>,
}

/// The settings a test runs with.
pub struct TestSettings {
    pub memory_sizes: Vec<i32>,
    pub concurrent: u32,
    pub rounds: u32,
    pub parallel: bool,
    pub stack_name: String,
}

fn clone_i32s(v: &Vec<i32>) -> (r: Vec<i32>)
    ensures
        r@ == v@,
{
    let mut out = Vec::new();
    let mut i: usize = 0;
    while i < v.len()
        invariant
            i <= v@.len(),
            out@ == v@.take(i as int),
        decreases v@.len() - i,
    {
        out.push(v[i]);
        assert(out@ =~= v@.take(i + 1));
        i = i + 1;
    }
    assert(v@.take(i as int) =~= v@);
    out
}

impl BatchTestConfig {
    /// The global variables with the test's put over them: a test value wins.
    pub fn merge_environment(&self, global_env: &Vec<(String, String)>) -> (r: Vec<(String, String)>)
        ensures
            pairs_view(r@) == merge_entries(pairs_view(global_env@), pairs_view(self.environment@)),
    {
        merge_pairs(global_env, &self.environment)
    }

    /// The test's proxy function, else the global one.
    pub fn get_proxy_function(&self, global: &GlobalConfig) -> (r: Option<String>)
        ensures
            r == (if self.proxy_function is Some {
                self.proxy_function
            } else {
                global.proxy_function
            }),
    {
        if self.proxy_function.is_some() {
            clone_opt_string(&self.proxy_function)
        } else {
            clone_opt_string(&global.proxy_function)
        }
    }

    /// The settings of this test: each given override, else the global value.
    pub fn resolve_settings(&self, global: &GlobalConfig) -> (s: TestSettings)
        ensures
            s.memory_sizes@ == match self.memory_sizes {
                Some(m) => m@,
                None => global.memory_sizes@,
            },
            s.concurrent == match self.concurrent {
                Some(c) => c,
                None => global.concurrent,
            },
            s.rounds == match self.rounds {
                Some(r) => r,
                None => global.rounds,
            },
            s.parallel == match self.parallel {
                Some(p) => p,
                None => global.parallel,
            },
            s.stack_name@ == match self.stack_name {
                Some(n) => n@,
                None => global.stack_name@,
            },
    {
        let memory_sizes = match &self.memory_sizes {
            Some(m) => clone_i32s(m),
            None => clone_i32s(&global.memory_sizes),
        };
        let concurrent = match self.concurrent {
            Some(c) => c,
            None => global.concurrent,
        };
        let rounds = match self.rounds {
            Some(r) => r,
            None => global.rounds,
        };
        let parallel = match self.parallel {
            Some(p) => p,
            None => global.parallel,
        };
        let stack_name = match &self.stack_name {
            Some(n) => n.clone(),
            None => global.stack_name.clone(),
        };
        TestSettings { memory_sizes, concurrent, rounds, parallel, stack_name }
    }

    /// The metadata recorded for this test when it runs at `timestamp`.
    pub fn metadata(&self, global: &GlobalConfig, timestamp: String) -> (m: TestMetadata)
        ensures
            m.title == self.title,
            m.description == self.description,
            m.selector == self.selector,
            m.timestamp == timestamp,
            m.stack_name@ == match self.stack_name {
                Some(n) => n@,
                None => global.stack_name@,
            },
            m.memory_sizes@ == match self.memory_sizes {
                Some(s) => s@,
                None => global.memory_sizes@,
            },
            m.concurrent == match self.concurrent {
                Some(c) => c,
                None => global.concurrent,
            },
            m.rounds == match self.rounds {
                Some(r) => r,
                None => global.rounds,
            },
            m.parallel == match self.parallel {
                Some(p) => p,
                None => global.parallel,
            },
            pairs_view(m.environment@) == merge_entries(
                pairs_view(global.environment@),
                pairs_view(self.environment@),
            ),
    {
        let s = self.resolve_settings(global);
        TestMetadata {
            title: self.title.clone(),
            description: self.description.clone(),
            stack_name: s.stack_name,
            selector: self.selector.clone(),
            timestamp,
            memory_sizes: s.memory_sizes,
            concurrent: s.concurrent,
            rounds: s.rounds,
            parallel: s.parallel,
            environment: self.merge_environment(&global.environment),
        }
    }
}

/// What is recorded about a test run.
#[derive(Debug, Clone)]
pub struct TestMetadata {
    pub title: String,
    pub description: String,
    pub stack_name: String,
    pub selector: String,
    pub timestamp: String,
    pub memory_sizes: Vec<i32>,
    pub concurrent: u32,
    pub rounds: u32,
    pub parallel: bool,
    pub environment: Vec<(String, String)>,
}

/// The index of all tests run.
#[derive(Debug, Clone)]
pub struct TestIndex {
    pub timestamp: String,
    pub tests: Vec<TestMetadata>,
}

impl TestIndex {
    /// An index with no test yet.
    pub fn new(timestamp: String) -> (i: Self)
        ensures
            i.timestamp == timestamp,
            i.tests@.len() == 0,
    {
        TestIndex { timestamp, tests: Vec::new() }
    }

    /// Adds a test run at the end.
    pub fn record(&mut self, test: TestMetadata)
        ensures
            final(self).timestamp == old(self).timestamp,
            final(self).tests@ == old(self).tests@.push(test),
    {
        self.tests.push(test);
    }
}

/// The directory of a test's results: `<input>/<stack>/<selector>/<name>`
/// (each part joined as `PathBuf::join` does).
pub fn test_directory(input_dir: &str, stack_name: &str, selector: &str, name: &str) -> (r: String)
    ensures
        r@ == crate::startled::types::join_path_spec(
            crate::startled::types::join_path_spec(
                crate::startled::types::join_path_spec(input_dir@, stack_name@),
                selector@,
            ),
            name@,
        ),
{
    let a = crate::startled::types::join_path(input_dir, stack_name);
    let b = crate::startled::types::join_path(a.as_str(), selector);
    crate::startled::types::join_path(b.as_str(), name)
}

} // verus!
