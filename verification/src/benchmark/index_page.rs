//! The metadata block of a test's index page: a label and a text for each
//! setting the test ran with.
use vstd::prelude::*;
use vstd::string::*;
use crate::benchmark::types::{BatchTestConfig, GlobalConfig};
use crate::pairs::{key_index, key_position, pairs_view};
use crate::text::{decimal_text, push_char, push_decimal};

verus! {

/// Decimal text of an integer, with a `-` before a negative one.
pub open spec fn signed_text(n: int) -> Seq<char> {
    if n < 0 {
        seq!['-'] + decimal_text((-n) as nat)
    } else {
        decimal_text(n as nat)
    }
}

/// The memory sizes separated by `, `.
pub open spec fn sizes_text(sizes: Seq<i32>) -> Seq<char>
    decreases sizes.len(),
{
    if sizes.len() == 0 {
        Seq::empty()
    } else if sizes.len() == 1 {
        signed_text(sizes[0] as int)
    } else {
        sizes_text(sizes.drop_last()) + ", "@ + signed_text(sizes.last() as int)
    }
}

/// `key=value`.
pub open spec fn assignment_text(p: (Seq<char>, Seq<char>)) -> Seq<char> {
    p.0 + "="@ + p.1
}

/// Each variable as `key=value`, in order.
pub open spec fn assignments(vars: Seq<(Seq<char>, Seq<char>)>) -> Seq<Seq<char>>
    decreases vars.len(),
{
    if vars.len() == 0 {
        Seq::empty()
    } else {
        assignments(vars.drop_last()).push(assignment_text(vars.last()))
    }
}

/// The global variables that the test does not set, each as `key=value`, in
/// order.
pub open spec fn unset_assignments(
    global: Seq<(Seq<char>, Seq<char>)>,
    test: Seq<(Seq<char>, Seq<char>)>,
) -> Seq<Seq<char>>
    decreases global.len(),
{
    if global.len() == 0 {
        Seq::empty()
    } else {
        let rest = unset_assignments(global.drop_last(), test);
        if key_index(test, global.last().0) is None {
            rest.push(assignment_text(global.last()))
        } else {
            rest
        }
    }
}

/// The lines of the variables a test runs with: the global variables the test
/// does not set, then the test's own, each as `key=value`.
pub open spec fn environment_lines(
    global: Seq<(Seq<char>, Seq<char>)>,
    test: Seq<(Seq<char>, Seq<char>)>,
) -> Seq<Seq<char>> {
    unset_assignments(global, test) + assignments(test)
}

/// Lines joined by line breaks.
pub open spec fn joined_lines(lines: Seq<Seq<char>>) -> Seq<char>
    decreases lines.len(),
{
    if lines.len() == 0 {
        Seq::empty()
    } else if lines.len() == 1 {
        lines[0]
    } else {
        joined_lines(lines.drop_last()) + seq!['\n'] + lines.last()
    }
}

/// The metadata items of a test's index page, as `(label, text)`: the stack,
/// the function, the memory sizes in MB, the concurrent invocations, the warm
/// start rounds, whether tests run in parallel, and, when the test or the
/// global settings have variables, the variables one per line. Each setting
/// is the test's own, else the global one.
pub open spec fn index_metadata_spec(
    test: BatchTestConfig,
    global: GlobalConfig,
    stack_name: Seq<char>,
) -> Seq<(Seq<char>, Seq<char>)> {
    let sizes = match test.memory_sizes {
        Some(s) => s@,
        None => global.memory_sizes@,
    };
    let concurrent = match test.concurrent {
        Some(c) => c,
        None => global.concurrent,
    };
    let rounds = match test.rounds {
        Some(r) => r,
        None => global.rounds,
    };
    let parallel = match test.parallel {
        Some(p) => p,
        None => global.parallel,
    };
    let items = seq![
        ("Stack"@, stack_name),
        ("Function"@, test.selector@),
        ("Memory Configurations"@, sizes_text(sizes) + " MB"@),
        ("Concurrent Invocations"@, decimal_text(concurrent as nat)),
        ("Warm Start Rounds"@, decimal_text(rounds as nat)),
        ("Parallel Execution"@, if parallel { "yes"@ } else { "no"@ }),
    ];
    if test.environment@.len() > 0 || global.environment@.len() > 0 {
        items.push(
            (
                "Environment Variables"@,
                joined_lines(
                    environment_lines(pairs_view(global.environment@), pairs_view(test.environment@)),
                ),
            ),
        )
    } else {
        items
    }
}

fn push_str(out: &mut String, s: &str)
    ensures
        final(out)@ == old(out)@ + s@,
{
    out.append(s);
}

/// Appends the decimal text of `n`, signed.
fn push_signed(out: &mut String, n: i32)
    ensures
        final(out)@ == old(out)@ + signed_text(n as int),
{
    if n < 0 {
        push_char(out, '-');
        let magnitude: u64 = (-(n as i64)) as u64;
        push_decimal(out, magnitude);
        assert(final(out)@ =~= old(out)@ + (seq!['-'] + decimal_text((-n) as nat)));
    } else {
        push_decimal(out, n as u64);
    }
}

fn sizes_string(sizes: &Vec<i32>) -> (r: String)
    ensures
        r@ == sizes_text(sizes@) + " MB"@,
{
    let mut out = String::new();
    let mut i: usize = 0;
    while i < sizes.len()
        invariant
            i <= sizes@.len(),
            out@ == sizes_text(sizes@.take(i as int)),
        decreases sizes@.len() - i,
    {
        let ghost before = sizes@.take(i as int);
        let ghost next = sizes@.take(i + 1);
        assert(next.drop_last() =~= before);
        assert(next.last() == sizes@[i as int]);
        proof {
            reveal_strlit(", ");
        }
        if i > 0 {
            push_str(&mut out, ", ");
        } else {
            assert(next =~= seq![sizes@[0]]);
        }
        push_signed(&mut out, sizes[i]);
        i = i + 1;
    }
    assert(sizes@.take(i as int) =~= sizes@);
    push_str(&mut out, " MB");
    out
}

fn assignment_string(p: &(String, String)) -> (r: String)
    ensures
        r@ == assignment_text((p.0@, p.1@)),
{
    let mut out = p.0.clone();
    push_str(&mut out, "=");
    push_str(&mut out, p.1.as_str());
    out
}

/// The lines of `environment_lines`, joined.
fn environment_string(global: &Vec<(String, String)>, test: &Vec<(String, String)>) -> (r: String)
    ensures
        r@ == joined_lines(environment_lines(pairs_view(global@), pairs_view(test@))),
{
    let ghost gv = pairs_view(global@);
    let ghost tv = pairs_view(test@);
    let mut out = String::new();
    let ghost mut lines: Seq<Seq<char>> = Seq::empty();
    let mut has_lines = false;
    let mut i: usize = 0;
    while i < global.len()
        invariant
            i <= global@.len(),
            gv == pairs_view(global@),
            tv == pairs_view(test@),
            lines == unset_assignments(gv.take(i as int), tv),
            out@ == joined_lines(lines),
            has_lines == (lines.len() > 0),
        decreases global@.len() - i,
    {
        let ghost prefix = gv.take(i as int);
        assert(gv.take(i + 1).drop_last() =~= prefix);
        assert(gv.take(i + 1).last() == gv[i as int]);
        assert(gv[i as int] == (global@[i as int].0@, global@[i as int].1@));
        if key_position(test, global[i].0.as_str()).is_none() {
            let line = assignment_string(&global[i]);
            if has_lines {
                push_char(&mut out, '\n');
            }
            push_str(&mut out, line.as_str());
            proof {
                let nl = lines.push(line@);
                assert(nl.drop_last() =~= lines);
                if lines.len() == 0 {
                    assert(nl =~= seq![line@]);
                }
                assert(out@ =~= joined_lines(nl));
                lines = nl;
            }
            has_lines = true;
        }
        i = i + 1;
    }
    assert(gv.take(i as int) =~= gv);
    let ghost first = lines;
    let mut j: usize = 0;
    while j < test.len()
        invariant
            j <= test@.len(),
            tv == pairs_view(test@),
            lines == first + assignments(tv.take(j as int)),
            out@ == joined_lines(lines),
            has_lines == (lines.len() > 0),
        decreases test@.len() - j,
    {
        assert(tv[j as int] == (test@[j as int].0@, test@[j as int].1@));
        assert(tv.take(j + 1).drop_last() =~= tv.take(j as int));
        let line = assignment_string(&test[j]);
        if has_lines {
            push_char(&mut out, '\n');
        }
        push_str(&mut out, line.as_str());
        proof {
            let nl = lines.push(line@);
            assert(nl.drop_last() =~= lines);
            if lines.len() == 0 {
                assert(nl =~= seq![line@]);
            }
            assert(out@ =~= joined_lines(nl));
            assert(first + assignments(tv.take(j + 1)) =~= nl);
            lines = nl;
        }
        has_lines = true;
        j = j + 1;
    }
    assert(tv.take(j as int) =~= tv);
    out
}

impl BatchTestConfig {
    /// The metadata items of this test's index page (see
    /// `index_metadata_spec`), for the stack it ran in.
    pub fn index_metadata(&self, global: &GlobalConfig, stack_name: &str) -> (r: Vec<(String, String)>)
        ensures
            pairs_view(r@) == index_metadata_spec(*self, *global, stack_name@),
    {
        let s = self.resolve_settings(global);
        let mut items: Vec<(String, String)> = Vec::new();
        items.push((String::from_str("Stack"), String::from_str(stack_name)));
        items.push((String::from_str("Function"), self.selector.clone()));
        items.push((String::from_str("Memory Configurations"), sizes_string(&s.memory_sizes)));
        let mut concurrent = String::new();
        push_decimal(&mut concurrent, s.concurrent as u64);
        items.push((String::from_str("Concurrent Invocations"), concurrent));
        let mut rounds = String::new();
        push_decimal(&mut rounds, s.rounds as u64);
        items.push((String::from_str("Warm Start Rounds"), rounds));
        let parallel = if s.parallel {
            String::from_str("yes")
        } else {
            String::from_str("no")
        };
        items.push((String::from_str("Parallel Execution"), parallel));
        let ghost base = pairs_view(items@);
        if self.environment.len() > 0 || global.environment.len() > 0 {
            let text = environment_string(&global.environment, &self.environment);
            items.push((String::from_str("Environment Variables"), text));
            assert(pairs_view(items@) =~= base.push(
                (
                    "Environment Variables"@,
                    joined_lines(
                        environment_lines(pairs_view(global.environment@), pairs_view(self.environment@)),
                    ),
                ),
            ));
        }
        proof {
            assert(Seq::<char>::empty() + decimal_text(s.concurrent as nat) == decimal_text(s.concurrent as nat));
            assert(Seq::<char>::empty() + decimal_text(s.rounds as nat) == decimal_text(s.rounds as nat));
        }
        assert(base =~= seq![
            ("Stack"@, stack_name@),
            ("Function"@, self.selector@),
            ("Memory Configurations"@, sizes_text(s.memory_sizes@) + " MB"@),
            ("Concurrent Invocations"@, decimal_text(s.concurrent as nat)),
            ("Warm Start Rounds"@, decimal_text(s.rounds as nat)),
            ("Parallel Execution"@, if s.parallel { "yes"@ } else { "no"@ }),
        ]);
        items
    }
}

} // verus!
