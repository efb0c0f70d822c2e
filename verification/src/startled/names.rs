//! Names that become directory names, and the selection of a stack's functions
//! by a substring or a regular expression.
use vstd::prelude::*;
use vstd::string::*;
use crate::text::{opt_seq, seqs_of, str_eq};

verus! {

/// What `regex::Regex::new(pattern)` and then `is_match(text)` answer, or
/// `None` when the pattern does not compile.
pub uninterp spec fn regex_match_result(pattern: Seq<char>, text: Seq<char>) -> Option<bool>;

/// A character of `[a-zA-Z0-9_-]`.
pub open spec fn fs_safe_char(c: char) -> bool {
    ('a' <= c && c <= 'z') || ('A' <= c && c <= 'Z') || ('0' <= c && c <= '9') || c == '_' || c
        == '-'
}

/// The anchored pattern of one or more characters of `[a-zA-Z0-9_-]`.
pub open spec fn fs_safe_pattern() -> Seq<char> {
    "^[a-zA-Z0-9_-]+$"@
}

/// `regex::Regex::new` then `Regex::is_match`; the result is named by
/// `regex_match_result`. For the anchored class pattern of `fs_safe_pattern`
/// the regex syntax documented by the crate gives the answer directly: the text
/// is non-empty and made of characters of the class.
#[verifier::external_body]
pub(crate) fn regex_is_match(pattern: &str, text: &str) -> (r: Option<bool>)
    ensures
        r == regex_match_result(pattern@, text@),
        pattern@ == fs_safe_pattern() ==> r == Some(
            text@.len() > 0 && forall|i: int| 0 <= i < text@.len() ==> fs_safe_char(#[trigger] text@[i]),
        ),
{
    match regex::Regex::new(pattern) {
        Ok(re) => Some(re.is_match(text)),
        Err(_) => None,
    }
}

/// Why a name cannot be a directory name.
pub enum FsNameError {
    Empty,
    DotName,
    InvalidCharacters { name: String },
}

/// `FsNameError` with the name taken by view.
pub enum FsNameProblem {
    Empty,
    DotName,
    InvalidCharacters(Seq<char>),
}

impl FsNameError {
    pub open spec fn problem(&self) -> FsNameProblem {
        match self {
            FsNameError::Empty => FsNameProblem::Empty,
            FsNameError::DotName => FsNameProblem::DotName,
            FsNameError::InvalidCharacters { name } => FsNameProblem::InvalidCharacters(name@),
        }
    }

    /// The text of the error message.
    pub open spec fn text(&self) -> Seq<char> {
        match self {
            FsNameError::Empty => "Name cannot be empty."@,
            FsNameError::DotName => "Name cannot be '.' or '..'."@,
            FsNameError::InvalidCharacters { name } => "Name '"@ + name@
                + "' contains invalid characters. Only alphanumeric characters, underscores, and hyphens are allowed."@,
        }
    }

    /// The error message.
    pub fn message(&self) -> (r: String)
        ensures
            r@ == self.text(),
    {
        match self {
            FsNameError::Empty => String::from_str("Name cannot be empty."),
            FsNameError::DotName => String::from_str("Name cannot be '.' or '..'."),
            FsNameError::InvalidCharacters { name } => {
                let mut m = String::from_str("Name '");
                m.append(name.as_str());
                m.append(
                    "' contains invalid characters. Only alphanumeric characters, underscores, and hyphens are allowed.",
                );
                m
            },
        }
    }
}

/// What is wrong with a name as a directory name, if anything: it must not be
/// empty, `.` or `..`, and may hold only ASCII letters, digits, `_` and `-`.
pub open spec fn fs_name_problem(name: Seq<char>) -> Option<FsNameProblem> {
    if name.len() == 0 {
        Some(FsNameProblem::Empty)
    } else if name == "."@ || name == ".."@ {
        Some(FsNameProblem::DotName)
    } else if forall|i: int| 0 <= i < name.len() ==> fs_safe_char(#[trigger] name[i]) {
        None
    } else {
        Some(FsNameProblem::InvalidCharacters(name))
    }
}

/// Checks that a name is safe as a file or directory name (see
/// `fs_name_problem`).
pub fn validate_fs_safe_name(name: &str) -> (r: Result<(), FsNameError>)
    ensures
        match fs_name_problem(name@) {
            None => r is Ok,
            Some(p) => r is Err && r->Err_0.problem() == p,
        },
{
    if name.unicode_len() == 0 {
        return Err(FsNameError::Empty);
    }
    if str_eq(name, ".") || str_eq(name, "..") {
        return Err(FsNameError::DotName);
    }
    let pattern = "^[a-zA-Z0-9_-]+$";
    match regex_is_match(pattern, name) {
        Some(true) => Ok(()),
        _ => Err(FsNameError::InvalidCharacters { name: String::from_str(name) }),
    }
}

/// Why the directory name of a stack benchmark group is refused.
pub enum GroupNameError {
    /// The `--select-name` value is not a safe name.
    InvalidSelectName(FsNameError),
    /// Without `--select-name`, the `--select` pattern is not a safe name.
    InvalidSelect(FsNameError),
}

impl GroupNameError {
    /// The error message.
    pub fn message(&self) -> (r: String)
        ensures
            r@ == match self {
                GroupNameError::InvalidSelectName(e) => "Invalid --select-name: "@ + e.text(),
                GroupNameError::InvalidSelect(e) => "Invalid --select pattern for directory name: "@ + e.text()
                    + ". Use --select-name to specify a different directory name."@,
            },
    {
        match self {
            GroupNameError::InvalidSelectName(e) => {
                let mut m = String::from_str("Invalid --select-name: ");
                m.append(e.message().as_str());
                m
            },
            GroupNameError::InvalidSelect(e) => {
                let mut m = String::from_str("Invalid --select pattern for directory name: ");
                m.append(e.message().as_str());
                m.append(". Use --select-name to specify a different directory name.");
                m
            },
        }
    }
}

/// The directory name of a stack benchmark group: the `--select-name` value
/// when given, else the `--select` pattern; either must be a safe name.
pub fn directory_group_name(select: &str, select_name: &Option<String>) -> (r: Result<
    String,
    GroupNameError,
>)
    ensures
        match select_name {
            Some(n) => match fs_name_problem(n@) {
                None => r is Ok && r->Ok_0@ == n@,
                Some(p) => r matches Err(GroupNameError::InvalidSelectName(e)) && e.problem() == p,
            },
            None => match fs_name_problem(select@) {
                None => r is Ok && r->Ok_0@ == select@,
                Some(p) => r matches Err(GroupNameError::InvalidSelect(e)) && e.problem() == p,
            },
        },
{
    match select_name {
        Some(n) => match validate_fs_safe_name(n.as_str()) {
            Ok(()) => Ok(n.clone()),
            Err(e) => Err(GroupNameError::InvalidSelectName(e)),
        },
        None => match validate_fs_safe_name(select) {
            Ok(()) => Ok(String::from_str(select)),
            Err(e) => Err(GroupNameError::InvalidSelect(e)),
        },
    }
}

/// Whether `needle` occurs in `hay` (the empty needle occurs everywhere).
pub open spec fn contains_text(hay: Seq<char>, needle: Seq<char>) -> bool {
    exists|i: int|
        0 <= i && i + needle.len() <= hay.len() && #[trigger] hay.subrange(i, i + needle.len())
            == needle
}

/// `str::contains` with a string pattern.
pub fn contains_substring(hay: &str, needle: &str) -> (b: bool)
    ensures
        b == contains_text(hay@, needle@),
{
    let n = hay.unicode_len();
    let m = needle.unicode_len();
    if m > n {
        proof {
            if contains_text(hay@, needle@) {
                let i = choose|i: int|
                    0 <= i && i + needle@.len() <= hay@.len() && #[trigger] hay@.subrange(
                        i,
                        i + needle@.len(),
                    ) == needle@;
            }
        }
        return false;
    }
    let last = n - m;
    let mut i: usize = 0;
    loop
        invariant
            n == hay@.len(),
            m == needle@.len(),
            m <= n,
            last == n - m,
            i <= last,
            forall|j: int| 0 <= j < i ==> #[trigger] hay@.subrange(j, j + m) != needle@,
        ensures
            forall|j: int| 0 <= j <= last ==> #[trigger] hay@.subrange(j, j + m) != needle@,
        decreases last - i,
    {
        if str_eq(hay.substring_char(i, i + m), needle) {
            assert(hay@.subrange(i as int, i + m) == needle@);
            return true;
        }
        if i == last {
            break;
        }
        i = i + 1;
    }
    proof {
        if contains_text(hay@, needle@) {
            let j = choose|j: int|
                0 <= j && j + needle@.len() <= hay@.len() && #[trigger] hay@.subrange(j, j + needle@.len())
                    == needle@;
            assert(hay@.subrange(j, j + m) != needle@);
        }
    }
    false
}

/// Whether a stack resource is a Lambda function chosen for benchmarking: its
/// physical id matches the regex when one is given (a regex that does not
/// compile matches nothing), else contains the select pattern.
pub open spec fn selected_function(
    resource_type: Option<Seq<char>>,
    physical_id: Option<Seq<char>>,
    select_pattern: Seq<char>,
    select_regex: Option<Seq<char>>,
) -> bool {
    &&& resource_type == Some("AWS::Lambda::Function"@)
    &&& physical_id is Some
    &&& match select_regex {
        Some(re) => regex_match_result(re, physical_id->Some_0) == Some(true),
        None => contains_text(physical_id->Some_0, select_pattern),
    }
}

/// The physical ids of the selected functions, in resource order.
pub open spec fn selected_functions_spec(
    resources: Seq<(Option<Seq<char>>, Option<Seq<char>>)>,
    select_pattern: Seq<char>,
    select_regex: Option<Seq<char>>,
) -> Seq<Seq<char>>
    decreases resources.len(),
{
    if resources.len() == 0 {
        Seq::empty()
    } else {
        let rest = selected_functions_spec(resources.drop_last(), select_pattern, select_regex);
        let (t, id) = resources.last();
        if selected_function(t, id, select_pattern, select_regex) {
            rest.push(id->Some_0)
        } else {
            rest
        }
    }
}

/// Picks, from `(resource type, physical id)` pairs of a stack's resources, the
/// Lambda functions to benchmark (see `selected_function`).
pub fn select_stack_functions(
    resources: &Vec<(Option<String>, Option<String>)>,
    select_pattern: &str,
    select_regex: &Option<String>,
) -> (r: Vec<String>)
    ensures
        seqs_of(r@) == selected_functions_spec(
            crate::livetrace::discovery::resource_views(resources@),
            select_pattern@,
            opt_seq(*select_regex),
        ),
{
    let ghost rv = crate::livetrace::discovery::resource_views(resources@);
    let mut out: Vec<String> = Vec::new();
    let mut i: usize = 0;
    assert(rv.take(0) =~= Seq::<(Option<Seq<char>>, Option<Seq<char>>)>::empty());
    assert(seqs_of(out@) =~= Seq::<Seq<char>>::empty());
    while i < resources.len()
        invariant
            rv == crate::livetrace::discovery::resource_views(resources@),
            i <= resources@.len(),
            seqs_of(out@) == selected_functions_spec(
                rv.take(i as int),
                select_pattern@,
                opt_seq(*select_regex),
            ),
        decreases resources@.len() - i,
    {
        assert(rv.take(i + 1).drop_last() =~= rv.take(i as int));
        let (t, id) = (&resources[i].0, &resources[i].1);
        let is_function = match t {
            Some(t) => str_eq(t.as_str(), "AWS::Lambda::Function"),
            None => false,
        };
        if is_function {
            if let Some(id) = id {
                let matches = match select_regex {
                    Some(re) => match regex_is_match(re.as_str(), id.as_str()) {
                        Some(b) => b,
                        None => false,
                    },
                    None => contains_substring(id.as_str(), select_pattern),
                };
                if matches {
                    out.push(id.clone());
                }
            }
        }
        assert(seqs_of(out@) =~= selected_functions_spec(
            rv.take(i + 1),
            select_pattern@,
            opt_seq(*select_regex),
        ));
        i = i + 1;
    }
    assert(rv.take(i as int) =~= rv);
    out
}

} // verus!
