//! Paths and names of the HTML reports: chart directory names, the relative
//! path back to the report root, the entries of index pages, and the order of
//! the memory-size directories.
use vstd::prelude::*;
use vstd::string::*;
use crate::text::{parse_u64_range, parse_u64_spec, push_char, seqs_of};

verus! {

/// `snake_case` to `kebab-case`: every `_` becomes `-`.
pub open spec fn snake_to_kebab_spec(s: Seq<char>) -> Seq<char> {
    s.map_values(|c: char| if c == '_' { '-' } else { c })
}

pub fn snake_to_kebab(input: &str) -> (r: String)
    ensures
        r@ == snake_to_kebab_spec(input@),
{
    let n = input.unicode_len();
    let mut out = String::new();
    let mut i: usize = 0;
    while i < n
        invariant
            n == input@.len(),
            i <= n,
            out@ == snake_to_kebab_spec(input@.take(i as int)),
        decreases n - i,
    {
        let c = input.get_char(i);
        if c == '_' {
            push_char(&mut out, '-');
        } else {
            push_char(&mut out, c);
        }
        assert(snake_to_kebab_spec(input@.take(i + 1)) =~= snake_to_kebab_spec(
            input@.take(i as int),
        ).push(if c == '_' {
            '-'
        } else {
            c
        }));
        i = i + 1;
    }
    assert(input@.take(n as int) =~= input@);
    out
}

/// The number of components `std::path::Path::components` yields for a path.
pub uninterp spec fn path_components_count(path: Seq<char>) -> nat;

/// `Path::new(path).components().count()`, named by `path_components_count`.
#[verifier::external_body]
fn count_path_components(path: &str) -> (n: usize)
    ensures
        n == path_components_count(path@),
{
    std::path::Path::new(path).components().count()
}

/// `../` repeated `n` times.
pub open spec fn parent_steps(n: nat) -> Seq<char>
    decreases n,
{
    if n == 0 {
        Seq::empty()
    } else {
        parent_steps((n - 1) as nat) + "../"@
    }
}

/// How deep a chart page lies below the report root, for a directory of
/// `components` path components: the page is one level below the directory,
/// and at most three levels are climbed.
pub open spec fn report_depth(components: nat) -> nat {
    if components == 0 {
        0
    } else if components + 1 < 3 {
        (components + 1) as nat
    } else {
        3
    }
}

/// The relative path from a chart page back to the report root.
pub fn base_path_for_depth(components: usize) -> (r: String)
    ensures
        r@ == parent_steps(report_depth(components as nat)),
{
    let depth: usize = if components == 0 {
        0
    } else if components < 2 {
        components + 1
    } else {
        3
    };
    let mut s = String::new();
    let mut i: usize = 0;
    proof {
        reveal_strlit("../");
    }
    while i < depth
        invariant
            i <= depth,
            s@ == parent_steps(i as nat),
        decreases depth - i,
    {
        s.append("../");
        i = i + 1;
    }
    s
}

/// A base URL with a trailing `/` added when missing.
pub open spec fn with_trailing_slash(base: Seq<char>) -> Seq<char> {
    if base.len() > 0 && base.last() == '/' {
        base
    } else {
        base.push('/')
    }
}

/// The base path of a chart page's links: the given base URL (ending in `/`),
/// else the relative path back to the report root from `current_dir` (see
/// `report_depth`). It never fails.
pub fn calculate_base_path(current_dir: &str, base_url: Option<&str>) -> (r: Result<String, String>)
    ensures
        r is Ok,
        match base_url {
            Some(b) => r->Ok_0@ == with_trailing_slash(b@),
            None => r->Ok_0@ == parent_steps(report_depth(path_components_count(current_dir@))),
        },
{
    match base_url {
        Some(b) => {
            let mut s = String::from_str(b);
            let n = b.unicode_len();
            if n == 0 || b.get_char(n - 1) != '/' {
                push_char(&mut s, '/');
            }
            Ok(s)
        },
        None => Ok(base_path_for_depth(count_path_components(current_dir))),
    }
}

/// An entry of an index page.
pub struct IndexItem {
    pub title: String,
    pub subtitle: Option<String>,
    pub path: String,
    pub metadata: Vec<(String, String)>,
}

impl IndexItem {
    /// An entry with a title and a link, nothing else.
    pub fn new(title: String, path: String) -> (r: Self)
        ensures
            r.title == title,
            r.path == path,
            r.subtitle is None,
            r.metadata@.len() == 0,
    {
        IndexItem { title, subtitle: None, path, metadata: Vec::new() }
    }

    /// The entry with a subtitle.
    pub fn with_subtitle(self, subtitle: String) -> (r: Self)
        ensures
            r.title == self.title,
            r.path == self.path,
            r.subtitle == Some(subtitle),
            r.metadata == self.metadata,
    {
        IndexItem { subtitle: Some(subtitle), ..self }
    }

    /// The entry with one more `(label, value)` line of metadata, at the end.
    pub fn with_metadata(self, label: String, value: String) -> (r: Self)
        ensures
            r.title == self.title,
            r.path == self.path,
            r.subtitle == self.subtitle,
            r.metadata@ == self.metadata@.push((label, value)),
    {
        let mut item = self;
        item.metadata.push((label, value));
        item
    }
}

/// A name with every trailing `mb` removed, as `str::trim_end_matches("mb")`.
pub open spec fn trim_mb(s: Seq<char>) -> Seq<char>
    decreases s.len(),
{
    if s.len() >= 2 && s[s.len() - 2] == 'm' && s[s.len() - 1] == 'b' {
        trim_mb(s.subrange(0, s.len() - 2))
    } else {
        s
    }
}

/// The sort key of a memory-size directory such as `128mb`: its number, or
/// `u32::MAX` when it is not a number (so such names come last).
pub open spec fn subgroup_key(name: Seq<char>) -> u32 {
    match parse_u64_spec(trim_mb(name)) {
        Some(v) => if v <= u32::MAX {
            v as u32
        } else {
            u32::MAX
        },
        None => u32::MAX,
    }
}

pub fn subgroup_sort_key(name: &str) -> (k: u32)
    ensures
        k == subgroup_key(name@),
{
    let n = name.unicode_len();
    let mut e: usize = n;
    assert(name@.subrange(0, n as int) =~= name@);
    while e >= 2 && name.get_char(e - 2) == 'm' && name.get_char(e - 1) == 'b'
        invariant
            e <= n,
            n == name@.len(),
            trim_mb(name@) == trim_mb(name@.subrange(0, e as int)),
        decreases e,
    {
        let ghost t = name@.subrange(0, e as int);
        assert(t.subrange(0, t.len() - 2) =~= name@.subrange(0, e - 2));
        e = e - 2;
    }
    proof {
        let t = name@.subrange(0, e as int);
        if e >= 2 {
            assert(t[t.len() - 2] == name@[e - 2]);
            assert(t[t.len() - 1] == name@[e - 1]);
        }
        assert(trim_mb(t) == t);
    }
    match parse_u64_range(name, 0, e) {
        Some(v) => if v <= 4294967295u64 {
            v as u32
        } else {
            u32::MAX
        },
        None => u32::MAX,
    }
}

/// `x` put into `sorted` after every element whose key is not larger.
pub open spec fn insert_by_key(sorted: Seq<Seq<char>>, x: Seq<char>) -> Seq<Seq<char>>
    decreases sorted.len(),
{
    if sorted.len() == 0 {
        seq![x]
    } else if subgroup_key(sorted.last()) <= subgroup_key(x) {
        sorted.push(x)
    } else {
        insert_by_key(sorted.drop_last(), x).push(sorted.last())
    }
}

/// The stable sort of names by `subgroup_key` (as `slice::sort_by_key`):
/// names are taken in order and each is placed after every name with a key
/// not larger than its own.
pub open spec fn sort_by_subgroup_key(s: Seq<Seq<char>>) -> Seq<Seq<char>>
    decreases s.len(),
{
    if s.len() == 0 {
        Seq::empty()
    } else {
        insert_by_key(sort_by_subgroup_key(s.drop_last()), s.last())
    }
}

/// Keys in ascending order.
pub open spec fn sorted_by_key(s: Seq<Seq<char>>) -> bool {
    forall|a: int, b: int|
        0 <= a < b < s.len() ==> subgroup_key(#[trigger] s[a]) <= subgroup_key(#[trigger] s[b])
}

proof fn lemma_insert_split(sorted: Seq<Seq<char>>, x: Seq<char>, j: int)
    requires
        0 <= j <= sorted.len(),
        j == 0 || subgroup_key(sorted[j - 1]) <= subgroup_key(x),
        forall|k: int| j <= k < sorted.len() ==> subgroup_key(#[trigger] sorted[k]) > subgroup_key(x),
    ensures
        insert_by_key(sorted, x) == sorted.take(j).push(x) + sorted.skip(j),
    decreases sorted.len(),
{
    if sorted.len() == 0 {
        assert(sorted.take(j).push(x) + sorted.skip(j) =~= seq![x]);
    } else if j == sorted.len() {
        assert(sorted.take(j) =~= sorted);
        assert(sorted.take(j).push(x) + sorted.skip(j) =~= sorted.push(x));
    } else {
        let d = sorted.drop_last();
        assert forall|k: int| j <= k < d.len() implies subgroup_key(#[trigger] d[k]) > subgroup_key(x) by {
            assert(d[k] == sorted[k]);
        }
        if j > 0 {
            assert(d[j - 1] == sorted[j - 1]);
        }
        lemma_insert_split(d, x, j);
        assert(sorted.take(j).push(x) + sorted.skip(j) =~= (d.take(j).push(x) + d.skip(j)).push(
            sorted.last(),
        ));
    }
}

/// Inserting into a sorted list keeps it sorted and adds exactly `x`.
proof fn lemma_insert_sorted(sorted: Seq<Seq<char>>, x: Seq<char>)
    requires
        sorted_by_key(sorted),
    ensures
        sorted_by_key(insert_by_key(sorted, x)),
        insert_by_key(sorted, x).to_multiset() == sorted.to_multiset().insert(x),
    decreases sorted.len(),
{
    broadcast use vstd::seq_lib::group_to_multiset_ensures;

    if sorted.len() == 0 {
        assert(insert_by_key(sorted, x) =~= seq![x]);
        assert(seq![x] =~= Seq::<Seq<char>>::empty().push(x));
    } else if subgroup_key(sorted.last()) <= subgroup_key(x) {
        let r = sorted.push(x);
        assert forall|a: int, b: int| 0 <= a < b < r.len() implies subgroup_key(#[trigger] r[a])
            <= subgroup_key(#[trigger] r[b]) by {
            if b == r.len() - 1 {
                if a < sorted.len() - 1 {
                    assert(subgroup_key(sorted[a]) <= subgroup_key(sorted[sorted.len() - 1]));
                }
            }
        }
    } else {
        let d = sorted.drop_last();
        assert(sorted_by_key(d)) by {
            assert forall|a: int, b: int| 0 <= a < b < d.len() implies subgroup_key(#[trigger] d[a])
                <= subgroup_key(#[trigger] d[b]) by {
                assert(d[a] == sorted[a] && d[b] == sorted[b]);
            }
        }
        lemma_insert_sorted(d, x);
        let i = insert_by_key(d, x);
        let r = i.push(sorted.last());
        assert(i.to_multiset().contains(x));
        assert forall|a: int, b: int| 0 <= a < b < r.len() implies subgroup_key(#[trigger] r[a])
            <= subgroup_key(#[trigger] r[b]) by {
            if b == r.len() - 1 {
                let y = r[a];
                assert(i.contains(y));
                assert(i.to_multiset().count(y) > 0);
                assert(d.to_multiset().insert(x).count(y) > 0);
                if y != x {
                    assert(d.to_multiset().count(y) > 0);
                    assert(d.contains(y));
                    let p = choose|p: int| 0 <= p < d.len() && d[p] == y;
                    assert(sorted[p] == y);
                    assert(subgroup_key(sorted[p]) <= subgroup_key(sorted[sorted.len() - 1]));
                }
            }
        }
        assert(sorted =~= d.push(sorted.last()));
    }
}

/// The stable sort by key is sorted and holds the same names, each as often.
pub proof fn lemma_sort_by_subgroup_key(s: Seq<Seq<char>>)
    ensures
        sorted_by_key(sort_by_subgroup_key(s)),
        sort_by_subgroup_key(s).to_multiset() == s.to_multiset(),
    decreases s.len(),
{
    broadcast use vstd::seq_lib::group_to_multiset_ensures;

    if s.len() > 0 {
        lemma_sort_by_subgroup_key(s.drop_last());
        lemma_insert_sorted(sort_by_subgroup_key(s.drop_last()), s.last());
        assert(s =~= s.drop_last().push(s.last()));
    }
}

/// Orders memory-size directory names by their number (see
/// `sort_by_subgroup_key`).
pub fn sort_subgroups(names: Vec<String>) -> (r: Vec<String>)
    ensures
        seqs_of(r@) == sort_by_subgroup_key(seqs_of(names@)),
{
    let ghost sv = seqs_of(names@);
    let mut out: Vec<String> = Vec::new();
    let mut keys: Vec<u32> = Vec::new();
    let mut rest = names;
    let ghost n = sv.len();
    assert(seqs_of(rest@) =~= sv.subrange(0, n as int));
    assert(sv.take(0) =~= Seq::<Seq<char>>::empty());
    assert(seqs_of(out@) =~= Seq::<Seq<char>>::empty());
    while rest.len() > 0
        invariant
            n == sv.len(),
            rest@.len() <= n,
            seqs_of(rest@) == sv.subrange(n - rest@.len(), n as int),
            seqs_of(out@) == sort_by_subgroup_key(sv.take(n - rest@.len())),
            keys@.len() == out@.len(),
            forall|k: int| 0 <= k < keys@.len() ==> keys@[k] == subgroup_key(#[trigger] out@[k]@),
        decreases rest@.len(),
    {
        let ghost i = n - rest@.len();
        let ghost old_rest = rest@;
        assert(seqs_of(old_rest)[0] == old_rest[0]@);
        let x = rest.remove(0);
        assert(seqs_of(rest@) =~= seqs_of(old_rest).subrange(1, old_rest.len() as int));
        assert(x@ == sv[i]);
        let kx = subgroup_sort_key(x.as_str());
        let ghost sorted = seqs_of(out@);
        let mut j = out.len();
        while j > 0 && keys[j - 1] > kx
            invariant
                j <= out@.len(),
                keys@.len() == out@.len(),
                forall|k: int| 0 <= k < keys@.len() ==> keys@[k] == subgroup_key(#[trigger] out@[k]@),
                sorted == seqs_of(out@),
                kx == subgroup_key(x@),
                forall|k: int| j <= k < sorted.len() ==> subgroup_key(#[trigger] sorted[k]) > kx,
            decreases j,
        {
            assert(sorted[j - 1] == out@[j - 1]@);
            j = j - 1;
        }
        proof {
            if j > 0 {
                assert(sorted[j - 1] == out@[j - 1]@);
            }
            lemma_insert_split(sorted, x@, j as int);
            assert(sv.take(i + 1).drop_last() =~= sv.take(i));
            assert(sv.take(i + 1).last() == sv[i]);
        }
        let ghost before = out@;
        let ghost kbefore = keys@;
        out.insert(j, x);
        keys.insert(j, kx);
        proof {
            assert(seqs_of(out@) =~= sorted.take(j as int).push(x@) + sorted.skip(j as int));
            assert forall|k: int| 0 <= k < keys@.len() implies keys@[k] == subgroup_key(
                #[trigger] out@[k]@,
            ) by {
                if k < j {
                    assert(out@[k] == before[k] && keys@[k] == kbefore[k]);
                } else if k > j {
                    assert(out@[k] == before[k - 1] && keys@[k] == kbefore[k - 1]);
                }
            }
        }
    }
    assert(sv.take(n as int) =~= sv);
    out
}

} // verus!
