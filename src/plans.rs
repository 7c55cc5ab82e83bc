//! The fixed queries of the two page layouts, built once.
use vstd::prelude::*;
use crate::query::{PathExpr, Step};
use crate::scrape::{decimal_u32, parse_decimal_u32, QueryPlans};

verus! {

/// A step as a tag name and an optional position.
pub open spec fn step_view(s: Step) -> (Seq<char>, Option<usize>) {
    (s.name@, s.position)
}

/// The steps of an expression, as tag names and optional positions.
pub open spec fn steps_view(e: PathExpr) -> Seq<(Seq<char>, Option<usize>)> {
    e.steps@.map_values(|s: Step| step_view(s))
}

/// Whether `c` may stand in a tag name of a path.
pub open spec fn name_char(c: char) -> bool {
    c != '/' && c != '[' && c != ']'
}

/// Whether every character of `t` may stand in a tag name.
pub open spec fn all_name_chars(t: Seq<char>) -> bool {
    forall|i: int| 0 <= i < t.len() ==> name_char(#[trigger] t[i])
}

/// The index of the first `c` in `t` at or after `k`, or the length of `t`.
pub open spec fn index_from(t: Seq<char>, c: char, k: int) -> int
    decreases t.len() - k,
{
    if k < 0 || k >= t.len() {
        t.len() as int
    } else if t[k] == c {
        k
    } else {
        index_from(t, c, k + 1)
    }
}

/// One step written `name` or `name[k]`, with `k` a decimal position.
pub open spec fn parse_step(t: Seq<char>) -> Option<(Seq<char>, Option<usize>)> {
    let b = index_from(t, '[', 0);
    if b == t.len() {
        if t.len() > 0 && all_name_chars(t) {
            Some((t, None))
        } else {
            None
        }
    } else if b > 0 && t.len() >= b + 2 && t.last() == ']' && all_name_chars(t.subrange(0, b)) {
        match decimal_u32(t.subrange(b + 1, t.len() - 1)) {
            Some(k) => Some((t.subrange(0, b), Some(k as usize))),
            None => None,
        }
    } else {
        None
    }
}

/// The steps written in `s` from index `i` on, each after a `/`.
pub open spec fn parse_steps_from(s: Seq<char>, i: int) -> Option<Seq<(Seq<char>, Option<usize>)>>
    decreases s.len() - i,
{
    if i < 0 || i >= s.len() {
        Some(Seq::empty())
    } else if s[i] != '/' {
        None
    } else {
        let j = index_from(s, '/', i + 1);
        if j <= i || j > s.len() {
            None
        } else {
            match parse_step(s.subrange(i + 1, j)) {
                None => None,
                Some(st) => match parse_steps_from(s, j) {
                    None => None,
                    Some(rest) => Some(seq![st] + rest),
                },
            }
        }
    }
}

/// The steps of the path expression `s`: one or more steps, each `/name` or
/// `/name[k]`.
pub open spec fn parse_path_spec(s: Seq<char>) -> Option<Seq<(Seq<char>, Option<usize>)>> {
    if s.len() == 0 {
        None
    } else {
        parse_steps_from(s, 0)
    }
}

/// The index of the first `c` in `t` at or after `k`, or the length of `t`.
fn find_char(t: &str, n: usize, c: char, k: usize) -> (r: usize)
    requires
        n == t@.len(),
        k <= n,
    ensures
        r as int == index_from(t@, c, k as int),
        k <= r <= n,
{
    let mut j: usize = k;
    while j < n && t.get_char(j) != c
        invariant
            n == t@.len(),
            k <= j <= n,
            index_from(t@, c, k as int) == index_from(t@, c, j as int),
        decreases n - j,
    {
        j = j + 1;
    }
    j
}

/// Whether every character of `t` in `[0, k)` may stand in a tag name.
fn name_chars_before(t: &str, k: usize) -> (r: bool)
    requires
        k <= t@.len(),
    ensures
        r == all_name_chars(t@.subrange(0, k as int)),
{
    let mut i: usize = 0;
    while i < k
        invariant
            k <= t@.len(),
            i <= k,
            forall|q: int| 0 <= q < i ==> name_char(#[trigger] t@[q]),
        decreases k - i,
    {
        let c = t.get_char(i);
        if c == '/' || c == '[' || c == ']' {
            assert(t@.subrange(0, k as int)[i as int] == c);
            return false;
        }
        i = i + 1;
    }
    assert forall|q: int| 0 <= q < k implies name_char(#[trigger] t@.subrange(0, k as int)[q]) by {
        assert(t@.subrange(0, k as int)[q] == t@[q]);
    }
    true
}

/// The step that `t` writes, as `parse_step` reads it.
fn step_from(t: &str) -> (r: Option<Step>)
    ensures
        match r {
            Some(st) => parse_step(t@) == Some(step_view(st)),
            None => parse_step(t@) is None,
        },
{
    let n = t.unicode_len();
    let b = find_char(t, n, '[', 0);
    if b == n {
        assert(t@.subrange(0, n as int) =~= t@);
        if n > 0 && name_chars_before(t, n) {
            return Some(Step { name: String::from_str(t), position: None });
        }
        return None;
    }
    if b == 0 || n - b < 2 || t.get_char(n - 1) != ']' {
        return None;
    }
    if !name_chars_before(t, b) {
        return None;
    }
    let digits = t.substring_char(b + 1, n - 1);
    match parse_decimal_u32(digits) {
        Some(k) => Some(
            Step { name: String::from_str(t.substring_char(0, b)), position: Some(k as usize) },
        ),
        None => None,
    }
}

/// Compiles the path expression `s` into its steps; `None` where `s` is not
/// one or more steps, each `/name` or `/name[k]`.
pub fn parse_path(s: &str) -> (r: Option<PathExpr>)
    ensures
        match r {
            Some(e) => parse_path_spec(s@) == Some(steps_view(e)),
            None => parse_path_spec(s@) is None,
        },
{
    let n = s.unicode_len();
    if n == 0 {
        return None;
    }
    let mut steps: Vec<Step> = Vec::new();
    let mut i: usize = 0;
    assert(steps@.map_values(|st: Step| step_view(st)) + Seq::empty() =~= Seq::empty());
    while i < n
        invariant
            n == s@.len(),
            n > 0,
            i <= n,
            parse_path_spec(s@) == match parse_steps_from(s@, i as int) {
                None => None,
                Some(rest) => Some(steps@.map_values(|st: Step| step_view(st)) + rest),
            },
        decreases n - i,
    {
        if s.get_char(i) != '/' {
            return None;
        }
        let j = find_char(s, n, '/', i + 1);
        let piece = s.substring_char(i + 1, j);
        match step_from(piece) {
            None => {
                return None;
            },
            Some(st) => {
                let ghost before = steps@;
                steps.push(st);
                proof {
                    assert(steps@.map_values(|x: Step| step_view(x)) =~= before.map_values(
                        |x: Step| step_view(x),
                    ).push(step_view(st)));
                    match parse_steps_from(s@, j as int) {
                        None => {},
                        Some(rest) => {
                            assert(before.map_values(|x: Step| step_view(x)) + (seq![step_view(st)]
                                + rest) =~= steps@.map_values(|x: Step| step_view(x)) + rest);
                        },
                    }
                }
            },
        }
        i = j;
    }
    assert(steps@.map_values(|st: Step| step_view(st)) + Seq::empty() =~= steps@.map_values(
        |st: Step| step_view(st),
    ));
    Some(PathExpr { steps })
}

/// The expression made of `parts`, each a tag name and, where given, the
/// position among the siblings of that name, counted from 1.
pub fn path_from(parts: &Vec<(&str, Option<usize>)>) -> (r: PathExpr)
    ensures
        steps_view(r) == parts@.map_values(|p: (&str, Option<usize>)| (p.0@, p.1)),
{
    let mut steps: Vec<Step> = Vec::new();
    let mut i: usize = 0;
    while i < parts.len()
        invariant
            i <= parts@.len(),
            steps@.map_values(|s: Step| step_view(s)) =~= parts@.take(i as int).map_values(
                |p: (&str, Option<usize>)| (p.0@, p.1),
            ),
        decreases parts@.len() - i,
    {
        let (name, position) = parts[i];
        let ghost before = steps@;
        let step = Step { name: String::from_str(name), position };
        assert(step_view(step) == (parts@[i as int].0@, parts@[i as int].1));
        steps.push(step);
        assert(parts@.take(i + 1) =~= parts@.take(i as int).push(parts@[i as int]));
        assert(steps@.map_values(|s: Step| step_view(s)) =~= before.map_values(|s: Step| step_view(s)).push(step_view(step)));
        i = i + 1;
    }
    assert(parts@.take(parts@.len() as int) =~= parts@);
    PathExpr { steps }
}

/// The rows of the task table on the to-do listing page.
pub open spec fn task_rows_query() -> Seq<(Seq<char>, Option<usize>)> {
    seq![
        ("html"@, None),
        ("body"@, None),
        ("table"@, None),
        ("tbody"@, None),
        ("tr"@, None),
        ("td"@, None),
        ("table"@, Some(4usize)),
        ("tbody"@, None),
        ("tr"@, None),
        ("td"@, None),
        ("table"@, None),
        ("tbody"@, None),
        ("tr"@, Some(3usize)),
        ("td"@, None),
        ("form"@, Some(2usize)),
        ("table"@, None),
        ("tbody"@, None),
        ("tr"@, None),
    ]
}

/// The link inside a listing row's name cell, relative to the row.
pub open spec fn task_name_query() -> Seq<(Seq<char>, Option<usize>)> {
    seq![
        ("td"@, Some(7usize)),
        ("span"@, None),
        ("a"@, None),
    ]
}

/// The task's name on its detail page.
pub open spec fn detail_name_query() -> Seq<(Seq<char>, Option<usize>)> {
    seq![
        ("html"@, None),
        ("body"@, None),
        ("table"@, None),
        ("tbody"@, None),
        ("tr"@, None),
        ("td"@, None),
        ("table"@, Some(4usize)),
        ("tbody"@, None),
        ("tr"@, None),
        ("td"@, Some(1usize)),
        ("table"@, None),
        ("tbody"@, None),
        ("tr"@, Some(3usize)),
        ("td"@, Some(2usize)),
        ("strong"@, None),
    ]
}

/// The task's description cell on its detail page.
pub open spec fn detail_description_query() -> Seq<(Seq<char>, Option<usize>)> {
    seq![
        ("html"@, None),
        ("body"@, None),
        ("table"@, None),
        ("tbody"@, None),
        ("tr"@, None),
        ("td"@, None),
        ("table"@, Some(4usize)),
        ("tbody"@, None),
        ("tr"@, None),
        ("td"@, Some(2usize)),
        ("table"@, None),
        ("tbody"@, None),
        ("tr"@, Some(8usize)),
        ("td"@, None),
    ]
}

/// The pattern of a listing row's identifier; its second group is the task id.
pub open spec fn task_id_pattern() -> Seq<char> {
    "project_(\\d+)_level-0-task_(\\d+)_"@
}

impl QueryPlans {
    /// The queries of the to-do listing and of the task detail page.
    pub fn standard() -> (r: QueryPlans)
        ensures
            steps_view(r.task_rows) == task_rows_query(),
            steps_view(r.task_name) == task_name_query(),
            steps_view(r.detail_name) == detail_name_query(),
            steps_view(r.detail_description) == detail_description_query(),
            r.task_id_pattern@ == task_id_pattern(),
    {
        let task_rows = path_from(&vec![
            ("html", None),
            ("body", None),
            ("table", None),
            ("tbody", None),
            ("tr", None),
            ("td", None),
            ("table", Some(4usize)),
            ("tbody", None),
            ("tr", None),
            ("td", None),
            ("table", None),
            ("tbody", None),
            ("tr", Some(3usize)),
            ("td", None),
            ("form", Some(2usize)),
            ("table", None),
            ("tbody", None),
            ("tr", None),
        ]);
        let task_name = path_from(&vec![
            ("td", Some(7usize)),
            ("span", None),
            ("a", None),
        ]);
        let detail_name = path_from(&vec![
            ("html", None),
            ("body", None),
            ("table", None),
            ("tbody", None),
            ("tr", None),
            ("td", None),
            ("table", Some(4usize)),
            ("tbody", None),
            ("tr", None),
            ("td", Some(1usize)),
            ("table", None),
            ("tbody", None),
            ("tr", Some(3usize)),
            ("td", Some(2usize)),
            ("strong", None),
        ]);
        let detail_description = path_from(&vec![
            ("html", None),
            ("body", None),
            ("table", None),
            ("tbody", None),
            ("tr", None),
            ("td", None),
            ("table", Some(4usize)),
            ("tbody", None),
            ("tr", None),
            ("td", Some(2usize)),
            ("table", None),
            ("tbody", None),
            ("tr", Some(8usize)),
            ("td", None),
        ]);
        assert(steps_view(task_rows) =~= task_rows_query());
        assert(steps_view(task_name) =~= task_name_query());
        assert(steps_view(detail_name) =~= detail_name_query());
        assert(steps_view(detail_description) =~= detail_description_query());
        QueryPlans {
            task_rows,
            task_name,
            detail_name,
            detail_description,
            task_id_pattern: String::from_str("project_(\\d+)_level-0-task_(\\d+)_"),
        }
    }
}

} // verus!
