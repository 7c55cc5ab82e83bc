//! The scrape procedures: from a normalized page to task records, and from
//! a login response to the session cookie.
use vstd::prelude::*;
use crate::dom::{attr_of, attribute, node_at_path, opt_view, resolve, same_chars, text, text_of, Document, NodeMatch};
use crate::query::{evaluate, evaluate_relative, evaluate_relative_spec, evaluate_spec, PathExpr};

verus! {

/// What can end a procedure.
#[derive(Debug, PartialEq, Eq, Structural)]
pub enum ScrapeError {
    /// A required setting (host or session cookie) is missing.
    Configuration,
    /// The request or the response failed on the network.
    Transport,
    /// The login answered without a session cookie.
    Authentication,
    /// A page lacks a section the queries expect, or an identifier on it
    /// does not have the expected shape.
    PageStructure,
}

/// A task as read from the pages.
pub struct TaskRecord {
    pub id: u32,
    pub name: String,
    pub description: Option<String>,
}

impl View for TaskRecord {
    type V = (u32, Seq<char>, Option<Seq<char>>);

    open spec fn view(&self) -> Self::V {
        (self.id, self.name@, opt_view(self.description))
    }
}

/// The fixed queries of the two page layouts, and the pattern of a task row's
/// identifier, whose second group is the task's id.
pub struct QueryPlans {
    pub task_rows: PathExpr,
    pub task_name: PathExpr,
    pub detail_name: PathExpr,
    pub detail_description: PathExpr,
    pub task_id_pattern: String,
}

/// The text of group `group` of the leftmost match of the regular expression
/// `pattern` in `text`; `None` where the pattern is invalid, nothing matches,
/// or the group took no part in the match.
pub uninterp spec fn regex_capture(pattern: Seq<char>, text: Seq<char>, group: nat) -> Option<Seq<char>>;

/// Relies on regex::Regex::new, Regex::captures and Captures::get: the text
/// of one capture group of the leftmost match, as `regex_capture` names it.
#[verifier::external_body]
fn capture_group(pattern: &str, text: &str, group: usize) -> (r: Option<String>)
    ensures
        opt_view(r) == regex_capture(pattern@, text@, group as nat),
{
    match regex::Regex::new(pattern) {
        Ok(re) => match re.captures(text) {
            Some(c) => match c.get(group) {
                Some(m) => Some(m.as_str().to_string()),
                None => None,
            },
            None => None,
        },
        Err(_) => None,
    }
}

/// Whether `c` is an ASCII decimal digit.
pub open spec fn is_digit(c: char) -> bool {
    48 <= (c as u32) <= 57
}

/// The value of a sequence of decimal digits, most significant first.
pub open spec fn decimal_value(s: Seq<char>) -> int
    decreases s.len(),
{
    if s.len() == 0 {
        0
    } else {
        10 * decimal_value(s.drop_last()) + ((s.last() as u32) - 48)
    }
}

/// The `u32` that `s` writes in decimal: one or more ASCII digits whose value
/// fits; `None` for anything else.
pub open spec fn decimal_u32(s: Seq<char>) -> Option<u32> {
    if s.len() > 0 && (forall|i: int| 0 <= i < s.len() ==> is_digit(#[trigger] s[i]))
        && decimal_value(s) <= u32::MAX {
        Some(decimal_value(s) as u32)
    } else {
        None
    }
}

/// A longer run of digits never has a smaller value.
pub proof fn lemma_decimal_value_grows(s: Seq<char>, i: int)
    requires
        0 <= i <= s.len(),
        forall|k: int| 0 <= k < s.len() ==> is_digit(#[trigger] s[k]),
    ensures
        decimal_value(s.take(i)) <= decimal_value(s),
    decreases s.len() - i,
{
    if i < s.len() {
        lemma_decimal_value_grows(s, i + 1);
        assert(s.take(i + 1).drop_last() =~= s.take(i));
        assert(decimal_value(s.take(i)) >= 0) by {
            lemma_decimal_value_nonneg(s.take(i));
        }
    } else {
        assert(s.take(i) =~= s);
    }
}

/// The value of a run of digits is never negative.
pub proof fn lemma_decimal_value_nonneg(s: Seq<char>)
    requires
        forall|k: int| 0 <= k < s.len() ==> is_digit(#[trigger] s[k]),
    ensures
        decimal_value(s) >= 0,
    decreases s.len(),
{
    if s.len() > 0 {
        lemma_decimal_value_nonneg(s.drop_last());
    }
}

/// Reads a task id written in decimal ASCII digits.
pub fn parse_decimal_u32(s: &str) -> (r: Option<u32>)
    ensures
        r == decimal_u32(s@),
{
    let n = s.unicode_len();
    if n == 0 {
        return None;
    }
    let mut v: u64 = 0;
    let mut i: usize = 0;
    assert(s@.take(0) =~= Seq::<char>::empty());
    while i < n
        invariant
            n == s@.len(),
            i <= n,
            forall|k: int| 0 <= k < i ==> is_digit(#[trigger] s@[k]),
            v == decimal_value(s@.take(i as int)),
            v <= u32::MAX,
        decreases n - i,
    {
        let c = s.get_char(i);
        let code = c as u32;
        if code < 48 || code > 57 {
            assert(!is_digit(s@[i as int]));
            return None;
        }
        assert(s@.take(i + 1).drop_last() =~= s@.take(i as int));
        v = v * 10 + (code - 48) as u64;
        if v > 4294967295u64 {
            proof {
                if forall|k: int| 0 <= k < s@.len() ==> is_digit(#[trigger] s@[k]) {
                    lemma_decimal_value_grows(s@, i + 1);
                }
            }
            return None;
        }
        i = i + 1;
    }
    assert(s@.take(n as int) =~= s@);
    Some(v as u32)
}

/// The attribute that holds a task row's identifier.
pub open spec fn id_key() -> Seq<char> {
    seq!['i', 'd']
}

/// What a row of the listing gives.
pub enum RowOutcome {
    /// Not a task row: it has no identifier.
    Skip,
    /// The page does not have the expected shape.
    Fail,
    /// A task, with its id and name.
    Task(u32, Seq<char>),
}

/// What the listing row at `row` gives: no identifier means no task; an
/// identifier that does not carry a decimal id in the pattern's second group,
/// or a row without a name cell, means the page has drifted.
pub open spec fn row_outcome(doc: Document, plans: QueryPlans, row: Seq<usize>) -> RowOutcome {
    match resolve(doc, row) {
        None => RowOutcome::Skip,
        Some(n) => match attr_of(n, id_key()) {
            None => RowOutcome::Skip,
            Some(ident) => match regex_capture(plans.task_id_pattern@, ident, 2) {
                None => RowOutcome::Fail,
                Some(digits) => match decimal_u32(digits) {
                    None => RowOutcome::Fail,
                    Some(id) => {
                        let names = evaluate_relative_spec(doc, row, plans.task_name);
                        if names.len() == 0 {
                            RowOutcome::Fail
                        } else {
                            match resolve(doc, names[0]) {
                                Some(cell) => RowOutcome::Task(id, text_of(cell)),
                                None => RowOutcome::Fail,
                            }
                        }
                    },
                },
            },
        },
    }
}

/// The records that the rows give, in order, or `None` where a row fails.
pub open spec fn list_outcome(doc: Document, plans: QueryPlans, rows: Seq<Seq<usize>>) -> Option<
    Seq<(u32, Seq<char>, Option<Seq<char>>)>,
>
    decreases rows.len(),
{
    if rows.len() == 0 {
        Some(Seq::empty())
    } else {
        match row_outcome(doc, plans, rows[0]) {
            RowOutcome::Fail => None,
            RowOutcome::Skip => list_outcome(doc, plans, rows.drop_first()),
            RowOutcome::Task(id, name) => match list_outcome(doc, plans, rows.drop_first()) {
                None => None,
                Some(rest) => Some(seq![(id, name, None::<Seq<char>>)] + rest),
            },
        }
    }
}

/// What listing the tasks of `doc` gives.
pub open spec fn list_tasks_spec(doc: Document, plans: QueryPlans) -> Option<
    Seq<(u32, Seq<char>, Option<Seq<char>>)>,
> {
    list_outcome(doc, plans, evaluate_spec(doc, plans.task_rows))
}

/// The views of a sequence of records.
pub open spec fn records_view(rs: Seq<TaskRecord>) -> Seq<(u32, Seq<char>, Option<Seq<char>>)> {
    rs.map_values(|t: TaskRecord| t@)
}

/// The record of one listing row, `None` for a row that is no task.
fn task_from_row(doc: &Document, plans: &QueryPlans, row: &NodeMatch) -> (r: Result<
    Option<TaskRecord>,
    ScrapeError,
>)
    ensures
        match row_outcome(*doc, *plans, row.path@) {
            RowOutcome::Skip => r is Ok && r->Ok_0 is None,
            RowOutcome::Fail => r == Err::<Option<TaskRecord>, ScrapeError>(ScrapeError::PageStructure),
            RowOutcome::Task(id, name) => r is Ok && r->Ok_0 is Some && r->Ok_0->0@ == (id, name, None::<Seq<char>>),
        },
{
    let n = match node_at_path(&doc.nodes, &row.path) {
        Some(n) => n,
        None => return Ok(None),
    };
    proof {
        reveal_strlit("id");
        assert("id"@ =~= id_key());
    }
    let ident = match attribute(n, "id") {
        Some(v) => v,
        None => return Ok(None),
    };
    let digits = match capture_group(plans.task_id_pattern.as_str(), ident.as_str(), 2) {
        Some(d) => d,
        None => return Err(ScrapeError::PageStructure),
    };
    let id = match parse_decimal_u32(digits.as_str()) {
        Some(id) => id,
        None => return Err(ScrapeError::PageStructure),
    };
    let names = evaluate_relative(doc, row, &plans.task_name);
    if names.len() == 0 {
        return Err(ScrapeError::PageStructure);
    }
    proof {
        assert(crate::query::paths_of(names@)[0] == names@[0].path@);
    }
    match text(doc, &names[0]) {
        Some(name) => Ok(Some(TaskRecord { id, name, description: None })),
        None => Err(ScrapeError::PageStructure),
    }
}

/// The tasks of a listing page, one per row that carries an identifier, in
/// document order. Fails with `PageStructure`, and gives no record at all,
/// where a row's identifier does not carry a task id or a task row lacks its
/// name cell.
pub fn list_tasks(doc: &Document, plans: &QueryPlans) -> (r: Result<Vec<TaskRecord>, ScrapeError>)
    ensures
        match r {
            Ok(v) => list_tasks_spec(*doc, *plans) == Some(records_view(v@)),
            Err(e) => e == ScrapeError::PageStructure && list_tasks_spec(*doc, *plans) is None,
        },
{
    let rows = evaluate(doc, &plans.task_rows);
    let ghost all = crate::query::paths_of(rows@);
    let mut out: Vec<TaskRecord> = Vec::new();
    let mut i: usize = 0;
    assert(all.skip(0) =~= all);
    assert(records_view(out@) + Seq::empty() =~= Seq::empty());
    while i < rows.len()
        invariant
            all == crate::query::paths_of(rows@),
            all == evaluate_spec(*doc, plans.task_rows),
            i <= rows@.len(),
            list_tasks_spec(*doc, *plans) == match list_outcome(*doc, *plans, all.skip(i as int)) {
                None => None,
                Some(rest) => Some(records_view(out@) + rest),
            },
        decreases rows@.len() - i,
    {
        let ghost tail = all.skip(i as int);
        assert(tail[0] == rows@[i as int].path@);
        assert(tail.drop_first() =~= all.skip(i + 1));
        match task_from_row(doc, plans, &rows[i]) {
            Err(e) => {
                return Err(e);
            },
            Ok(None) => {},
            Ok(Some(t)) => {
                let ghost before = out@;
                out.push(t);
                proof {
                    assert(records_view(out@) =~= records_view(before).push(t@));
                    match list_outcome(*doc, *plans, all.skip(i + 1)) {
                        None => {},
                        Some(rest) => {
                            assert(records_view(before) + (seq![t@] + rest) =~= records_view(out@) + rest);
                        },
                    }
                }
            },
        }
        i = i + 1;
    }
    assert(all.skip(rows@.len() as int) =~= Seq::empty());
    assert(records_view(out@) + Seq::empty() =~= records_view(out@));
    Ok(out)
}

/// What showing task `task_id` from its detail page `doc` gives: the text
/// of the first name match and of the first description match; `None` where
/// either query has no match.
pub open spec fn show_task_spec(doc: Document, plans: QueryPlans, task_id: u32) -> Option<
    (u32, Seq<char>, Option<Seq<char>>),
> {
    let names = evaluate_spec(doc, plans.detail_name);
    let descriptions = evaluate_spec(doc, plans.detail_description);
    if names.len() == 0 || descriptions.len() == 0 {
        None
    } else {
        match (resolve(doc, names[0]), resolve(doc, descriptions[0])) {
            (Some(a), Some(b)) => Some((task_id, text_of(a), Some(text_of(b)))),
            _ => None,
        }
    }
}

/// The text of the first match of `expr` in `doc`, or `PageStructure` where
/// it has none.
fn first_text(doc: &Document, expr: &PathExpr) -> (r: Result<String, ScrapeError>)
    ensures
        ({
            let ms = evaluate_spec(*doc, *expr);
            match r {
                Ok(t) => ms.len() > 0 && resolve(*doc, ms[0]) == Some(
                    resolve(*doc, ms[0])->0,
                ) && t@ == text_of(resolve(*doc, ms[0])->0),
                Err(e) => e == ScrapeError::PageStructure && (ms.len() == 0 || resolve(*doc, ms[0]) is None),
            }
        }),
{
    let ms = evaluate(doc, expr);
    if ms.len() == 0 {
        return Err(ScrapeError::PageStructure);
    }
    assert(crate::query::paths_of(ms@)[0] == ms@[0].path@);
    match text(doc, &ms[0]) {
        Some(t) => Ok(t),
        None => Err(ScrapeError::PageStructure),
    }
}

/// The task `task_id` as its detail page `doc` shows it, with its
/// description. Fails with `PageStructure` where the page lacks the name or
/// the description section.
pub fn show_task(doc: &Document, plans: &QueryPlans, task_id: u32) -> (r: Result<TaskRecord, ScrapeError>)
    ensures
        match r {
            Ok(t) => show_task_spec(*doc, *plans, task_id) == Some(t@),
            Err(e) => e == ScrapeError::PageStructure && show_task_spec(*doc, *plans, task_id) is None,
        },
{
    let name = match first_text(doc, &plans.detail_name) {
        Ok(t) => t,
        Err(e) => return Err(e),
    };
    let description = match first_text(doc, &plans.detail_description) {
        Ok(t) => t,
        Err(e) => return Err(e),
    };
    Ok(TaskRecord { id: task_id, name, description: Some(description) })
}

/// A cookie that a response set.
pub struct Cookie {
    pub name: String,
    pub value: String,
}

/// The name of the application's session cookie.
pub open spec fn session_cookie_name() -> Seq<char> {
    seq!['w', 'e', 'b', '2', 'p', 'r', 'o', 'j', 'e', 'c', 't']
}

/// The value of the first cookie of `cs` named `name`.
pub open spec fn find_cookie(cs: Seq<Cookie>, name: Seq<char>) -> Option<Seq<char>>
    decreases cs.len(),
{
    if cs.len() == 0 {
        None
    } else if cs[0].name@ == name {
        Some(cs[0].value@)
    } else {
        find_cookie(cs.drop_first(), name)
    }
}

/// The session that a login response opened: the value of the first session
/// cookie among the cookies it set. Fails with `Authentication` where it set
/// none.
pub fn session_cookie(cookies: &Vec<Cookie>) -> (r: Result<String, ScrapeError>)
    ensures
        match r {
            Ok(v) => find_cookie(cookies@, session_cookie_name()) == Some(v@),
            Err(e) => e == ScrapeError::Authentication && find_cookie(cookies@, session_cookie_name()) is None,
        },
{
    proof {
        reveal_strlit("web2project");
        assert("web2project"@ =~= session_cookie_name());
    }
    let mut i: usize = 0;
    assert(cookies@.skip(0) =~= cookies@);
    while i < cookies.len()
        invariant
            "web2project"@ == session_cookie_name(),
            i <= cookies@.len(),
            find_cookie(cookies@, session_cookie_name()) == find_cookie(cookies@.skip(i as int), session_cookie_name()),
        decreases cookies@.len() - i,
    {
        assert(cookies@.skip(i as int)[0] == cookies@[i as int]);
        if same_chars(cookies[i].name.as_str(), "web2project") {
            return Ok(cookies[i].value.clone());
        }
        assert(cookies@.skip(i as int).drop_first() =~= cookies@.skip(i + 1));
        i = i + 1;
    }
    Err(ScrapeError::Authentication)
}

/// The settings every authenticated procedure needs.
pub struct Config {
    pub host: String,
    pub cookie: String,
}

impl Config {
    /// The configuration made of a host and a session cookie; fails with
    /// `Configuration` where either is missing.
    pub fn new(host: Option<String>, cookie: Option<String>) -> (r: Result<Config, ScrapeError>)
        ensures
            match r {
                Ok(c) => host == Some(c.host) && cookie == Some(c.cookie),
                Err(e) => e == ScrapeError::Configuration && (host is None || cookie is None),
            },
    {
        match (host, cookie) {
            (Some(host), Some(cookie)) => Ok(Config { host, cookie }),
            _ => Err(ScrapeError::Configuration),
        }
    }
}

/// One row whose identifier is malformed, or which lacks its name cell,
/// fails the whole listing: no partial list of records comes out.
pub proof fn lemma_failing_row_fails_listing(
    doc: Document,
    plans: QueryPlans,
    rows: Seq<Seq<usize>>,
    i: int,
)
    requires
        0 <= i < rows.len(),
        row_outcome(doc, plans, rows[i]) == RowOutcome::Fail,
    ensures
        list_outcome(doc, plans, rows) is None,
    decreases i,
{
    if i > 0 {
        assert(rows.drop_first()[i - 1] == rows[i]);
        lemma_failing_row_fails_listing(doc, plans, rows.drop_first(), i - 1);
    }
}

/// Rows without an identifier add no record: the listing is what the other
/// rows give.
pub proof fn lemma_rows_without_identifier_are_skipped(
    doc: Document,
    plans: QueryPlans,
    rows: Seq<Seq<usize>>,
    row: Seq<usize>,
)
    requires
        resolve(doc, row) is Some,
        attr_of(resolve(doc, row)->0, id_key()) is None,
    ensures
        list_outcome(doc, plans, seq![row] + rows) == list_outcome(doc, plans, rows),
{
    assert((seq![row] + rows).drop_first() =~= rows);
}

/// Of three rows where the middle one has no identifier, the listing holds
/// the records of the first and the third, in that order.
pub proof fn lemma_listing_skips_middle_row(
    doc: Document,
    plans: QueryPlans,
    first: Seq<usize>,
    middle: Seq<usize>,
    last: Seq<usize>,
)
    requires
        row_outcome(doc, plans, first) is Task,
        row_outcome(doc, plans, middle) == RowOutcome::Skip,
        row_outcome(doc, plans, last) is Task,
    ensures
        list_outcome(doc, plans, seq![first, middle, last]) == Some(
            seq![
                (row_outcome(doc, plans, first)->Task_0, row_outcome(doc, plans, first)->Task_1, None::<Seq<char>>),
                (row_outcome(doc, plans, last)->Task_0, row_outcome(doc, plans, last)->Task_1, None::<Seq<char>>),
            ],
        ),
{
    let rows = seq![first, middle, last];
    assert(rows.drop_first() =~= seq![middle, last]);
    assert(seq![middle, last].drop_first() =~= seq![last]);
    assert(seq![last].drop_first() =~= Seq::<Seq<usize>>::empty());
    let t1 = (row_outcome(doc, plans, first)->Task_0, row_outcome(doc, plans, first)->Task_1, None::<Seq<char>>);
    let t3 = (row_outcome(doc, plans, last)->Task_0, row_outcome(doc, plans, last)->Task_1, None::<Seq<char>>);
    assert(list_outcome(doc, plans, Seq::<Seq<usize>>::empty()) == Some(Seq::<(u32, Seq<char>, Option<Seq<char>>)>::empty()));
    assert(seq![last][0] == last);
    assert(seq![t3] + Seq::empty() =~= seq![t3]);
    assert(list_outcome(doc, plans, seq![last]) == Some(seq![t3]));
    assert(seq![middle, last][0] == middle);
    assert(list_outcome(doc, plans, seq![middle, last]) == Some(seq![t3]));
    assert(rows[0] == first);
    assert(seq![t1] + seq![t3] =~= seq![t1, t3]);
}

} // verus!
