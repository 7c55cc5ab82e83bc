use taskblaster::dom::{attribute, node_text, text, Attr, Document, Element, NodeMatch, TreeNode};
use taskblaster::html::normalize;
use taskblaster::query::{evaluate, evaluate_relative, PathExpr, Step};
use taskblaster::scrape::{
    list_tasks, parse_decimal_u32, session_cookie, show_task, Config, Cookie, QueryPlans,
    ScrapeError,
};

fn listing_page(rows: &str) -> Vec<u8> {
    format!(
        "<html><head><title>todo</title></head><body><table><tr><td>\
         <table><tr><td>a</td></tr></table><table><tr><td>b</td></tr></table>\
         <table><tr><td>c</td></tr></table>\
         <table><tr><td><table>\
         <tr><td>h1</td></tr><tr><td>h2</td></tr>\
         <tr><td><form></form><form><table>{}</table></form></td></tr>\
         </table></td></tr></table>\
         </td></tr></table></body></html>",
        rows
    )
    .into_bytes()
}

fn task_row(id: Option<&str>, name: &str) -> String {
    let attr = match id {
        Some(v) => format!(" id=\"{}\"", v),
        None => String::new(),
    };
    format!(
        "<tr{}><td>1</td><td>2</td><td>3</td><td>4</td><td>5</td><td>6</td>\
         <td><span><a href=\"#\">{}</a></span></td></tr>",
        attr, name
    )
}

fn detail_page(name: &str, description: Option<&str>) -> Vec<u8> {
    let mut right = String::new();
    if let Some(d) = description {
        for i in 1..8 {
            right.push_str(&format!("<tr><td>r{}</td></tr>", i));
        }
        right.push_str(&format!("<tr><td>{}</td></tr>", d));
    }
    format!(
        "<html><head></head><body><table><tr><td>\
         <table></table><table></table><table></table>\
         <table><tr>\
         <td><table><tr><td>x</td></tr><tr><td>y</td></tr>\
         <tr><td>Name:</td><td><strong>{}</strong></td></tr></table></td>\
         <td><table>{}</table></td>\
         </tr></table>\
         </td></tr></table></body></html>",
        name, right
    )
    .into_bytes()
}

fn element(name: &str, attrs: Vec<(&str, &str)>, children: Vec<TreeNode>) -> TreeNode {
    TreeNode::Element(Element {
        name: name.to_string(),
        attrs: attrs
            .into_iter()
            .map(|(n, v)| Attr { name: n.to_string(), value: v.to_string() })
            .collect(),
        children,
    })
}

fn step(name: &str, position: Option<usize>) -> Step {
    Step { name: name.to_string(), position }
}

#[test]
fn listing_skips_row_without_id() {
    let rows = format!(
        "{}{}{}",
        task_row(Some("project_1_level-0-task_10_a"), "First"),
        task_row(None, "Header"),
        task_row(Some("project_1_level-0-task_30_c"), "Third")
    );
    let doc = normalize(&listing_page(&rows));
    let tasks = list_tasks(&doc, &QueryPlans::standard()).unwrap();
    assert_eq!(tasks.len(), 2);
    assert_eq!(tasks[0].id, 10);
    assert_eq!(tasks[0].name, "First");
    assert_eq!(tasks[1].id, 30);
    assert_eq!(tasks[1].name, "Third");
    assert!(tasks[0].description.is_none());
}

#[test]
fn listing_takes_second_group_as_id() {
    let rows = task_row(Some("project_7_level-0-task_42_x"), "Answer");
    let doc = normalize(&listing_page(&rows));
    let tasks = list_tasks(&doc, &QueryPlans::standard()).unwrap();
    assert_eq!(tasks.len(), 1);
    assert_eq!(tasks[0].id, 42);
    assert_eq!(tasks[0].name, "Answer");
}

#[test]
fn listing_fails_on_malformed_id() {
    let rows = format!(
        "{}{}",
        task_row(Some("project_1_level-0-task_10_a"), "First"),
        task_row(Some("foo_bar"), "Broken")
    );
    let doc = normalize(&listing_page(&rows));
    let r = list_tasks(&doc, &QueryPlans::standard());
    assert!(matches!(r, Err(ScrapeError::PageStructure)));
}

#[test]
fn listing_fails_on_id_too_large() {
    let rows = task_row(Some("project_1_level-0-task_4294967296_a"), "Huge");
    let doc = normalize(&listing_page(&rows));
    assert!(matches!(list_tasks(&doc, &QueryPlans::standard()), Err(ScrapeError::PageStructure)));
}

#[test]
fn listing_of_other_page_is_empty() {
    let doc = normalize(b"<html><body><p>nothing here</p></body></html>");
    let tasks = list_tasks(&doc, &QueryPlans::standard()).unwrap();
    assert!(tasks.is_empty());
}

#[test]
fn show_task_reads_name_and_description() {
    let doc = normalize(&detail_page(
        "Fix login bug",
        Some("Users cannot log in after password reset."),
    ));
    let t = show_task(&doc, &QueryPlans::standard(), 42).unwrap();
    assert_eq!(t.id, 42);
    assert_eq!(t.name, "Fix login bug");
    assert_eq!(t.description.as_deref(), Some("Users cannot log in after password reset."));
}

#[test]
fn show_task_without_description_fails() {
    let doc = normalize(&detail_page("Fix login bug", None));
    let r = show_task(&doc, &QueryPlans::standard(), 42);
    assert!(matches!(r, Err(ScrapeError::PageStructure)));
}

#[test]
fn session_cookie_found() {
    let cookies = vec![
        Cookie { name: "other".to_string(), value: "zzz".to_string() },
        Cookie { name: "web2project".to_string(), value: "abc123".to_string() },
    ];
    assert_eq!(session_cookie(&cookies).unwrap(), "abc123");
}

#[test]
fn session_cookie_missing() {
    let cookies = vec![Cookie { name: "PHPSESSID".to_string(), value: "abc123".to_string() }];
    assert!(matches!(session_cookie(&cookies), Err(ScrapeError::Authentication)));
    assert!(matches!(session_cookie(&Vec::new()), Err(ScrapeError::Authentication)));
}

#[test]
fn normalize_gives_single_root_element() {
    let doc = normalize(b"<!DOCTYPE html><title>t</title><p>one<p>two");
    let elements: Vec<&TreeNode> =
        doc.nodes.iter().filter(|n| matches!(n, TreeNode::Element(_))).collect();
    assert_eq!(elements.len(), 1);
    match elements[0] {
        TreeNode::Element(e) => {
            assert_eq!(e.name, "html");
            let names: Vec<&str> = e
                .children
                .iter()
                .filter_map(|c| match c {
                    TreeNode::Element(x) => Some(x.name.as_str()),
                    TreeNode::Text(_) => None,
                })
                .collect();
            assert_eq!(names, vec!["head", "body"]);
        }
        TreeNode::Text(_) => panic!("root is text"),
    }
    let paras = evaluate(
        &doc,
        &PathExpr { steps: vec![step("html", None), step("body", None), step("p", None)] },
    );
    assert_eq!(paras.len(), 2);
    assert_eq!(text(&doc, &paras[1]).as_deref(), Some("two"));
}

#[test]
fn normalize_replaces_invalid_utf8() {
    let doc = normalize(b"<p>a\xffb</p>");
    let p = evaluate(
        &doc,
        &PathExpr { steps: vec![step("html", None), step("body", None), step("p", Some(1))] },
    );
    assert_eq!(text(&doc, &p[0]).as_deref(), Some("a\u{fffd}b"));
}

fn small_doc() -> Document {
    Document {
        nodes: vec![element(
            "html",
            vec![],
            vec![element(
                "body",
                vec![],
                vec![
                    element("div", vec![("id", "first")], vec![TreeNode::Text("a".to_string())]),
                    element("span", vec![], vec![]),
                    element(
                        "div",
                        vec![("class", "c"), ("id", "second")],
                        vec![
                            TreeNode::Text("b".to_string()),
                            element("i", vec![], vec![TreeNode::Text("c".to_string())]),
                            TreeNode::Text("d".to_string()),
                        ],
                    ),
                    element("div", vec![], vec![element("br", vec![], vec![])]),
                ],
            )],
        )],
    }
}

#[test]
fn evaluate_empty_expression_is_empty() {
    let doc = small_doc();
    assert!(evaluate(&doc, &PathExpr { steps: vec![] }).is_empty());
    let ctx = NodeMatch { path: vec![0] };
    assert!(evaluate_relative(&doc, &ctx, &PathExpr { steps: vec![] }).is_empty());
}

#[test]
fn evaluate_non_matching_is_empty() {
    let doc = small_doc();
    assert!(evaluate(&doc, &PathExpr { steps: vec![step("body", None)] }).is_empty());
    let e = PathExpr { steps: vec![step("html", None), step("body", None), step("div", Some(4))] };
    assert!(evaluate(&doc, &e).is_empty());
    let e = PathExpr { steps: vec![step("html", Some(0))] };
    assert!(evaluate(&doc, &e).is_empty());
}

#[test]
fn evaluate_positions_count_same_name_siblings() {
    let doc = small_doc();
    let all = PathExpr { steps: vec![step("html", None), step("body", None), step("div", None)] };
    let r = evaluate(&doc, &all);
    let paths: Vec<Vec<usize>> = r.iter().map(|m| m.path.clone()).collect();
    assert_eq!(paths, vec![vec![0, 0, 0], vec![0, 0, 2], vec![0, 0, 3]]);
    let second =
        PathExpr { steps: vec![step("html", None), step("body", None), step("div", Some(2))] };
    let r = evaluate(&doc, &second);
    assert_eq!(r.len(), 1);
    assert_eq!(r[0].path, vec![0, 0, 2]);
    assert_eq!(text(&doc, &r[0]).as_deref(), Some("bcd"));
}

#[test]
fn evaluate_relative_prefixes_context() {
    let doc = small_doc();
    let ctx = NodeMatch { path: vec![0, 0, 2] };
    let r = evaluate_relative(&doc, &ctx, &PathExpr { steps: vec![step("i", None)] });
    assert_eq!(r.len(), 1);
    assert_eq!(r[0].path, vec![0, 0, 2, 1]);
    assert_eq!(text(&doc, &r[0]).as_deref(), Some("c"));
    let bad = NodeMatch { path: vec![0, 9] };
    assert!(evaluate_relative(&doc, &bad, &PathExpr { steps: vec![step("i", None)] }).is_empty());
}

#[test]
fn attribute_absent_differs_from_empty_text() {
    let doc = small_doc();
    let html = &doc.nodes[0];
    assert_eq!(attribute(html, "missing-key"), None);
    let div = NodeMatch { path: vec![0, 0, 2] };
    let r = evaluate_relative(&doc, &NodeMatch { path: vec![0] }, &PathExpr {
        steps: vec![step("body", None), step("div", Some(2))],
    });
    assert_eq!(r[0].path, div.path);
    if let TreeNode::Element(body) = match html {
        TreeNode::Element(e) => &e.children[0],
        TreeNode::Text(_) => panic!(),
    } {
        assert_eq!(attribute(&body.children[2], "id").as_deref(), Some("second"));
        assert_eq!(attribute(&body.children[2], "class").as_deref(), Some("c"));
        assert_eq!(attribute(&body.children[2], "missing-key"), None);
        assert_eq!(node_text(&body.children[3]), "");
    }
    assert_eq!(text(&doc, &NodeMatch { path: vec![0, 0, 3] }).as_deref(), Some(""));
    assert_eq!(text(&doc, &NodeMatch { path: vec![0, 0, 7] }), None);
    assert_eq!(text(&doc, &NodeMatch { path: vec![] }), None);
}

#[test]
fn decimal_ids() {
    assert_eq!(parse_decimal_u32("42"), Some(42));
    assert_eq!(parse_decimal_u32("007"), Some(7));
    assert_eq!(parse_decimal_u32("4294967295"), Some(4294967295));
    assert_eq!(parse_decimal_u32("4294967296"), None);
    assert_eq!(parse_decimal_u32("99999999999999999999"), None);
    assert_eq!(parse_decimal_u32(""), None);
    assert_eq!(parse_decimal_u32("4a"), None);
    assert_eq!(parse_decimal_u32("+4"), None);
}

#[test]
fn standard_plans_shape() {
    let p = QueryPlans::standard();
    assert_eq!(p.task_rows.steps.len(), 18);
    assert_eq!(p.task_rows.steps[6].name, "table");
    assert_eq!(p.task_rows.steps[6].position, Some(4));
    assert_eq!(p.task_name.steps.len(), 3);
    assert_eq!(p.task_name.steps[0].position, Some(7));
    assert_eq!(p.detail_description.steps[12].position, Some(8));
    assert_eq!(p.task_id_pattern, r"project_(\d+)_level-0-task_(\d+)_");
}

#[test]
fn config_needs_host_and_cookie() {
    let c = Config::new(Some("h.example".to_string()), Some("abc".to_string())).unwrap();
    assert_eq!(c.host, "h.example");
    assert_eq!(c.cookie, "abc");
    assert!(matches!(Config::new(None, Some("abc".to_string())), Err(ScrapeError::Configuration)));
    assert!(matches!(Config::new(Some("h".to_string()), None), Err(ScrapeError::Configuration)));
}
