use taskblaster::plans::parse_path;
use taskblaster::query::PathExpr;
use taskblaster::scrape::QueryPlans;

fn steps_of(e: &PathExpr) -> Vec<(String, Option<usize>)> {
    e.steps.iter().map(|s| (s.name.clone(), s.position)).collect()
}

#[test]
fn parse_path_reads_names_and_positions() {
    let e = parse_path("/td[7]/span/a").unwrap();
    assert_eq!(
        steps_of(&e),
        vec![("td".to_string(), Some(7)), ("span".to_string(), None), ("a".to_string(), None)]
    );
}

#[test]
fn parse_path_agrees_with_standard_plans() {
    let p = QueryPlans::standard();
    let rows = parse_path(
        "/html/body/table/tbody/tr/td/table[4]/tbody/tr/td/table/tbody/tr[3]/td/form[2]/table/tbody/tr",
    )
    .unwrap();
    assert_eq!(steps_of(&rows), steps_of(&p.task_rows));
    let name = parse_path("/td[7]/span/a").unwrap();
    assert_eq!(steps_of(&name), steps_of(&p.task_name));
    let detail_name = parse_path(
        "/html/body/table/tbody/tr/td/table[4]/tbody/tr/td[1]/table/tbody/tr[3]/td[2]/strong",
    )
    .unwrap();
    assert_eq!(steps_of(&detail_name), steps_of(&p.detail_name));
    let detail_description = parse_path(
        "/html/body/table/tbody/tr/td/table[4]/tbody/tr/td[2]/table/tbody/tr[8]/td",
    )
    .unwrap();
    assert_eq!(steps_of(&detail_description), steps_of(&p.detail_description));
}

#[test]
fn parse_path_rejects_malformed() {
    for bad in ["", "html", "/", "//a", "/a/", "/a[", "/a[]", "/a[x]", "/[3]", "/a]b", "/a[1]x", "/a[99999999999]"] {
        assert!(parse_path(bad).is_none(), "accepted {:?}", bad);
    }
}
