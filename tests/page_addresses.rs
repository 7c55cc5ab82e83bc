use taskblaster::pages::{login_form, login_url, session_cookie_pair, site_url, task_url, todo_url};
use taskblaster::scrape::parse_decimal_u32;

#[test]
fn addresses_on_host() {
    assert_eq!(site_url("pm.example.org"), "https://pm.example.org");
    assert_eq!(login_url("pm.example.org"), "https://pm.example.org/index.php");
    assert_eq!(todo_url("pm.example.org"), "https://pm.example.org/index.php?m=tasks&a=todo");
}

#[test]
fn task_address_writes_id_in_decimal() {
    assert_eq!(task_url("h", 42), "https://h/index.php?m=tasks&a=view&task_id=42");
    assert_eq!(task_url("h", 0), "https://h/index.php?m=tasks&a=view&task_id=0");
    assert_eq!(task_url("h", 4294967295), "https://h/index.php?m=tasks&a=view&task_id=4294967295");
}

#[test]
fn task_id_text_reads_back() {
    for id in [0u32, 7, 10, 42, 1000, 65536, 4294967295] {
        let url = task_url("h", id);
        let digits = url.rsplit('=').next().unwrap();
        assert_eq!(parse_decimal_u32(digits), Some(id));
    }
}

#[test]
fn cookie_pair_and_login_fields() {
    assert_eq!(session_cookie_pair("abc123"), "web2project=abc123");
    let form = login_form("ann", "s3cret");
    let fields: Vec<(&str, &str)> =
        form.iter().map(|f| (f.name.as_str(), f.value.as_str())).collect();
    assert_eq!(fields, vec![("login", "login"), ("username", "ann"), ("password", "s3cret")]);
}
