//! The addresses of the application's pages, the login form, and the
//! session cookie as a request carries it.
use vstd::prelude::*;
use crate::scrape::{decimal_u32, decimal_value, is_digit};

verus! {

/// The character of the decimal digit `d`.
pub open spec fn digit_char(d: nat) -> char {
    if d == 0 { '0' }
    else if d == 1 { '1' }
    else if d == 2 { '2' }
    else if d == 3 { '3' }
    else if d == 4 { '4' }
    else if d == 5 { '5' }
    else if d == 6 { '6' }
    else if d == 7 { '7' }
    else if d == 8 { '8' }
    else { '9' }
}

/// `n` written in decimal, without leading zeros.
pub open spec fn decimal_text(n: nat) -> Seq<char>
    decreases n,
{
    if n < 10 {
        seq![digit_char(n)]
    } else {
        decimal_text(n / 10).push(digit_char(n % 10))
    }
}

/// The decimal text of `n` is a run of digits whose value is `n`.
pub proof fn lemma_decimal_text_value(n: nat)
    ensures
        decimal_text(n).len() > 0,
        forall|i: int| 0 <= i < decimal_text(n).len() ==> is_digit(#[trigger] decimal_text(n)[i]),
        decimal_value(decimal_text(n)) == n,
    decreases n,
{
    if n < 10 {
        assert(seq![digit_char(n)].drop_last() =~= Seq::<char>::empty());
        assert(digit_char(n) as u32 == 48 + n);
        assert(decimal_value(Seq::<char>::empty()) == 0);
        assert(decimal_value(decimal_text(n)) == 10 * decimal_value(Seq::<char>::empty()) + n);
    } else {
        lemma_decimal_text_value(n / 10);
        let s = decimal_text(n / 10);
        assert(s.push(digit_char(n % 10)).drop_last() =~= s);
        vstd::arithmetic::div_mod::lemma_fundamental_div_mod(n as int, 10);
        assert(decimal_text(n) == s.push(digit_char(n % 10)));
        assert(decimal_value(s.push(digit_char(n % 10))) == 10 * (n / 10) + (n % 10));
    }
}

/// Reading back the decimal text of an id gives the id.
pub proof fn lemma_decimal_round_trip(n: u32)
    ensures
        decimal_u32(decimal_text(n as nat)) == Some(n),
{
    lemma_decimal_text_value(n as nat);
}

/// The text of the digit `d`.
fn digit_text(d: u32) -> (r: &'static str)
    requires
        d < 10,
    ensures
        r@ == seq![digit_char(d as nat)],
{
    proof {
        reveal_strlit("0");
        reveal_strlit("1");
        reveal_strlit("2");
        reveal_strlit("3");
        reveal_strlit("4");
        reveal_strlit("5");
        reveal_strlit("6");
        reveal_strlit("7");
        reveal_strlit("8");
        reveal_strlit("9");
    }
    let r = if d == 0 { "0" }
        else if d == 1 { "1" }
        else if d == 2 { "2" }
        else if d == 3 { "3" }
        else if d == 4 { "4" }
        else if d == 5 { "5" }
        else if d == 6 { "6" }
        else if d == 7 { "7" }
        else if d == 8 { "8" }
        else { "9" };
    assert(r@ =~= seq![digit_char(d as nat)]);
    r
}

/// Appends `n` in decimal to `out`.
fn append_decimal(n: u32, out: &mut String)
    ensures
        final(out)@ == old(out)@ + decimal_text(n as nat),
    decreases n,
{
    if n >= 10 {
        append_decimal(n / 10, out);
    }
    out.append(digit_text(n % 10));
    assert(out@ =~= old(out)@ + decimal_text(n as nat));
}

/// The site's root address on `host`, to which the session cookie belongs.
pub fn site_url(host: &str) -> (r: String)
    ensures
        r@ == "https://"@ + host@,
{
    let mut r = String::from_str("https://");
    r.append(host);
    r
}

/// The login endpoint on `host`.
pub fn login_url(host: &str) -> (r: String)
    ensures
        r@ == "https://"@ + host@ + "/index.php"@,
{
    let mut r = site_url(host);
    r.append("/index.php");
    r
}

/// The to-do listing page on `host`.
pub fn todo_url(host: &str) -> (r: String)
    ensures
        r@ == "https://"@ + host@ + "/index.php?m=tasks&a=todo"@,
{
    let mut r = site_url(host);
    r.append("/index.php?m=tasks&a=todo");
    r
}

/// The detail page of task `task_id` on `host`.
pub fn task_url(host: &str, task_id: u32) -> (r: String)
    ensures
        r@ == "https://"@ + host@ + "/index.php?m=tasks&a=view&task_id="@ + decimal_text(
            task_id as nat,
        ),
{
    let mut r = site_url(host);
    r.append("/index.php?m=tasks&a=view&task_id=");
    append_decimal(task_id, &mut r);
    r
}

/// The session cookie as a cookie store takes it: `web2project=<value>`.
pub fn session_cookie_pair(value: &str) -> (r: String)
    ensures
        r@ == "web2project="@ + value@,
{
    let mut r = String::from_str("web2project=");
    r.append(value);
    r
}

/// One field of a submitted form.
pub struct FormField {
    pub name: String,
    pub value: String,
}

/// The fields of a form, as names and values.
pub open spec fn fields_view(fs: Seq<FormField>) -> Seq<(Seq<char>, Seq<char>)> {
    fs.map_values(|f: FormField| (f.name@, f.value@))
}

/// The fields that the login form submits, in order.
pub fn login_form(username: &str, password: &str) -> (r: Vec<FormField>)
    ensures
        fields_view(r@) == seq![
            ("login"@, "login"@),
            ("username"@, username@),
            ("password"@, password@),
        ],
{
    let mut r: Vec<FormField> = Vec::new();
    r.push(FormField { name: String::from_str("login"), value: String::from_str("login") });
    r.push(FormField { name: String::from_str("username"), value: String::from_str(username) });
    r.push(FormField { name: String::from_str("password"), value: String::from_str(password) });
    assert(fields_view(r@) =~= seq![
        ("login"@, "login"@),
        ("username"@, username@),
        ("password"@, password@),
    ]);
    r
}

} // verus!
