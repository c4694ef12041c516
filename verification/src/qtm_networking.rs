//! The login request for the tracker: the form, its boundary, the headers,
//! and the reading of the answer.

use vstd::prelude::*;
use vstd::string::StringExecFns;
use rand::Rng;
use vstd::utf8::{encode_utf8, is_ascii_chars};
use crate::text::{hex_padded, push_hex16, str_eq};

verus! {

/// Where the login form is sent.
pub const LOGIN_URL: &'static str = "https://www.gaytorrent.ru/takelogin.php";

/// The page that the tracker sends a user to who has logged in, and that the
/// form names as the page to return to.
pub const LANDING_PATH: &'static str = "/genrelist.php";

/// The operating systems for which the program has a user agent of its own.
#[derive(Debug, Copy, Clone, PartialEq, Eq, Structural)]
pub enum HostOs {
    Windows,
    MacOs,
    Linux,
    Other,
}

/// The user agent under which the program speaks to the tracker.
pub open spec fn user_agent(os: HostOs) -> Seq<char> {
    match os {
        HostOs::Windows => "Mozilla/5.0 (Windows NT 6.1; WOW64) AppleWebKit/537.36 (KHTML, like Gecko) Chrome/47.0.2526.111 Safari/537.36"@,
        HostOs::MacOs => "Mozilla/5.0 (Macintosh; Intel Mac OS X 10_11_2) AppleWebKit/601.3.9 (KHTML, like Gecko) Version/9.0.2 Safari/601.3.9"@,
        HostOs::Linux => "Mozilla/5.0 (X11; Ubuntu; Linux x86_64; rv:15.0) Gecko/20100101 Firefox/15.0.1"@,
        HostOs::Other => "Mozilla/5.0 (X11; CrOS x86_64 8172.45.0) AppleWebKit/537.36 (KHTML, like Gecko) Chrome/51.0.2704.64 Safari/537.36"@,
    }
}

/// The user agent under which the program speaks to the tracker.
pub fn get_user_agent_by_os(os: HostOs) -> (agent: &'static str)
    ensures
        agent@ == user_agent(os),
{
    match os {
        HostOs::Windows => "Mozilla/5.0 (Windows NT 6.1; WOW64) AppleWebKit/537.36 (KHTML, like Gecko) Chrome/47.0.2526.111 Safari/537.36",
        HostOs::MacOs => "Mozilla/5.0 (Macintosh; Intel Mac OS X 10_11_2) AppleWebKit/601.3.9 (KHTML, like Gecko) Version/9.0.2 Safari/601.3.9",
        HostOs::Linux => "Mozilla/5.0 (X11; Ubuntu; Linux x86_64; rv:15.0) Gecko/20100101 Firefox/15.0.1",
        HostOs::Other => "Mozilla/5.0 (X11; CrOS x86_64 8172.45.0) AppleWebKit/537.36 (KHTML, like Gecko) Chrome/51.0.2704.64 Safari/537.36",
    }
}

/// The headers that every request carries, each as name and value.
pub open spec fn default_headers() -> Seq<(Seq<char>, Seq<char>)> {
    seq![
        ("host"@, "www.gaytorrent.ru"@),
        ("connection"@, "Keep-Alive"@),
        ("cache-control"@, "no-cache"@),
    ]
}

/// The headers that every request carries, each as name and value.
pub fn get_default_headers() -> (headers: Vec<(&'static str, &'static str)>)
    ensures
        headers.deep_view() == default_headers(),
{
    let mut headers: Vec<(&'static str, &'static str)> = Vec::new();
    headers.push(("host", "www.gaytorrent.ru"));
    headers.push(("connection", "Keep-Alive"));
    headers.push(("cache-control", "no-cache"));
    assert(headers.deep_view() =~= default_headers());
    headers
}

/// The boundary made from two numbers: sixteen hexadecimal digits of the
/// first, two hyphens, sixteen hexadecimal digits of the second.
pub open spec fn boundary_text(a: u64, b: u64) -> Seq<char> {
    hex_padded(a as nat, 16) + "--"@ + hex_padded(b as nat, 16)
}

/// The boundary made from two numbers.
pub fn boundary_from(a: u64, b: u64) -> (boundary: String)
    ensures
        boundary@ == boundary_text(a, b),
{
    let mut boundary = String::new();
    push_hex16(&mut boundary, a);
    boundary.append("--");
    push_hex16(&mut boundary, b);
    assert(boundary@ =~= boundary_text(a, b));
    boundary
}

/// Calls `rand::thread_rng()` and draws a number from it with `Rng::gen`.
/// The number is random, so the contract says nothing of it.
#[verifier::external_body]
fn random_u64() -> u64 {
    rand::thread_rng().gen()
}

/// A fresh boundary for a form, made from two random numbers: 34 characters
/// in ASCII.
pub fn generate_boundary() -> (boundary: String)
    ensures
        exists|a: u64, b: u64| boundary@ == boundary_text(a, b),
        boundary@.len() == 34,
        is_ascii_chars(boundary@),
{
    let a = random_u64();
    let b = random_u64();
    proof {
        lemma_boundary_shape(a, b);
    }
    boundary_from(a, b)
}

/// The header line of the form part called `name`.
pub open spec fn form_part(name: Seq<char>) -> Seq<char> {
    "Content-Disposition: form-data; Content-Type: text/plain; charset=utf8; name=\""@ + name
        + "\""@
}

/// The line that opens a part of the form.
pub open spec fn delimiter(boundary: Seq<char>) -> Seq<char> {
    "--"@ + boundary + "\r\n"@
}

/// One field of the form: the header line, an empty line, the value, and the
/// line that closes the part.
pub open spec fn form_field(name: Seq<char>, value: Seq<char>, boundary: Seq<char>) -> Seq<char> {
    form_part(name) + "\r\n\r\n"@ + value + "\r\n"@ + delimiter(boundary)
}

/// The login form: the user name, the password and the page to return to,
/// each between two delimiter lines, and the line that closes the form.
pub open spec fn login_form(username: Seq<char>, password: Seq<char>, boundary: Seq<char>) -> Seq<
    char,
> {
    delimiter(boundary) + form_field("username"@, username, boundary) + delimiter(boundary)
        + form_field("password"@, password, boundary) + delimiter(boundary) + form_field(
        "returnto"@,
        LANDING_PATH@,
        boundary,
    ) + "--"@ + boundary + "--\r\n"@
}

/// The value of the content type header of the form.
pub open spec fn content_type(boundary: Seq<char>) -> Seq<char> {
    "multipart/form-data; boundary="@ + boundary
}

/// Two texts in ASCII, one after the other, are a text in ASCII.
pub proof fn lemma_ascii_join(a: Seq<char>, b: Seq<char>)
    requires
        is_ascii_chars(a),
        is_ascii_chars(b),
    ensures
        is_ascii_chars(a + b),
{
}

/// A boundary has 34 characters, all of them hexadecimal digits or hyphens,
/// and so all of them ASCII.
pub proof fn lemma_boundary_shape(a: u64, b: u64)
    ensures
        boundary_text(a, b).len() == 34,
        is_ascii_chars(boundary_text(a, b)),
        forall|i: int|
            0 <= i < 34 ==> {
                let c = #[trigger] boundary_text(a, b)[i];
                c == '-' || ('0' <= c <= '9') || ('a' <= c <= 'f')
            },
{
    reveal_strlit("--");
    let text = boundary_text(a, b);
    assert(text.len() == 34);
    assert forall|i: int| 0 <= i < 34 implies {
        let c = #[trigger] text[i];
        c == '-' || ('0' <= c <= '9') || ('a' <= c <= 'f')
    } by {
        if i < 16 {
            assert(text[i] == hex_padded(a as nat, 16)[i]);
        } else if i < 18 {
            assert(text[i] == "--"@[i - 16]);
        } else {
            assert(text[i] == hex_padded(b as nat, 16)[i - 18]);
        }
    }
}

/// The fixed pieces of the form are ASCII.
proof fn lemma_pieces_are_ascii()
    ensures
        is_ascii_chars("--"@),
        is_ascii_chars("\r\n"@),
        is_ascii_chars("\r\n\r\n"@),
        is_ascii_chars("--\r\n"@),
        is_ascii_chars("\""@),
        is_ascii_chars("username"@),
        is_ascii_chars("password"@),
        is_ascii_chars("returnto"@),
        is_ascii_chars(LANDING_PATH@),
        is_ascii_chars(
            "Content-Disposition: form-data; Content-Type: text/plain; charset=utf8; name=\""@,
        ),
{
    reveal_strlit("--");
    reveal_strlit("\r\n");
    reveal_strlit("\r\n\r\n");
    reveal_strlit("--\r\n");
    reveal_strlit("\"");
    reveal_strlit("username");
    reveal_strlit("password");
    reveal_strlit("returnto");
    reveal_strlit("/genrelist.php");
    reveal_strlit(
        "Content-Disposition: form-data; Content-Type: text/plain; charset=utf8; name=\"",
    );
}

/// A login form made from a user name, a password and a boundary in ASCII is
/// in ASCII itself, so that it takes one byte for each character.
pub proof fn lemma_login_form_is_ascii(
    username: Seq<char>,
    password: Seq<char>,
    boundary: Seq<char>,
)
    requires
        is_ascii_chars(username),
        is_ascii_chars(password),
        is_ascii_chars(boundary),
    ensures
        is_ascii_chars(login_form(username, password, boundary)),
        encode_utf8(login_form(username, password, boundary)).len() == login_form(
            username,
            password,
            boundary,
        ).len(),
{
    lemma_pieces_are_ascii();
    let line = delimiter(boundary);
    assert(is_ascii_chars(line));
    assert(is_ascii_chars(form_part("username"@)));
    assert(is_ascii_chars(form_part("password"@)));
    assert(is_ascii_chars(form_part("returnto"@)));
    let first = form_field("username"@, username, boundary);
    let second = form_field("password"@, password, boundary);
    let third = form_field("returnto"@, LANDING_PATH@, boundary);
    assert(is_ascii_chars(first));
    assert(is_ascii_chars(second));
    assert(is_ascii_chars(third));
    lemma_ascii_join(line, first);
    lemma_ascii_join(line + first, line);
    lemma_ascii_join(line + first + line, second);
    lemma_ascii_join(line + first + line + second, line);
    lemma_ascii_join(line + first + line + second + line, third);
    lemma_ascii_join(line + first + line + second + line + third, "--"@);
    lemma_ascii_join(line + first + line + second + line + third + "--"@, boundary);
    lemma_ascii_join(line + first + line + second + line + third + "--"@ + boundary, "--\r\n"@);
    vstd::utf8::is_ascii_chars_encode_utf8(login_form(username, password, boundary));
}

/// The header line of the form part called `name`.
pub fn get_form_part(name: &str) -> (line: String)
    ensures
        line@ == form_part(name@),
{
    let mut line = String::from_str(
        "Content-Disposition: form-data; Content-Type: text/plain; charset=utf8; name=\"",
    );
    line.append(name);
    line.append("\"");
    line
}

fn push_delimiter(out: &mut String, boundary: &str)
    ensures
        final(out)@ == old(out)@ + delimiter(boundary@),
{
    out.append("--");
    out.append(boundary);
    out.append("\r\n");
    assert(out@ =~= old(out)@ + delimiter(boundary@));
}

fn push_form_field(out: &mut String, name: &str, value: &str, boundary: &str)
    ensures
        final(out)@ == old(out)@ + form_field(name@, value@, boundary@),
{
    let part = get_form_part(name);
    out.append(part.as_str());
    out.append("\r\n\r\n");
    out.append(value);
    out.append("\r\n");
    push_delimiter(out, boundary);
    assert(out@ =~= old(out)@ + form_field(name@, value@, boundary@));
}

/// The login form for the given user name and password, with parts divided
/// by `boundary`.
pub fn get_login_form(username: &str, password: &str, boundary: &str) -> (form: String)
    ensures
        form@ == login_form(username@, password@, boundary@),
{
    let mut form = String::new();
    push_delimiter(&mut form, boundary);
    push_form_field(&mut form, "username", username, boundary);
    push_delimiter(&mut form, boundary);
    push_form_field(&mut form, "password", password, boundary);
    push_delimiter(&mut form, boundary);
    push_form_field(&mut form, "returnto", LANDING_PATH, boundary);
    form.append("--");
    form.append(boundary);
    form.append("--\r\n");
    assert(form@ =~= login_form(username@, password@, boundary@));
    form
}

/// The value of the content type header of a form divided by `boundary`.
pub fn get_content_type(boundary: &str) -> (value: String)
    ensures
        value@ == content_type(boundary@),
{
    let mut value = String::from_str("multipart/form-data; boundary=");
    value.append(boundary);
    value
}

/// A login request, ready to be sent.
#[derive(Debug)]
pub struct LoginRequest {
    /// Where it goes.
    pub url: &'static str,
    /// The value of the content type header.
    pub content_type: String,
    /// The value of the content length header: the length of the body in
    /// bytes.
    pub content_length: usize,
    /// The form.
    pub body: String,
}

/// The login request for the given user name and password, with the form
/// divided by `boundary`.
pub fn login_request(username: &str, password: &str, boundary: &str) -> (request: LoginRequest)
    ensures
        request.url@ == LOGIN_URL@,
        request.content_type@ == content_type(boundary@),
        request.body@ == login_form(username@, password@, boundary@),
        request.content_length == encode_utf8(request.body@).len() as usize,
        is_ascii_chars(username@) && is_ascii_chars(password@) && is_ascii_chars(boundary@)
            ==> request.content_length == request.body@.len() as usize,
{
    let body = get_login_form(username, password, boundary);
    proof {
        if is_ascii_chars(username@) && is_ascii_chars(password@) && is_ascii_chars(boundary@) {
            lemma_login_form_is_ascii(username@, password@, boundary@);
        }
    }
    let content_length = body.as_str().len();
    LoginRequest { url: LOGIN_URL, content_type: get_content_type(boundary), content_length, body }
}

/// Whether the answer to a login request says that the user is logged in:
/// the tracker has sent the request on to the landing page. `redirect` is the
/// path of the page that answered, or `None` where no answer came.
pub fn is_authenticated(redirect: Option<&str>) -> (authenticated: bool)
    ensures
        authenticated == (redirect matches Some(path) && path@ == LANDING_PATH@),
{
    match redirect {
        Some(path) => str_eq(path, LANDING_PATH),
        None => false,
    }
}

} // verus!
