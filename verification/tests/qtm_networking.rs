use qtm2::qtm_networking::{
    boundary_from, generate_boundary, get_content_type, get_default_headers, get_form_part,
    get_login_form, get_user_agent_by_os, is_authenticated, login_request, HostOs, LANDING_PATH,
    LOGIN_URL,
};

fn formatted_form_part(value: &str) -> String {
    format!("Content-Disposition: form-data; Content-Type: text/plain; charset=utf8; name=\"{value}\"")
}

fn formatted_login_form(username: &str, password: &str, boundary: &str) -> String {
    format!(
        "--{boundary}\r\n{}\r\n\r\n{username}\r\n--{boundary}\r\n--{boundary}\r\n\
        {}\r\n\r\n{password}\r\n--{boundary}\r\n--{boundary}\r\n{}\r\n\r\n/genrelist.php\r\n\
        --{boundary}\r\n--{boundary}--\r\n",
        formatted_form_part("username"),
        formatted_form_part("password"),
        formatted_form_part("returnto")
    )
}

#[test]
fn each_system_has_its_user_agent() {
    assert_eq!(
        get_user_agent_by_os(HostOs::Windows),
        "Mozilla/5.0 (Windows NT 6.1; WOW64) AppleWebKit/537.36 (KHTML, like Gecko) Chrome/47.0.2526.111 Safari/537.36"
    );
    assert_eq!(
        get_user_agent_by_os(HostOs::MacOs),
        "Mozilla/5.0 (Macintosh; Intel Mac OS X 10_11_2) AppleWebKit/601.3.9 (KHTML, like Gecko) Version/9.0.2 Safari/601.3.9"
    );
    assert_eq!(
        get_user_agent_by_os(HostOs::Linux),
        "Mozilla/5.0 (X11; Ubuntu; Linux x86_64; rv:15.0) Gecko/20100101 Firefox/15.0.1"
    );
    assert_eq!(
        get_user_agent_by_os(HostOs::Other),
        "Mozilla/5.0 (X11; CrOS x86_64 8172.45.0) AppleWebKit/537.36 (KHTML, like Gecko) Chrome/51.0.2704.64 Safari/537.36"
    );
}

#[test]
fn every_request_carries_three_headers() {
    assert_eq!(
        get_default_headers(),
        [("host", "www.gaytorrent.ru"), ("connection", "Keep-Alive"), ("cache-control", "no-cache")]
    );
}

#[test]
fn a_boundary_is_two_numbers_in_hexadecimal() {
    assert_eq!(boundary_from(0, 0), "0000000000000000--0000000000000000");
    assert_eq!(boundary_from(0xdeadbeef, u64::MAX), "00000000deadbeef--ffffffffffffffff");
    for (a, b) in [(1u64, 2u64), (0x1234_5678_9abc_def0, 0x0fed_cba9_8765_4321), (u64::MAX, 0)] {
        assert_eq!(boundary_from(a, b), format!("{:016x}--{:016x}", a, b));
    }
}

#[test]
fn a_generated_boundary_has_the_shape_of_one() {
    for _ in 0..50 {
        let boundary = generate_boundary();
        assert_eq!(boundary.len(), 34);
        assert_eq!(&boundary[16..18], "--");
        let a = u64::from_str_radix(&boundary[..16], 16).unwrap();
        let b = u64::from_str_radix(&boundary[18..], 16).unwrap();
        assert_eq!(boundary, boundary_from(a, b));
        assert!(boundary.bytes().all(|c| c == b'-' || c.is_ascii_digit() || (b'a'..=b'f').contains(&c)));
    }
}

#[test]
fn generated_boundaries_differ() {
    let first = generate_boundary();
    assert!((0..20).any(|_| generate_boundary() != first));
}

#[test]
fn a_form_part_names_its_field() {
    assert_eq!(
        get_form_part("username"),
        "Content-Disposition: form-data; Content-Type: text/plain; charset=utf8; name=\"username\""
    );
    assert_eq!(get_form_part(""), formatted_form_part(""));
}

#[test]
fn the_login_form_is_laid_out_part_by_part() {
    let form = get_login_form("bob", "secret", "XX");
    let expected = "--XX\r\n\
        Content-Disposition: form-data; Content-Type: text/plain; charset=utf8; name=\"username\"\r\n\
        \r\n\
        bob\r\n\
        --XX\r\n\
        --XX\r\n\
        Content-Disposition: form-data; Content-Type: text/plain; charset=utf8; name=\"password\"\r\n\
        \r\n\
        secret\r\n\
        --XX\r\n\
        --XX\r\n\
        Content-Disposition: form-data; Content-Type: text/plain; charset=utf8; name=\"returnto\"\r\n\
        \r\n\
        /genrelist.php\r\n\
        --XX\r\n\
        --XX--\r\n";
    assert_eq!(form, expected);
}

#[test]
fn the_login_form_is_the_formatted_one() {
    for (username, password, boundary) in [
        ("bob", "secret", "0000000000000001--0000000000000002"),
        ("", "", ""),
        ("a b", "p\r\nq", "--"),
        ("üser", "pässwörd", "b"),
    ] {
        assert_eq!(
            get_login_form(username, password, boundary),
            formatted_login_form(username, password, boundary)
        );
    }
}

#[test]
fn the_content_type_names_the_boundary() {
    assert_eq!(get_content_type("abc--def"), "multipart/form-data; boundary=abc--def");
}

#[test]
fn a_login_request_is_ready_to_be_sent() {
    let request = login_request("bob", "secret", "XX");
    assert_eq!(request.url, "https://www.gaytorrent.ru/takelogin.php");
    assert_eq!(request.url, LOGIN_URL);
    assert_eq!(request.content_type, "multipart/form-data; boundary=XX");
    assert_eq!(request.body, formatted_login_form("bob", "secret", "XX"));
    assert_eq!(request.content_length, request.body.as_bytes().len());
    let request = login_request("üser", "pässwörd", "XX");
    assert_eq!(request.content_length, request.body.as_bytes().len());
    assert!(request.content_length > request.body.chars().count());
}

#[test]
fn only_the_landing_page_means_logged_in() {
    assert_eq!(LANDING_PATH, "/genrelist.php");
    assert!(is_authenticated(Some("/genrelist.php")));
    assert!(!is_authenticated(Some("/takelogin.php")));
    assert!(!is_authenticated(Some("/")));
    assert!(!is_authenticated(Some("")));
    assert!(!is_authenticated(Some("/genrelist.php/")));
    assert!(!is_authenticated(None));
}
