use profiler::request::{get_formatted_request, Scheme, Target, DEFAULT_USER_AGENT};
use profiler::response::{parse_decimal_i32, parse_status_code_and_page, parse_status_code_and_page_text};

fn example_target() -> Target {
    Target {
        scheme: Scheme::Http,
        host: String::from("example.com"),
        path_and_query: String::from("/path?q=1"),
    }
}

fn chars(s: &str) -> Vec<char> {
    s.chars().collect()
}

#[test]
fn formats_request_then_parses_response() {
    let request = get_formatted_request(&example_target(), DEFAULT_USER_AGENT);
    assert_eq!(
        request,
        "GET /path?q=1 HTTP/1.1\r\nHost: example.com\r\nUser-Agent: curl/7.58.0\r\nAccept: */*\r\nConnection: close\r\n\r\n"
    );
    let raw = b"HTTP/1.1 200 OK\r\nContent-Length: 5\r\n\r\nhello".to_vec();
    assert_eq!(parse_status_code_and_page(&raw), Some((200, String::from("hello"))));
}

#[test]
fn request_carries_given_user_agent() {
    let request = get_formatted_request(&example_target(), "probe/1.0");
    assert!(request.contains("\r\nUser-Agent: probe/1.0\r\n"));
}

#[test]
fn empty_bytes_give_code_zero_and_empty_body() {
    assert_eq!(parse_status_code_and_page(&Vec::new()), Some((0, String::new())));
}

#[test]
fn missing_status_marker_is_a_parse_failure() {
    assert_eq!(parse_status_code_and_page(&b"garbage\r\n\r\nbody".to_vec()), None);
    assert_eq!(parse_status_code_and_page(&b"HTTP/1.0 200 OK\r\n\r\n".to_vec()), None);
}

#[test]
fn status_line_without_space_after_code_is_a_parse_failure() {
    assert_eq!(parse_status_code_and_page_text("HTTP/1.1 200\r\n\r\nbody"), None);
    assert_eq!(parse_status_code_and_page_text("HTTP/1.1 200"), None);
}

#[test]
fn non_integer_code_field_gives_zero() {
    assert_eq!(
        parse_status_code_and_page_text("HTTP/1.1 abc OK\r\n\r\nx"),
        Some((0, String::from("x")))
    );
}

#[test]
fn body_without_blank_line_is_whole_text() {
    let text = "HTTP/1.1 404 Not Found\r\nServer: x";
    assert_eq!(parse_status_code_and_page_text(text), Some((404, String::from(text))));
}

#[test]
fn body_splits_at_first_blank_line_only() {
    assert_eq!(
        parse_status_code_and_page_text("HTTP/1.1 301 Moved\r\n\r\na\r\n\r\nb"),
        Some((301, String::from("a\r\n\r\nb")))
    );
}

#[test]
fn invalid_bytes_are_replaced() {
    let raw = b"HTTP/1.1 200 OK\r\n\r\nh\xffi".to_vec();
    assert_eq!(parse_status_code_and_page(&raw), Some((200, String::from("h\u{FFFD}i"))));
}

#[test]
fn decimal_parsing_follows_i32() {
    let cases = ["200", "+12", "-7", "2147483647", "-2147483648", "2147483648", "-2147483649", "", "-", "+", "12a", "0042"];
    for case in cases.iter() {
        let cs = chars(case);
        assert_eq!(parse_decimal_i32(&cs, 0, cs.len()), case.parse::<i32>().ok(), "{}", case);
    }
}

#[test]
fn decimal_parsing_reads_a_range() {
    let cs = chars("xx503yy");
    assert_eq!(parse_decimal_i32(&cs, 2, 5), Some(503));
    assert_eq!(parse_decimal_i32(&cs, 2, 6), None);
}

#[test]
fn empty_code_field_gives_zero() {
    assert_eq!(
        parse_status_code_and_page_text("HTTP/1.1  200 OK\r\n\r\nz"),
        Some((0, String::from("z")))
    );
}
