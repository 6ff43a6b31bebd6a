use backend_supervisor::handshake::parse_handshake_line;
use backend_supervisor::handshake::starts_with_prefix;

#[test]
fn accepts_port_zero() {
    assert_eq!(parse_handshake_line(b"PYTHON_BACKEND_PORT:0"), Some(0));
}

#[test]
fn accepts_port_max() {
    assert_eq!(parse_handshake_line(b"PYTHON_BACKEND_PORT:65535"), Some(65535));
}

#[test]
fn accepts_whitespace_around_port() {
    assert_eq!(parse_handshake_line(b"PYTHON_BACKEND_PORT: \t 54321 \r\n"), Some(54321));
    assert_eq!(parse_handshake_line(b"PYTHON_BACKEND_PORT:\x0b\x0c80\x0b"), Some(80));
}

#[test]
fn accepts_leading_plus() {
    assert_eq!(parse_handshake_line(b"PYTHON_BACKEND_PORT:+8080"), Some(8080));
}

#[test]
fn accepts_leading_zeros() {
    assert_eq!(parse_handshake_line(b"PYTHON_BACKEND_PORT:007"), Some(7));
}

#[test]
fn rejects_letters() {
    assert_eq!(parse_handshake_line(b"PYTHON_BACKEND_PORT:abc"), None);
}

#[test]
fn rejects_out_of_range_port() {
    assert_eq!(parse_handshake_line(b"PYTHON_BACKEND_PORT:99999"), None);
    assert_eq!(parse_handshake_line(b"PYTHON_BACKEND_PORT:65536"), None);
    assert_eq!(
        parse_handshake_line(b"PYTHON_BACKEND_PORT:123456789012345678901234567890"),
        None
    );
}

#[test]
fn rejects_empty_remainder() {
    assert_eq!(parse_handshake_line(b"PYTHON_BACKEND_PORT:"), None);
    assert_eq!(parse_handshake_line(b"PYTHON_BACKEND_PORT:   "), None);
}

#[test]
fn rejects_sign_without_digits() {
    assert_eq!(parse_handshake_line(b"PYTHON_BACKEND_PORT:+"), None);
    assert_eq!(parse_handshake_line(b"PYTHON_BACKEND_PORT:++80"), None);
    assert_eq!(parse_handshake_line(b"PYTHON_BACKEND_PORT:-80"), None);
}

#[test]
fn rejects_inner_whitespace() {
    assert_eq!(parse_handshake_line(b"PYTHON_BACKEND_PORT:12 34"), None);
}

#[test]
fn rejects_wrong_prefix() {
    assert_eq!(parse_handshake_line(b"BACKEND_PORT:80"), None);
    assert_eq!(parse_handshake_line(b"python_backend_port:80"), None);
    assert_eq!(parse_handshake_line(b"PYTHON_BACKEND_PORT 80"), None);
    assert_eq!(parse_handshake_line(b"xxPYTHON_BACKEND_PORT:80"), None);
    assert_eq!(parse_handshake_line(b""), None);
    assert_eq!(parse_handshake_line(b"noise"), None);
}

#[test]
fn prefix_check_is_exact() {
    assert!(starts_with_prefix(b"PYTHON_BACKEND_PORT:"));
    assert!(starts_with_prefix(b"PYTHON_BACKEND_PORT:123"));
    assert!(!starts_with_prefix(b"PYTHON_BACKEND_PORT"));
    assert!(!starts_with_prefix(b"PYTHON_BACKEND_PORt:123"));
}
