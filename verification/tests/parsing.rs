use issues_helper::parse::{parse_origin, ParseError};

fn parsed(raw: &str) -> (String, String, String) {
    parse_origin(raw.as_bytes()).unwrap_or((String::new(), String::new(), String::new()))
}

#[test]
fn parsing_raw_ssh_with_ext() {
    let raw_ssh_with_ext = "git@github.com:CleverCloud/issues-helper.git";
    assert_eq!(
        parsed(raw_ssh_with_ext),
        ("github.com".into(), "CleverCloud".into(), "issues-helper".into())
    );
}

#[test]
fn parsing_ssh_url_with_ext() {
    let ssh_url_with_ext = "git+ssh://git@github.com/CleverCloud/issues-helper.git";
    assert_eq!(
        parsed(ssh_url_with_ext),
        ("github.com".into(), "CleverCloud".into(), "issues-helper".into())
    );
}

#[test]
fn parsing_https_url_with_ext() {
    let https_url_with_ext = "https://github.com/CleverCloud/issues-helper.git";
    assert_eq!(
        parsed(https_url_with_ext),
        ("github.com".into(), "CleverCloud".into(), "issues-helper".into())
    );
}

#[test]
fn parsing_raw_ssh() {
    let raw_ssh = "git@github.com:CleverCloud/issues-helper";
    assert_eq!(
        parsed(raw_ssh),
        ("github.com".into(), "CleverCloud".into(), "issues-helper".into())
    );
}

#[test]
fn parsing_ssh_url() {
    let ssh_url = "git+ssh://git@github.com/CleverCloud/issues-helper";
    assert_eq!(
        parsed(ssh_url),
        ("github.com".into(), "CleverCloud".into(), "issues-helper".into())
    );
}

#[test]
fn parsing_https_url() {
    let https_url = "https://github.com/CleverCloud/issues-helper";
    assert_eq!(
        parsed(https_url),
        ("github.com".into(), "CleverCloud".into(), "issues-helper".into())
    );
}

#[test]
fn parsing_example_shapes() {
    assert_eq!(
        parsed("git@example.com:acme/widgets.git"),
        ("example.com".into(), "acme".into(), "widgets".into())
    );
    assert_eq!(
        parsed("git+ssh://git@example.com/acme/widgets"),
        ("example.com".into(), "acme".into(), "widgets".into())
    );
    assert_eq!(
        parsed("https://example.com/acme/widgets.git"),
        ("example.com".into(), "acme".into(), "widgets".into())
    );
}

#[test]
fn parsing_unrecognized_input() {
    let raw = "not a remote url";
    assert_eq!(
        parse_origin(raw.as_bytes()),
        Err(ParseError::UnrecognizedFormat(raw.as_bytes().to_vec()))
    );
}

#[test]
fn parsing_missing_delimiters() {
    assert!(matches!(
        parse_origin(b"git@github.com"),
        Err(ParseError::UnrecognizedFormat(_))
    ));
    assert!(matches!(
        parse_origin(b"git@github.com:acme-widgets"),
        Err(ParseError::UnrecognizedFormat(_))
    ));
    assert!(matches!(
        parse_origin(b"http://example.com/acme/widgets"),
        Err(ParseError::UnrecognizedFormat(_))
    ));
}

#[test]
fn parsing_empty_segments() {
    assert_eq!(parse_origin(b"git@example.com:/widgets"), Err(ParseError::EmptyField));
    assert_eq!(parse_origin(b"git@example.com:acme/"), Err(ParseError::EmptyField));
    assert_eq!(parse_origin(b"git@example.com:acme/.git"), Err(ParseError::EmptyField));
}

#[test]
fn parsing_invalid_utf8_segment() {
    assert_eq!(
        parse_origin(b"git@example.com:acme/wid\xffgets"),
        Err(ParseError::InvalidUtf8)
    );
    assert_eq!(
        parse_origin(b"git@example.com:ac\xc3me/widgets"),
        Err(ParseError::InvalidUtf8)
    );
}

#[test]
fn parsing_keeps_non_suffix_git() {
    assert_eq!(
        parsed("git@example.com:acme/widgets.gitx"),
        ("example.com".into(), "acme".into(), "widgets.gitx".into())
    );
    assert_eq!(
        parsed("https://example.com/acme/widgets.git.git"),
        ("example.com".into(), "acme".into(), "widgets.git".into())
    );
    assert_eq!(
        parsed("git@example.com:acme/we.git.love"),
        ("example.com".into(), "acme".into(), "we.git.love".into())
    );
}

#[test]
fn parsing_multibyte_segments() {
    assert_eq!(
        parsed("git@example.com:acm\u{e9}/widg\u{e9}ts"),
        ("example.com".into(), "acm\u{e9}".into(), "widg\u{e9}ts".into())
    );
}
