use admin_client::config::Config;
use admin_client::errors::ClientError;
use admin_client::json::{default_config_json, encode_config, encode_token_body, parse_config};

#[test]
fn default_json_text() {
    assert_eq!(
        default_config_json(),
        "{\"url\":\"http://localhost/admin\",\"token\":\"\"}"
    );
}

#[test]
fn parse_default_text() {
    let c = parse_config("{\"url\":\"http://localhost/admin\",\"token\":\"\"}").unwrap();
    assert_eq!(c.url, "http://localhost/admin");
    assert_eq!(c.token, "");
}

#[test]
fn parse_returns_fields_verbatim() {
    let c = parse_config("{\"url\":\"http://h:9/admin\",\"token\":\"  spaced  \"}").unwrap();
    assert_eq!(c.url, "http://h:9/admin");
    assert_eq!(c.token, "  spaced  ");
}

#[test]
fn parse_accepts_whitespace_and_any_field_order() {
    let c = parse_config("  {\n  \"token\" : \"t\" ,\r\n \"url\" : \"u\" }  \n").unwrap();
    assert_eq!(c.url, "u");
    assert_eq!(c.token, "t");
}

#[test]
fn parse_decodes_escapes() {
    let c = parse_config(
        "{\"url\":\"a\\\"b\\\\c\\/d\\n\\t\\r\\b\\f\",\"token\":\"\\u0041\\u00e9\"}",
    )
    .unwrap();
    assert_eq!(c.url, "a\"b\\c/d\n\t\r\u{8}\u{c}");
    assert_eq!(c.token, "A\u{e9}");
}

#[test]
fn parse_accepts_uppercase_hex() {
    let c = parse_config("{\"url\":\"\\u004A\\u004a\",\"token\":\"\\u0020\"}").unwrap();
    assert_eq!(c.url, "JJ");
    assert_eq!(c.token, " ");
}

#[test]
fn parse_decodes_surrogate_pair() {
    let c = parse_config("{\"url\":\"u\",\"token\":\"\\ud83d\\ude00\"}").unwrap();
    assert_eq!(c.token, "\u{1f600}");
}

#[test]
fn parse_rejects_broken_documents() {
    let bad = [
        "",
        "{}",
        "{\"url\":\"u\"}",
        "{\"url\":\"u\",\"token\":\"t\"",
        "{\"url\":\"u\",\"token\":\"t\"} x",
        "{\"url\":\"u\",\"token\":1}",
        "{\"url\":\"u\",\"other\":\"t\"}",
        "{\"url\":\"a\",\"url\":\"b\"}",
        "{\"url\":\"u\",\"token\":\"t\",\"more\":\"m\"}",
        "{\"url\":\"u\" \"token\":\"t\"}",
        "{\"url\":\"u\",\"token\":\"\\x\"}",
        "{\"url\":\"u\",\"token\":\"\\ud800\"}",
        "{\"url\":\"u\",\"token\":\"\\ude00\"}",
        "{\"url\":\"u\",\"token\":\"\\ud800x\"}",
        "{\"url\":\"u\",\"token\":\"\\u12\"}",
        "{\"url\":\"u\",\"token\":\"a\u{1}b\"}",
        "[\"url\",\"token\"]",
        "{\"url\":\"u\",\"token\":\"t\"}}",
    ];
    for text in bad {
        match parse_config(text) {
            Err(e) => assert_eq!(e, ClientError::ConfigParse, "input: {}", text),
            Ok(_) => panic!("accepted: {}", text),
        }
    }
}

#[test]
fn parse_rejects_an_empty_url() {
    // a loaded configuration always has a URL
    for text in [
        "{\"url\":\"\",\"token\":\"t\"}",
        "{\"token\":\"t\",\"url\":\"\"}",
        "{\"url\":\"\",\"token\":\"\"}",
    ] {
        match parse_config(text) {
            Err(e) => assert_eq!(e, ClientError::ConfigParse, "input: {}", text),
            Ok(_) => panic!("accepted an empty url: {}", text),
        }
    }
    // an empty token stays fine
    assert!(parse_config("{\"url\":\"u\",\"token\":\"\"}").is_ok());
}

#[test]
fn encode_escapes_exactly() {
    let c = Config {
        url: String::from("u"),
        token: String::from("a\"b\\c\nd\te\rf\u{8}g\u{c}h\u{1}i\u{1f}j"),
    };
    assert_eq!(
        encode_config(&c),
        "{\"url\":\"u\",\"token\":\"a\\\"b\\\\c\\nd\\te\\rf\\bg\\fh\\u0001i\\u001fj\"}"
    );
}

#[test]
fn encode_then_parse_is_identity() {
    let c = Config {
        url: String::from("http://s/admin"),
        token: String::from("a\"b\\c\nd\u{1}e\u{1f600}\u{e9}"),
    };
    let back = parse_config(&encode_config(&c)).unwrap();
    assert_eq!(back.url, c.url);
    assert_eq!(back.token, c.token);
}

#[test]
fn token_body_plain() {
    assert_eq!(encode_token_body("abc"), "{\"token\":\"abc\"}");
}

#[test]
fn token_body_escaped() {
    assert_eq!(encode_token_body("a\"b"), "{\"token\":\"a\\\"b\"}");
}
