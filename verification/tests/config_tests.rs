use admin_client::config::{default_config, Config};
use admin_client::json::parse_config;
use admin_client::text::{str_eq, to_chars, trim_string};

#[test]
fn default_config_fields() {
    let c = default_config();
    assert_eq!(c.url, "http://localhost/admin");
    assert_eq!(c.token, "");
}

#[test]
fn accessors_read_the_fields() {
    let c = Config {
        url: String::from("http://h/admin"),
        token: String::from("tok"),
    };
    assert_eq!(c.get_url().as_str(), "http://h/admin");
    assert_eq!(c.get_token(), "tok");
}

#[test]
fn setter_replaces_only_the_token() {
    let mut c = default_config();
    c.set_token(String::from("next"));
    assert_eq!(c.get_token(), "next");
    assert_eq!(c.get_url().as_str(), "http://localhost/admin");
}

#[test]
fn loaded_fields_come_back_byte_for_byte() {
    let text = "{\"url\":\"http://a:1/admin\",\"token\":\"s3cr3t\"}";
    let c = parse_config(text).unwrap();
    assert_eq!(c.get_url().as_str(), "http://a:1/admin");
    assert_eq!(c.get_token(), "s3cr3t");
}

#[test]
fn trimming_strips_unicode_whitespace() {
    assert_eq!(trim_string("  a b  "), "a b");
    assert_eq!(trim_string("\u{a0}\u{2003}x\u{3000}\r\n"), "x");
    assert_eq!(trim_string("   "), "");
    assert_eq!(trim_string(""), "");
    assert_eq!(trim_string("inner \t kept"), "inner \t kept");
}

#[test]
fn string_equality_by_characters() {
    assert!(str_eq("abc", "abc"));
    assert!(!str_eq("abc", "abd"));
    assert!(!str_eq("abc", "ab"));
    assert!(str_eq("", ""));
    let v = to_chars("héllo");
    assert_eq!(v.len(), 5);
    assert_eq!(v[1], 'é');
}
