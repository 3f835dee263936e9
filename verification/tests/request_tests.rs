use admin_client::config::Config;
use admin_client::errors::ClientError;
use admin_client::request::{finish_request, AdminOp, RequestSite, TransportOutcome};
use admin_client::session::set_token;

#[test]
fn endpoint_urls_append_the_suffix() {
    let site = RequestSite::new(String::from("http://server/admin"));
    assert_eq!(site.endpoint_url(AdminOp::Admin), "http://server/admin");
    assert_eq!(
        site.endpoint_url(AdminOp::ClearUploads),
        "http://server/admin/clear_uploads"
    );
    assert_eq!(
        site.endpoint_url(AdminOp::ListUploads),
        "http://server/admin/list_uploads"
    );
    assert_eq!(site.endpoint_url(AdminOp::Log), "http://server/admin/log");
}

#[test]
fn set_token_then_admin_posts_that_token() {
    let mut config = Config {
        url: String::from("http://server/admin"),
        token: String::from(""),
    };
    set_token(&mut config, String::from("abc")).unwrap();
    let site = RequestSite::new(config.get_url().clone());
    let plan = site
        .plan_request(AdminOp::Admin, &config.get_token(), None)
        .unwrap();
    assert_eq!(plan.url, "http://server/admin");
    assert_eq!(plan.body, "{\"token\":\"abc\"}");
}

#[test]
fn empty_token_uses_the_entered_line_once() {
    let config = Config {
        url: String::from("http://server/admin"),
        token: String::from(""),
    };
    let site = RequestSite::new(config.get_url().clone());
    let plan = site
        .plan_request(AdminOp::ListUploads, &config.get_token(), Some(" xyz \n"))
        .unwrap();
    assert_eq!(plan.url, "http://server/admin/list_uploads");
    assert_eq!(plan.body, "{\"token\":\"xyz\"}");
    // the entered token was used for the one request and not stored
    assert_eq!(config.get_token(), "");
}

#[test]
fn non_empty_token_is_sent_untouched() {
    let site = RequestSite::new(String::from("http://server/admin"));
    let plan = site
        .plan_request(AdminOp::Log, "abc", Some("ignored"))
        .unwrap();
    assert_eq!(plan.body, "{\"token\":\"abc\"}");
}

#[test]
fn blank_entered_token_is_refused() {
    let site = RequestSite::new(String::from("http://server/admin"));
    match site.plan_request(AdminOp::Admin, "", Some("   ")) {
        Err(e) => assert_eq!(e, ClientError::EmptyToken),
        Ok(_) => panic!("expected an empty-token error"),
    }
}

#[test]
fn missing_entered_line_is_an_input_error() {
    let site = RequestSite::new(String::from("http://server/admin"));
    match site.plan_request(AdminOp::Admin, "", None) {
        Err(e) => assert_eq!(e, ClientError::Input),
        Ok(_) => panic!("expected an input error"),
    }
}

#[test]
fn operation_planners_match_their_suffix() {
    let site = RequestSite::new(String::from("http://h/admin"));
    assert_eq!(site.admin("t", None).unwrap().url, "http://h/admin");
    assert_eq!(
        site.clear_upload("t", None).unwrap().url,
        "http://h/admin/clear_uploads"
    );
    assert_eq!(
        site.list_uploads("t", None).unwrap().url,
        "http://h/admin/list_uploads"
    );
    assert_eq!(site.log("t", None).unwrap().url, "http://h/admin/log");
    assert_eq!(site.log("t", None).unwrap().body, "{\"token\":\"t\"}");
}

#[test]
fn any_response_counts_as_success() {
    let ok = finish_request(TransportOutcome::Response(
        String::from("500 Internal Server Error"),
        String::from("boom"),
    ));
    let (l1, l2) = ok.unwrap();
    assert_eq!(l1, "response status: 500 Internal Server Error");
    assert_eq!(l2, "response body: boom");

    let ok2 = finish_request(TransportOutcome::Response(
        String::from("200 OK"),
        String::from("fine"),
    ));
    assert!(ok2.is_ok());
}

#[test]
fn transport_failure_is_an_error() {
    match finish_request(TransportOutcome::Failure) {
        Err(e) => assert_eq!(e, ClientError::Transport),
        Ok(_) => panic!("expected a transport error"),
    }
}
