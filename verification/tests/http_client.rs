use anime_search::http_client::{
    check_status, get_request, post_form_request, response_text, send_failure, HttpClientError,
    HttpOutcome, Method, ACCEPT_LANGUAGE, TIMEOUT_SECONDS, USER_AGENT,
};

fn pair(k: &str, v: &str) -> (String, String) {
    (k.to_string(), v.to_string())
}

#[test]
fn error_texts() {
    assert_eq!(HttpClientError::Timeout.message(), "请求超时");
    assert_eq!(
        HttpClientError::RequestFailed("connection refused".to_string()).message(),
        "请求失败: connection refused"
    );
    assert_eq!(HttpClientError::BadStatus(404).message(), "响应异常状态码: 404");
    assert_eq!(HttpClientError::BadStatus(0).message(), "响应异常状态码: 0");
    assert_eq!(HttpClientError::BadStatus(65535).message(), "响应异常状态码: 65535");
}

#[test]
fn success_is_two_hundred_to_two_hundred_ninety_nine() {
    assert_eq!(check_status(200), Ok(()));
    assert_eq!(check_status(204), Ok(()));
    assert_eq!(check_status(299), Ok(()));
    assert_eq!(check_status(199), Err(HttpClientError::BadStatus(199)));
    assert_eq!(check_status(300), Err(HttpClientError::BadStatus(300)));
    assert_eq!(check_status(404), Err(HttpClientError::BadStatus(404)));
    assert_eq!(check_status(500), Err(HttpClientError::BadStatus(500)));
}

#[test]
fn a_request_that_was_not_answered() {
    assert_eq!(send_failure(true, "x".to_string()), HttpClientError::Timeout);
    assert_eq!(
        send_failure(false, "dns".to_string()),
        HttpClientError::RequestFailed("dns".to_string())
    );
}

#[test]
fn the_text_of_an_outcome() {
    let ok = HttpOutcome::Answered { status: 200, body: Ok("<html/>".to_string()) };
    assert_eq!(response_text(ok), Ok("<html/>".to_string()));
    let bad = HttpOutcome::Answered { status: 503, body: Ok("down".to_string()) };
    assert_eq!(response_text(bad), Err(HttpClientError::BadStatus(503)));
    let bad = HttpOutcome::Answered { status: 302, body: Err("x".to_string()) };
    assert_eq!(response_text(bad), Err(HttpClientError::BadStatus(302)));
    let unread = HttpOutcome::Answered { status: 200, body: Err("decode".to_string()) };
    assert_eq!(response_text(unread), Err(HttpClientError::RequestFailed("decode".to_string())));
    let late = HttpOutcome::SendFailed { timed_out: true, detail: "t".to_string() };
    assert_eq!(response_text(late), Err(HttpClientError::Timeout));
    let lost = HttpOutcome::SendFailed { timed_out: false, detail: "reset".to_string() };
    assert_eq!(response_text(lost), Err(HttpClientError::RequestFailed("reset".to_string())));
}

#[test]
fn a_get_request() {
    let r = get_request("https://x.test/a", Some("https://x.test"));
    assert_eq!(r.method, Method::Get);
    assert_eq!(r.url, "https://x.test/a");
    assert!(r.form.is_empty());
    assert_eq!(
        r.headers,
        vec![
            pair("Referer", "https://x.test"),
            pair("Accept-Language", ACCEPT_LANGUAGE),
            pair("Connection", "keep-alive"),
        ]
    );
    let r = get_request("https://x.test/a", None);
    assert_eq!(
        r.headers,
        vec![pair("Accept-Language", "zh-CN,zh;q=0.9,en;q=0.8"), pair("Connection", "keep-alive")]
    );
}

#[test]
fn a_form_request() {
    let r = post_form_request("https://x.test/s", vec![pair("wd", "k")], Some("https://x.test"));
    assert_eq!(r.method, Method::PostForm);
    assert_eq!(r.url, "https://x.test/s");
    assert_eq!(r.form, vec![pair("wd", "k")]);
    assert_eq!(r.headers.len(), 3);
    assert_eq!(r.headers[0], pair("Referer", "https://x.test"));
}

#[test]
fn constants() {
    assert_eq!(TIMEOUT_SECONDS, 15);
    assert!(USER_AGENT.starts_with("Mozilla/5.0"));
    assert!(USER_AGENT.ends_with("(AnimeSearch API)"));
}
