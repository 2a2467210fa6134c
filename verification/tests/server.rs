use aginxbrowser::server::{
    browser_options, click_response, cookies_to_inject, fetch_response, render_content,
    settle_millis, truncate_content, OutputFormat, CLICK_SETTLE_MILLIS, DEFAULT_MAX_CHARS,
};

#[test]
fn output_format_defaults_to_markdown() {
    assert_eq!(OutputFormat::default(), OutputFormat::Markdown);
}

#[test]
fn stealth_is_on_unless_switched_off() {
    assert!(browser_options(false, None, None).stealth);
    assert!(browser_options(false, Some("1"), None).stealth);
    assert!(browser_options(false, Some(""), None).stealth);
    assert!(browser_options(false, Some("00"), None).stealth);
    assert!(!browser_options(false, Some("0"), None).stealth);
}

#[test]
fn proxy_only_when_asked_and_configured() {
    let p = Some("socks5://127.0.0.1:8800".to_string());
    assert_eq!(browser_options(true, None, p.clone()).proxy, p);
    assert_eq!(browser_options(false, None, p.clone()).proxy, None);
    assert_eq!(browser_options(true, None, None).proxy, None);
}

#[test]
fn settle_times() {
    assert_eq!(settle_millis(None), None);
    assert_eq!(settle_millis(Some(0)), Some(0));
    assert_eq!(settle_millis(Some(3)), Some(3000));
    assert_eq!(CLICK_SETTLE_MILLIS, 500);
}

#[test]
fn bare_cookies_are_scoped_to_the_host() {
    let cookies = vec![
        "sid=abc".to_string(),
        "a=1; Domain=.example.com".to_string(),
        "b=2; PATH=/x".to_string(),
    ];
    let lines = cookies_to_inject(&cookies, "https://mp.weixin.qq.com/s/xxxxx");
    assert_eq!(
        lines,
        vec![
            "sid=abc; Domain=mp.weixin.qq.com; Path=/".to_string(),
            "a=1; Domain=.example.com".to_string(),
            "b=2; PATH=/x".to_string(),
        ]
    );
}

#[test]
fn no_cookies_when_none_given_or_url_invalid() {
    assert!(cookies_to_inject(&vec![], "https://example.com").is_empty());
    assert!(cookies_to_inject(&vec!["a=1".to_string()], "not a url").is_empty());
}

#[test]
fn hostless_url_gives_empty_domain() {
    let lines = cookies_to_inject(&vec!["a=1".to_string()], "data:text/plain,hi");
    assert_eq!(lines, vec!["a=1; Domain=; Path=/".to_string()]);
}

#[test]
fn html_format_returns_the_page_or_the_selected_region() {
    let html = "<html><head></head><body><p>x</p><div>y</div></body></html>".to_string();
    assert_eq!(render_content(OutputFormat::Html, html.clone(), None), Ok(html.clone()));
    assert_eq!(
        render_content(OutputFormat::Html, html.clone(), Some("p")),
        Ok("<p>x</p>".to_string())
    );
    assert!(render_content(OutputFormat::Html, html, Some("[["))
        .unwrap_err()
        .starts_with("invalid selector: "));
}

#[test]
fn scoping_looks_at_attributes_only() {
    let url = "https://example.com/";
    assert_eq!(
        cookies_to_inject(&vec!["subpath=1".to_string()], url),
        vec!["subpath=1; Domain=example.com; Path=/".to_string()]
    );
    assert_eq!(
        cookies_to_inject(&vec!["a=1; mydomain=x".to_string()], url),
        vec!["a=1; mydomain=x; Domain=example.com; Path=/".to_string()]
    );
    assert_eq!(
        cookies_to_inject(&vec!["a=1;  domain = .example.com".to_string()], url),
        vec!["a=1;  domain = .example.com".to_string()]
    );
    assert_eq!(
        cookies_to_inject(&vec!["a=1; Secure; PATH=/x".to_string()], url),
        vec!["a=1; Secure; PATH=/x".to_string()]
    );
}

#[test]
fn content_truncation() {
    assert_eq!(DEFAULT_MAX_CHARS, 50000);
    assert_eq!(truncate_content("héllo".to_string(), 0), ("héllo".to_string(), false));
    assert_eq!(truncate_content("héllo".to_string(), 5), ("héllo".to_string(), false));
    assert_eq!(truncate_content("héllo".to_string(), 2), ("hé".to_string(), true));
}

#[test]
fn click_answers() {
    let ok = click_response(
        "https://example.com/".to_string(),
        "a".to_string(),
        true,
        None,
        Some("after".to_string()),
    )
    .unwrap();
    assert_eq!(ok.url, "https://example.com/");
    assert_eq!(ok.selector, "a");
    assert!(ok.clicked);
    assert_eq!(ok.text_after.as_deref(), Some("after"));
    let (status, body) = click_response("u".to_string(), "#none".to_string(), false, None, None)
        .unwrap_err()
        .into_response();
    assert_eq!(status, 404);
    assert_eq!(body.error, "element not found: #none");
    let (status, body) = click_response(
        "u".to_string(),
        "a".to_string(),
        true,
        Some("TypeError".to_string()),
        None,
    )
    .unwrap_err()
    .into_response();
    assert_eq!(status, 500);
    assert_eq!(body.error, "element.click() failed");
}
