use aginxbrowser::extract::{extract_text, html_to_markdown, join_strings, select_html};

const PAGE: &str =
    "<html><head><title>T</title></head><body><p>Hello <b>big</b></p><p>World</p></body></html>";

#[test]
fn join_puts_separator_between_neighbours() {
    assert_eq!(join_strings(&vec![], ", "), "");
    assert_eq!(join_strings(&vec!["a".to_string()], ", "), "a");
    assert_eq!(
        join_strings(&vec!["a".to_string(), "b".to_string(), "c".to_string()], ", "),
        "a, b, c"
    );
}

#[test]
fn whole_document_text() {
    assert_eq!(extract_text(PAGE, None).unwrap(), "T Hello  big World");
}

#[test]
fn selected_elements_text() {
    assert_eq!(extract_text(PAGE, Some("p")).unwrap(), "Hello  big\nWorld");
    assert_eq!(extract_text(PAGE, Some("b")).unwrap(), "big");
    assert_eq!(extract_text(PAGE, Some("div")).unwrap(), "");
}

#[test]
fn invalid_selector_is_reported() {
    let e = extract_text(PAGE, Some("[[")).unwrap_err();
    assert!(e.starts_with("invalid selector: "));
    assert!(e.len() > "invalid selector: ".len());
    let e = html_to_markdown(PAGE, Some("[[")).unwrap_err();
    assert!(e.starts_with("invalid selector: "));
}

#[test]
fn markdown_of_selected_element() {
    let md = html_to_markdown("<html><body><h1>Title</h1><p>Body text</p></body></html>", Some("p"))
        .unwrap();
    assert!(md.contains("Body text"));
    assert!(!md.contains("Title"));
    assert!(!md.contains("<p>"));
}

#[test]
fn markdown_without_selector_is_whole_page() {
    let html = "<html><body><h1>Title</h1><p>Body text</p></body></html>";
    let md = html_to_markdown(html, None).unwrap();
    assert!(md.contains("Title"));
    assert!(md.contains("Body text"));
    assert!(!md.contains("<h1>"));
}

#[test]
fn markdown_of_unmatched_selector_is_empty() {
    let html = "<html><body><h1>Title</h1><p>Body text</p></body></html>";
    assert_eq!(html_to_markdown(html, Some("table")).unwrap(), "");
}

#[test]
fn html_narrowed_to_matched_elements() {
    let page = PAGE.to_string();
    assert_eq!(select_html(page.clone(), None).unwrap(), PAGE);
    assert_eq!(
        select_html(page.clone(), Some("p")).unwrap(),
        "<p>Hello <b>big</b></p>\n<p>World</p>"
    );
    assert_eq!(select_html(page.clone(), Some("div")).unwrap(), "");
    assert!(select_html(page, Some("[[")).unwrap_err().starts_with("invalid selector: "));
}
