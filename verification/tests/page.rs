use title_grabber_rs::page::{article_title, first_title, page_title};

fn texts(parts: &[&str]) -> Vec<String> {
    parts.iter().map(|p| p.to_string()).collect()
}

#[test]
fn page_title_of_the_example_page() {
    let html = "<html><head><title> Foo  Bar </title></head><body><p>text</p></body></html>";
    assert_eq!("Foo Bar", page_title(html));
    assert_eq!("", article_title(html));
}

#[test]
fn page_title_is_that_of_the_first_title_element() {
    let html = "<html><head><title>One\n\n two</title><title>Other</title></head></html>";
    assert_eq!("One two", page_title(html));
}

#[test]
fn page_without_title_has_an_empty_one() {
    assert_eq!("", page_title("<html><body><h1>Head</h1></body></html>"));
    assert_eq!("", page_title(""));
}

#[test]
fn article_title_prefers_the_heading_inside_an_article() {
    let html = "<html><body><h1>Site</h1><article><h1>Story</h1></article></body></html>";
    assert_eq!("Story", article_title(html));
}

#[test]
fn article_title_falls_back_to_the_first_heading() {
    let html = "<html><body><div><h1> First </h1></div><h1>Second</h1></body></html>";
    assert_eq!("First", article_title(html));
}

#[test]
fn article_title_joins_text_nodes_with_a_space() {
    let html = "<article><h1>Big<span>News</span>\n today</h1></article>";
    assert_eq!("Big News today", article_title(html));
}

#[test]
fn first_title_takes_the_first_element() {
    let found = Some(vec![texts(&[" a ", "b"]), texts(&["c"])]);
    assert_eq!(Some("a b".to_string()), first_title(&found, " "));
    assert_eq!(Some("a b".to_string()), first_title(&found, ""));
    assert_eq!(Some("a -b".to_string()), first_title(&found, "-"));
}

#[test]
fn first_title_of_nothing_is_none() {
    assert_eq!(None, first_title(&Some(vec![]), " "));
    assert_eq!(None, first_title(&None, " "));
    assert_eq!(Some(String::new()), first_title(&Some(vec![vec![]]), " "));
}
