use regex::Regex;
use title_grabber_rs::shape::{find_url, is_status_path, looks_like_url};

#[test]
fn url_is_found_in_a_line() {
    assert_eq!(
        Some("https://example.com/page1".to_string()),
        find_url("see https://example.com/page1 thanks")
    );
    assert_eq!(Some("http://a.b/c?d=e#f".to_string()), find_url("http://a.b/c?d=e#f"));
}

#[test]
fn line_without_url_gives_none() {
    assert_eq!(None, find_url(""));
    assert_eq!(None, find_url("no url here"));
    assert_eq!(None, find_url("http://"));
    assert_eq!(None, find_url("https:// example.com"));
    assert_eq!(None, find_url("ftp://example.com"));
    assert_eq!(None, find_url("HTTP://EXAMPLE.COM"));
}

#[test]
fn only_the_first_url_of_a_line_counts() {
    assert_eq!(
        Some("http://first.example/".to_string()),
        find_url("a http://first.example/ b https://second.example/")
    );
    assert_eq!(
        Some("https://a,https://b".to_string()),
        find_url("x https://a,https://b y")
    );
}

#[test]
fn url_may_start_inside_a_word() {
    assert_eq!(Some("https://a".to_string()), find_url("xhttps://a"));
    assert_eq!(Some("http://a".to_string()), find_url("httphttp://a"));
    assert_eq!(Some("http://http://".to_string()), find_url("http://http://"));
    assert_eq!(Some("https://é".to_string()), find_url("→https://é\u{a0}x"));
}

#[test]
fn url_search_agrees_with_the_pattern() {
    let re = Regex::new(r"https?://\S+").unwrap();
    let samples = [
        "",
        "see https://example.com/page1 thanks",
        "http://",
        "http:// x",
        "https://x",
        "httpss://x http://y",
        "a,http://b\thttps://c",
        "http:/x https:/y http//z https://w\n",
        "hhttp://a",
        "https://\u{3000}x http://ü",
        "text http://a.b/c d",
    ];
    for s in samples {
        assert_eq!(re.find(s).map(|m| m.as_str().to_string()), find_url(s), "on {:?}", s);
        assert_eq!(re.is_match(s), looks_like_url(s), "on {:?}", s);
    }
}

#[test]
fn status_shape_is_recognised() {
    assert!(is_status_path("/cityblockhealth/status/1116351442460315649"));
    assert!(is_status_path("/i/web/status/1116358879409995776"));
    assert!(is_status_path("/status/1"));
}

#[test]
fn other_paths_have_no_status_shape() {
    assert!(!is_status_path(""));
    assert!(!is_status_path("/"));
    assert!(!is_status_path("/Startup_Adam"));
    assert!(!is_status_path("/user/status/"));
    assert!(!is_status_path("/user/status/12a"));
    assert!(!is_status_path("/user/status/123/"));
    assert!(!is_status_path("/user/statuses/123"));
    assert!(!is_status_path("/user/status123"));
    assert!(!is_status_path("status/123"));
    assert!(!is_status_path("12345678"));
}

#[test]
fn status_shape_agrees_with_the_pattern() {
    let re = Regex::new(r"/status/\d+\z").unwrap();
    let samples = [
        "",
        "/",
        "/a/status/1",
        "/a/status/",
        "/a/status/1/",
        "/status/0123456789",
        "/a/status/1x",
        "/a/Status/1",
        "/a/status//1",
        "/status/status/7",
        "1/status/",
        "/a/status/1\n",
    ];
    for s in samples {
        assert_eq!(re.is_match(s), is_status_path(s), "on {:?}", s);
    }
}
