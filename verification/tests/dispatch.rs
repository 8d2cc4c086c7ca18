use title_grabber_rs::dispatch::{
    build_record, delivered_rows, pending_urls, plan, reused_rows, scan_lines, Task,
};
use title_grabber_rs::record::{Cache, UrlRecord};

fn strings(parts: &[&str]) -> Vec<String> {
    parts.iter().map(|p| p.to_string()).collect()
}

fn row(url: &str, end_url: &str, page_title: &str, article_title: &str) -> UrlRecord {
    UrlRecord {
        url: url.to_string(),
        end_url: end_url.to_string(),
        page_title: page_title.to_string(),
        article_title: article_title.to_string(),
    }
}

#[test]
fn lines_give_at_most_one_candidate_each() {
    let lines = strings(&[
        "see https://example.com/page1 thanks",
        "nothing here",
        "",
        "http://a.b/ and http://c.d/",
        "https://",
    ]);
    assert_eq!(strings(&["https://example.com/page1", "http://a.b/"]), scan_lines(&lines));
}

#[test]
fn lines_without_url_give_no_rows() {
    let lines = strings(&["nothing here", "www.example.com", "mailto:a@b.c"]);
    let candidates = scan_lines(&lines);
    assert!(candidates.is_empty());
    let tasks = plan(&candidates, &Cache::from_rows(vec![row("www.example.com", "e", "t", "")]));
    assert!(tasks.is_empty());
    assert!(reused_rows(&tasks).is_empty());
    assert!(pending_urls(&tasks).is_empty());
}

#[test]
fn cache_keeps_only_titled_rows() {
    let cache = Cache::from_rows(vec![
        row("https://a/", "https://a/", "A", ""),
        row("https://b/", "https://b/", "", ""),
        row("https://c/", "https://c/end", "", "C"),
    ]);
    assert_eq!(Some(row("https://a/", "https://a/", "A", "")), cache.get("https://a/"));
    assert_eq!(None, cache.get("https://b/"));
    assert_eq!(Some(row("https://c/", "https://c/end", "", "C")), cache.get("https://c/"));
    assert_eq!(None, cache.get("https://d/"));
    assert_eq!(None, Cache::from_rows(Vec::new()).get("https://a/"));
}

#[test]
fn cache_takes_the_last_titled_row_of_a_url() {
    let cache = Cache::from_rows(vec![
        row("https://a/", "https://a/1", "First", ""),
        row("https://a/", "https://a/2", "Second", "S"),
        row("https://a/", "https://a/3", "", ""),
    ]);
    assert_eq!(Some(row("https://a/", "https://a/2", "Second", "S")), cache.get("https://a/"));
}

#[test]
fn cached_url_is_reused_and_not_fetched() {
    let cache = Cache::from_rows(vec![
        row("https://x/", "https://x/end", "X", "Article"),
        row("https://y/", "https://y/", "", ""),
    ]);
    let candidates = strings(&["https://n/", "https://x/", "https://y/"]);
    let tasks = plan(&candidates, &cache);
    assert_eq!(
        vec![
            Task::Fetch("https://n/".to_string()),
            Task::Reuse(row("https://x/", "https://x/end", "X", "Article")),
            Task::Fetch("https://y/".to_string()),
        ],
        tasks
    );
    assert_eq!(vec![row("https://x/", "https://x/end", "X", "Article")], reused_rows(&tasks));
    assert_eq!(strings(&["https://n/", "https://y/"]), pending_urls(&tasks));
}

#[test]
fn repeated_url_gets_one_task() {
    let cache = Cache::from_rows(vec![row("https://x/", "https://x/", "X", "")]);
    let candidates = strings(&["https://n/", "https://x/", "https://n/", "https://x/", "https://m/"]);
    let tasks = plan(&candidates, &cache);
    assert_eq!(
        vec![
            Task::Fetch("https://n/".to_string()),
            Task::Reuse(row("https://x/", "https://x/", "X", "")),
            Task::Fetch("https://m/".to_string()),
        ],
        tasks
    );
}

#[test]
fn failed_fetches_are_counted_and_give_no_row() {
    let results = vec![
        None,
        Some(row("https://b/", "https://b/", "B", "")),
        None,
        Some(row("https://a/", "https://a/", "", "")),
    ];
    assert_eq!(4, results.len());
    assert_eq!(
        vec![row("https://b/", "https://b/", "B", ""), row("https://a/", "https://a/", "", "")],
        delivered_rows(&results)
    );
    assert_eq!(Vec::<UrlRecord>::new(), delivered_rows(&vec![None, None]));
}

#[test]
fn end_to_end_example_row() {
    let lines = strings(&["see https://example.com/page1 thanks"]);
    let tasks = plan(&scan_lines(&lines), &Cache::from_rows(Vec::new()));
    let urls = pending_urls(&tasks);
    assert_eq!(strings(&["https://example.com/page1"]), urls);
    let html = "<html><head><title> Foo  Bar </title></head><body><p>no headings</p></body></html>";
    let record = build_record(
        urls[0].clone(),
        "https://example.com/page1",
        html,
        &Vec::new(),
        &Vec::new(),
    );
    assert_eq!(row("https://example.com/page1", "https://example.com/page1", "Foo Bar", ""), record);
}

#[test]
fn page_off_the_permalink_host_keeps_its_own_location() {
    let record = build_record(
        "https://short.example/x".to_string(),
        "https://example.com/landing",
        "<title>T</title><h1>H</h1>",
        &strings(&["/a/status/1"]),
        &vec![None],
    );
    assert_eq!(
        row("https://short.example/x", "https://example.com/landing", "T", "H"),
        record
    );
}

#[test]
fn page_on_the_permalink_host_points_at_what_it_embeds() {
    let record = build_record(
        "https://t.co/7VDzp24y9N".to_string(),
        "https://twitter.com/dealroomco/status/1116358879409995776",
        "<title>Dealroom.co on Twitter</title><h1>Dealroom.co</h1>",
        &strings(&["/Startup_Adam", "https://t.co/abc"]),
        &vec![None, Some("https://startupmap.iamsterdam.com/dashboard".to_string())],
    );
    assert_eq!(
        "https://startupmap.iamsterdam.com/dashboard,https://twitter.com/Startup_Adam",
        record.end_url
    );
    assert_eq!("https://t.co/7VDzp24y9N", record.url);
    assert_eq!("Dealroom.co on Twitter", record.page_title);
    assert_eq!("Dealroom.co", record.article_title);
}

#[test]
fn reused_row_is_identical_to_the_earlier_one() {
    let earlier = row("https://x/", "https://x/a,https://x/b", "Page", "Article");
    let cache = Cache::from_rows(vec![earlier.copy()]);
    let tasks = plan(&scan_lines(&strings(&["again https://x/ please"])), &cache);
    assert_eq!(vec![earlier], reused_rows(&tasks));
    assert!(pending_urls(&tasks).is_empty());
    assert!(row("u", "e", "", "a").has_title());
    assert!(row("u", "e", "p", "").has_title());
    assert!(!row("u", "e", "", "").has_title());
}
