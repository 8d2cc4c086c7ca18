use std::path::Path;
use title_grabber_rs::{TitleGrabber, CONN_TO, DEF_OUT_PATH, MAX_REDIRECTS, MAX_RETRIES, READ_TO};

#[test]
fn it_builds_a_new_instance_with_defaults() {
    let instance = TitleGrabber::new(vec![], Path::new(DEF_OUT_PATH), false);

    assert_eq!(0, instance.files.len());
    assert_eq!(Some(DEF_OUT_PATH), instance.output_path.to_str());
    assert_eq!(CONN_TO, instance.connect_timeout);
    assert_eq!(READ_TO, instance.read_timeout);
    assert_eq!(MAX_REDIRECTS, instance.max_redirects);
    assert_eq!(MAX_RETRIES, instance.max_retries);
    assert_eq!(num_cpus::get(), instance.max_threads);
}

#[test]
fn it_allows_tweaking_its_conn_to() {
    let mut instance = TitleGrabber::new(vec![], Path::new(DEF_OUT_PATH), false);
    let timeout = 5;

    instance.with_connect_timeout(timeout);

    assert_eq!(timeout, instance.connect_timeout);
}

#[test]
fn it_allows_tweaking_its_read_to() {
    let mut instance = TitleGrabber::new(vec![], Path::new(DEF_OUT_PATH), false);
    let timeout = 5;

    instance.with_read_timeout(timeout);

    assert_eq!(timeout, instance.read_timeout);
}

#[test]
fn it_allows_tweaking_its_max_redirs() {
    let mut instance = TitleGrabber::new(vec![], Path::new(DEF_OUT_PATH), false);
    let redirects = 3;

    instance.with_max_redirects(redirects);

    assert_eq!(redirects, instance.max_redirects);
}

#[test]
fn it_allows_tweaking_its_max_threads() {
    let mut instance = TitleGrabber::new(vec![], Path::new(DEF_OUT_PATH), false);
    let threads = 4;

    instance.with_max_threads(threads);

    assert_eq!(threads, instance.max_threads);
}

#[test]
fn it_allows_tweaking_its_max_retries() {
    let mut instance = TitleGrabber::new(vec![], Path::new(DEF_OUT_PATH), false);

    instance.with_max_retries(7).with_read_timeout(2);

    assert_eq!(7, instance.max_retries);
    assert_eq!(2, instance.read_timeout);
    assert_eq!(CONN_TO, instance.connect_timeout);
    assert_eq!(MAX_REDIRECTS, instance.max_redirects);
}

#[test]
fn defaults_have_their_values() {
    assert_eq!("output.csv", DEF_OUT_PATH);
    assert_eq!(30, CONN_TO);
    assert_eq!(30, READ_TO);
    assert_eq!(5, MAX_REDIRECTS);
    assert_eq!(3, MAX_RETRIES);
    let files = vec![Path::new("a.txt"), Path::new("b.txt")];
    let instance = TitleGrabber::with_defaults(files, Path::new("out.csv"), 2);
    assert_eq!(2, instance.files.len());
    assert_eq!(Some("b.txt"), instance.files[1].to_str());
    assert_eq!(Some("out.csv"), instance.output_path.to_str());
    assert_eq!(2, instance.max_threads);
}
