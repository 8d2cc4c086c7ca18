use title_grabber_rs::retry::{classify, Fetch, Reply, Step, Verdict};

fn drive(replies: &[Reply], max_retries: u64) -> (Option<bool>, usize, Vec<u64>) {
    let mut fetch = Fetch::new(max_retries);
    let mut pauses = Vec::new();
    let mut requests = 0;
    for reply in replies {
        requests += 1;
        match fetch.on_reply(*reply) {
            Step::Proceed => return (Some(true), requests, pauses),
            Step::GiveUp => return (Some(false), requests, pauses),
            Step::RetryAfter { seconds } => pauses.push(seconds),
        }
    }
    (None, requests, pauses)
}

#[test]
fn replies_are_classified() {
    assert_eq!(Verdict::Success, classify(Reply::Status(200)));
    assert_eq!(Verdict::Success, classify(Reply::Status(304)));
    assert_eq!(Verdict::Success, classify(Reply::Status(399)));
    assert_eq!(Verdict::Terminal, classify(Reply::Status(400)));
    assert_eq!(Verdict::Terminal, classify(Reply::Status(404)));
    assert_eq!(Verdict::Terminal, classify(Reply::Status(499)));
    assert_eq!(Verdict::Retryable, classify(Reply::Status(500)));
    assert_eq!(Verdict::Retryable, classify(Reply::Status(503)));
    assert_eq!(Verdict::Retryable, classify(Reply::Status(599)));
    assert_eq!(Verdict::Success, classify(Reply::Status(600)));
    assert_eq!(Verdict::Retryable, classify(Reply::Transport));
    assert_eq!(Verdict::Retryable, classify(Reply::Timeout));
    assert_eq!(Verdict::Terminal, classify(Reply::Other));
}

#[test]
fn fetch_gives_up_after_all_permitted_requests() {
    let replies = [Reply::Timeout; 10];
    let (end, requests, pauses) = drive(&replies, 3);
    assert_eq!(Some(false), end);
    assert_eq!(4, requests);
    assert_eq!(vec![1, 2, 3], pauses);
}

#[test]
fn fetch_succeeds_on_its_last_permitted_request() {
    let replies = [Reply::Transport, Reply::Status(502), Reply::Timeout, Reply::Status(200)];
    let (end, requests, pauses) = drive(&replies, 3);
    assert_eq!(Some(true), end);
    assert_eq!(4, requests);
    assert_eq!(vec![1, 2, 3], pauses);
}

#[test]
fn fetch_does_not_retry_a_client_error() {
    let replies = [Reply::Status(404), Reply::Status(200)];
    assert_eq!((Some(false), 1, vec![]), drive(&replies, 3));
    let later = [Reply::Status(500), Reply::Status(403), Reply::Status(200)];
    assert_eq!((Some(false), 2, vec![1]), drive(&later, 3));
}

#[test]
fn fetch_without_retries_makes_one_request() {
    assert_eq!((Some(false), 1, vec![]), drive(&[Reply::Timeout, Reply::Status(200)], 0));
    assert_eq!((Some(true), 1, vec![]), drive(&[Reply::Status(200)], 0));
}

#[test]
fn fetch_state_counts_retries_only() {
    let mut fetch = Fetch::new(2);
    assert_eq!(Fetch { retries: 0, max_retries: 2 }, fetch);
    assert_eq!(Step::RetryAfter { seconds: 1 }, fetch.on_reply(Reply::Status(500)));
    assert_eq!(Fetch { retries: 1, max_retries: 2 }, fetch);
    assert_eq!(Step::RetryAfter { seconds: 2 }, fetch.on_reply(Reply::Transport));
    assert_eq!(Fetch { retries: 2, max_retries: 2 }, fetch);
    assert_eq!(Step::GiveUp, fetch.on_reply(Reply::Timeout));
    assert_eq!(Fetch { retries: 2, max_retries: 2 }, fetch);
    assert_eq!(Step::Proceed, fetch.on_reply(Reply::Status(200)));
    assert_eq!(Fetch { retries: 2, max_retries: 2 }, fetch);
}

#[test]
fn fetch_at_the_largest_budget_does_not_overflow() {
    let mut fetch = Fetch { retries: u64::MAX - 1, max_retries: u64::MAX };
    assert_eq!(Step::RetryAfter { seconds: u64::MAX }, fetch.on_reply(Reply::Timeout));
    assert_eq!(Step::GiveUp, fetch.on_reply(Reply::Timeout));
}
