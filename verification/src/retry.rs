//! The retry policy of a fetch: which failures are retried, how often, and
//! after how long a pause.
use vstd::prelude::*;

verus! {

/// How one request ended.
#[derive(Clone, Copy, Debug, PartialEq, Eq, Structural)]
pub enum Reply {
    /// A response came back, with this HTTP status.
    Status(u16),
    /// The connection or the transfer failed.
    Transport,
    /// The request ran into its connect or read timeout.
    Timeout,
    /// Any other failure, such as too many redirects or a body that cannot be read.
    Other,
}

/// What a reply means for the fetch.
#[derive(Clone, Copy, Debug, PartialEq, Eq, Structural)]
pub enum Verdict {
    Success,
    Retryable,
    Terminal,
}

/// What to do after a reply.
#[derive(Clone, Copy, Debug, PartialEq, Eq, Structural)]
pub enum Step {
    /// The page is there: go on to read it.
    Proceed,
    /// Pause for so many seconds, then issue the request again.
    RetryAfter { seconds: u64 },
    /// No row for this URL.
    GiveUp,
}

/// Transport failures, timeouts and 5xx statuses are retryable; 4xx statuses
/// and other failures are terminal; every other status is a success.
pub open spec fn verdict_of(reply: Reply) -> Verdict {
    match reply {
        Reply::Status(code) => if 500 <= code <= 599 {
            Verdict::Retryable
        } else if 400 <= code <= 499 {
            Verdict::Terminal
        } else {
            Verdict::Success
        },
        Reply::Transport => Verdict::Retryable,
        Reply::Timeout => Verdict::Retryable,
        Reply::Other => Verdict::Terminal,
    }
}

/// The step after a reply, with `retries` retries made so far: a retryable
/// failure is retried while `retries` is below `max_retries`, after a pause
/// of `retries + 1` seconds.
pub open spec fn next_step(retries: u64, max_retries: u64, reply: Reply) -> Step {
    match verdict_of(reply) {
        Verdict::Success => Step::Proceed,
        Verdict::Terminal => Step::GiveUp,
        Verdict::Retryable => if retries < max_retries {
            Step::RetryAfter { seconds: (retries + 1) as u64 }
        } else {
            Step::GiveUp
        },
    }
}

/// How a fetch ends on a series of replies, starting with `retries` retries
/// made: whether it got its page, and after how many requests. `None` where
/// the replies run out before the fetch ends.
pub open spec fn fetch_end(replies: Seq<Reply>, retries: u64, max_retries: u64) -> Option<
    (bool, nat),
>
    decreases replies.len(),
{
    if replies.len() == 0 {
        None
    } else {
        match next_step(retries, max_retries, replies[0]) {
            Step::Proceed => Some((true, 1nat)),
            Step::GiveUp => Some((false, 1nat)),
            Step::RetryAfter { seconds } => match fetch_end(
                replies.drop_first(),
                (retries + 1) as u64,
                max_retries,
            ) {
                Some((got, requests)) => Some((got, requests + 1)),
                None => None,
            },
        }
    }
}

/// Classifies a reply.
pub fn classify(reply: Reply) -> (r: Verdict)
    ensures
        r == verdict_of(reply),
{
    match reply {
        Reply::Status(code) => {
            if 500 <= code && code <= 599 {
                Verdict::Retryable
            } else if 400 <= code && code <= 499 {
                Verdict::Terminal
            } else {
                Verdict::Success
            }
        },
        Reply::Transport => Verdict::Retryable,
        Reply::Timeout => Verdict::Retryable,
        Reply::Other => Verdict::Terminal,
    }
}

/// The state of one fetch: how many retries it has made, and how many it may make.
#[derive(Clone, Copy, Debug, PartialEq, Eq, Structural)]
pub struct Fetch {
    pub retries: u64,
    pub max_retries: u64,
}

impl Fetch {
    /// A fetch before its first request.
    pub fn new(max_retries: u64) -> (r: Fetch)
        ensures
            r == (Fetch { retries: 0, max_retries }),
    {
        Fetch { retries: 0, max_retries }
    }

    /// Takes the reply to the request just made and says what to do next.
    /// A retry is counted; otherwise the state stays as it was.
    pub fn on_reply(&mut self, reply: Reply) -> (step: Step)
        ensures
            step == next_step(old(self).retries, old(self).max_retries, reply),
            final(self).max_retries == old(self).max_retries,
            final(self).retries == if step is RetryAfter {
                old(self).retries + 1
            } else {
                old(self).retries as int
            },
    {
        match classify(reply) {
            Verdict::Success => Step::Proceed,
            Verdict::Terminal => Step::GiveUp,
            Verdict::Retryable => {
                if self.retries < self.max_retries {
                    self.retries = self.retries + 1;
                    Step::RetryAfter { seconds: self.retries }
                } else {
                    Step::GiveUp
                }
            },
        }
    }
}

/// Whether the first `n` replies are all retryable failures.
pub open spec fn all_retryable(replies: Seq<Reply>, n: int) -> bool {
    forall|i: int| 0 <= i < n ==> verdict_of(#[trigger] replies[i]) == Verdict::Retryable
}

proof fn lemma_fetch_end_after_failures(replies: Seq<Reply>, retries: u64, max_retries: u64)
    requires
        retries <= max_retries,
        replies.len() > max_retries - retries,
        all_retryable(replies, max_retries - retries),
    ensures
        fetch_end(replies, retries, max_retries) == Some(
            (
                verdict_of(replies[max_retries - retries]) == Verdict::Success,
                (max_retries - retries + 1) as nat,
            ),
        ),
    decreases max_retries - retries,
{
    if retries < max_retries {
        let rest = replies.drop_first();
        assert(verdict_of(replies[0]) == Verdict::Retryable);
        assert forall|i: int| 0 <= i < max_retries - retries - 1 implies verdict_of(
            #[trigger] rest[i],
        ) == Verdict::Retryable by {
            assert(rest[i] == replies[i + 1]);
        }
        lemma_fetch_end_after_failures(rest, (retries + 1) as u64, max_retries);
        assert(rest[max_retries - retries - 1] == replies[max_retries - retries]);
    }
}

/// A fetch whose requests all fail with a retryable error gives up after
/// `max_retries + 1` requests: the first one and `max_retries` retries.
pub proof fn fetch_gives_up_when_retries_are_spent(replies: Seq<Reply>, max_retries: u64)
    requires
        replies.len() > max_retries,
        all_retryable(replies, max_retries + 1),
    ensures
        fetch_end(replies, 0, max_retries) == Some((false, (max_retries + 1) as nat)),
{
    assert(verdict_of(replies[max_retries as int]) == Verdict::Retryable);
    lemma_fetch_end_after_failures(replies, 0, max_retries);
}

/// A fetch that fails `max_retries` times with a retryable error and then
/// succeeds, on its last permitted request, gets its page.
pub proof fn fetch_succeeds_on_last_permitted_request(replies: Seq<Reply>, max_retries: u64)
    requires
        replies.len() > max_retries,
        all_retryable(replies, max_retries as int),
        verdict_of(replies[max_retries as int]) == Verdict::Success,
    ensures
        fetch_end(replies, 0, max_retries) == Some((true, (max_retries + 1) as nat)),
{
    lemma_fetch_end_after_failures(replies, 0, max_retries);
}

/// A fetch that ends makes at least one request, and no more than the
/// retries it has left allow: `max_retries + 1` requests from a fresh start.
pub proof fn fetch_makes_bounded_requests(replies: Seq<Reply>, retries: u64, max_retries: u64)
    requires
        retries <= max_retries,
    ensures
        fetch_end(replies, retries, max_retries) is Some ==> 1 <= fetch_end(
            replies,
            retries,
            max_retries,
        ).unwrap().1 <= max_retries - retries + 1,
    decreases replies.len(),
{
    if replies.len() > 0 {
        if next_step(retries, max_retries, replies[0]) is RetryAfter {
            fetch_makes_bounded_requests(replies.drop_first(), (retries + 1) as u64, max_retries);
        }
    }
}

} // verus!
