//! Permalink resolution: a page of the permalink host is often a thin wrapper
//! round the posts it embeds, so its row points at what it refers to.
use vstd::prelude::*;
use vstd::string::*;
use crate::listing::{join, joined, same_text, sorted_unique, strictly_sorted};
use crate::location::{join_url, parse_url, url_joined, url_parsed, Location, LocationView};
use crate::page::{select_attrs, selected_attrs};
use crate::shape::{first_url, has_status_shape, is_status_path, looks_like_url};

verus! {

/// Whether a location lies on the permalink host.
pub open spec fn on_permalink_host(l: LocationView) -> bool {
    l.host == Some("twitter.com"@)
}

/// How many `/` a path holds.
pub open spec fn slashes(path: Seq<char>) -> nat
    decreases path.len(),
{
    if path.len() == 0 {
        0
    } else {
        slashes(path.drop_last()) + if path.last() == '/' {
            1nat
        } else {
            0nat
        }
    }
}

/// Whether a location that a candidate resolved to is kept: one on the
/// permalink host must end in the status-id shape.
pub open spec fn keeps_resolved(l: LocationView) -> bool {
    on_permalink_host(l) ==> has_status_shape(l.path)
}

/// Whether a location passes the last filter: one on the permalink host
/// whose path has more than one segment must end in the status-id shape.
pub open spec fn keeps_final(l: LocationView) -> bool {
    on_permalink_host(l) && slashes(l.path) > 1 ==> has_status_shape(l.path)
}

/// What becomes of a candidate once its secondary fetch is over. A candidate
/// that does not look like a full URL is never fetched and stays. One that
/// does, and whose fetch gave no location, stays too. Otherwise the location
/// takes its place, unless it lies on the permalink host without the
/// status-id shape: then the candidate is dropped.
pub open spec fn settled(candidate: Seq<char>, fetched: Option<Seq<char>>) -> Option<Seq<char>> {
    if first_url(candidate) is None {
        Some(candidate)
    } else {
        match fetched {
            None => Some(candidate),
            Some(t) => match url_parsed(t) {
                Some(l) => if keeps_resolved(l) {
                    Some(t)
                } else {
                    None
                },
                None => Some(t),
            },
        }
    }
}

/// A settled candidate as a location: a relative path is resolved against
/// the origin of the permalink host, anything else is parsed as it stands.
pub open spec fn absolute(t: Seq<char>) -> Option<LocationView> {
    if t.len() > 0 && t[0] == '/' {
        url_joined("https://twitter.com"@, t)
    } else {
        url_parsed(t)
    }
}

/// The text under which a candidate survives, if it does.
pub open spec fn survivor(candidate: Seq<char>, fetched: Option<Seq<char>>) -> Option<Seq<char>> {
    match settled(candidate, fetched) {
        None => None,
        Some(t) => match absolute(t) {
            None => None,
            Some(l) => if keeps_final(l) {
                Some(l.text)
            } else {
                None
            },
        },
    }
}

/// The outcome of the secondary fetch of candidate `i`: `None` where none is recorded.
pub open spec fn outcome_at(fetched: Seq<Option<Seq<char>>>, i: int) -> Option<Seq<char>> {
    if 0 <= i < fetched.len() {
        fetched[i]
    } else {
        None
    }
}

/// The survivors among the first `n` candidates, in the candidates' order.
pub open spec fn survivors(
    candidates: Seq<Seq<char>>,
    fetched: Seq<Option<Seq<char>>>,
    n: nat,
) -> Seq<Seq<char>>
    decreases n,
{
    if n == 0 {
        Seq::empty()
    } else {
        let prev = survivors(candidates, fetched, (n - 1) as nat);
        match survivor(candidates[n - 1], outcome_at(fetched, n - 1)) {
            Some(t) => prev.push(t),
            None => prev,
        }
    }
}

/// Whether `s` is among the attribute values that were found.
pub open spec fn present(found: Option<Seq<Option<Seq<char>>>>, s: Seq<char>) -> bool {
    found is Some && found.unwrap().contains(Some(s))
}

/// The `end_url` that a list of links gives: the links joined by a comma,
/// or the page's own location where that is empty.
pub open spec fn composed(links: Seq<Seq<char>>, page_url: Seq<char>) -> Seq<char> {
    if joined(links, ","@).len() == 0 {
        page_url
    } else {
        joined(links, ","@)
    }
}

/// Whether a location lies on the permalink host.
pub fn is_on_permalink_host(l: &Location) -> (r: bool)
    ensures
        r == on_permalink_host(l@),
{
    match &l.host {
        Some(h) => same_text(h.as_str(), "twitter.com"),
        None => false,
    }
}

/// Counts the `/` in a path.
pub fn count_slashes(path: &str) -> (r: usize)
    ensures
        r == slashes(path@),
{
    let n: usize = path.unicode_len();
    let mut count: usize = 0;
    let mut i: usize = 0;
    while i < n
        invariant
            i <= n,
            n == path@.len(),
            count <= i,
            count == slashes(path@.take(i as int)),
        decreases n - i,
    {
        proof {
            assert(path@.take(i + 1).drop_last() =~= path@.take(i as int));
        }
        if path.get_char(i) == '/' {
            count += 1;
        }
        i += 1;
    }
    assert(path@.take(n as int) =~= path@);
    count
}

/// Whether a location that a candidate resolved to is kept.
pub fn is_kept_resolved(l: &Location) -> (r: bool)
    ensures
        r == keeps_resolved(l@),
{
    !is_on_permalink_host(l) || is_status_path(l.path.as_str())
}

/// Whether a location passes the last filter.
pub fn is_kept_final(l: &Location) -> (r: bool)
    ensures
        r == keeps_final(l@),
{
    !(is_on_permalink_host(l) && count_slashes(l.path.as_str()) > 1) || is_status_path(
        l.path.as_str(),
    )
}

/// Whether a page at `page_url` is one whose embedded links are resolved:
/// one that lies on the permalink host.
pub fn is_permalink_page(page_url: &str) -> (r: bool)
    ensures
        r == (url_parsed(page_url@) is Some && on_permalink_host(url_parsed(page_url@).unwrap())),
{
    match parse_url(page_url) {
        Some(l) => is_on_permalink_host(&l),
        None => false,
    }
}

/// Whether a candidate gets a secondary fetch: whether it looks like a full URL.
pub fn needs_lookup(candidate: &str) -> (r: bool)
    ensures
        r == (first_url(candidate@) is Some),
{
    looks_like_url(candidate)
}

/// Whether `after` holds `s` exactly if `before` did or `s` is a non-empty
/// value among those found.
spec fn gained(
    after: Seq<Seq<char>>,
    before: Seq<Seq<char>>,
    found: Option<Seq<Option<Seq<char>>>>,
    s: Seq<char>,
) -> bool {
    after.contains(s) <==> before.contains(s) || (s.len() > 0 && present(found, s))
}

/// Adds to `acc` the attribute values found that are not empty.
fn push_targets(found: &Option<Vec<Option<String>>>, acc: &mut Vec<String>)
    ensures
        forall|s: Seq<char>|
            #[trigger] gained(final(acc).deep_view(), old(acc).deep_view(), found.deep_view(), s),
{
    match found {
        Some(values) => {
            let ghost vs = found.deep_view().unwrap();
            let mut i: usize = 0;
            while i < values.len()
                invariant
                    i <= values.len(),
                    vs == values.deep_view(),
                    forall|s: Seq<char>|
                        acc.deep_view().contains(s) <==> old(acc).deep_view().contains(s) || (s.len()
                            > 0 && vs.take(i as int).contains(Some(s))),
                decreases values.len() - i,
            {
                let ghost before = acc.deep_view();
                let ghost head = vs.take(i as int);
                let ghost next = vs.take(i + 1);
                assert(next =~= head.push(vs[i as int]));
                assert(vs[i as int] == values@[i as int].deep_view());
                let mut added: bool = false;
                match &values[i] {
                    Some(v) => {
                        if !v.as_str().is_empty() {
                            acc.push(v.clone());
                            added = true;
                            assert(acc.deep_view() =~= before.push(v@));
                        }
                    },
                    None => {},
                }
                proof {
                    let after = acc.deep_view();
                    assert forall|s: Seq<char>|
                        after.contains(s) <==> old(acc).deep_view().contains(s) || (s.len() > 0
                            && next.contains(Some(s))) by {
                        if after.contains(s) {
                            let j = choose|j: int| 0 <= j < after.len() && after[j] == s;
                            if j < before.len() {
                                assert(before[j] == s);
                                assert(before.contains(s));
                                if head.contains(Some(s)) {
                                    let k = choose|k: int| 0 <= k < head.len() && head[k] == Some(s);
                                    assert(next[k] == Some(s));
                                }
                            } else {
                                assert(next[i as int] == Some(s));
                            }
                        }
                        if old(acc).deep_view().contains(s) || (s.len() > 0 && head.contains(
                            Some(s),
                        )) {
                            assert(before.contains(s));
                            let j = choose|j: int| 0 <= j < before.len() && before[j] == s;
                            assert(after[j] == s);
                        }
                        if s.len() > 0 && next.contains(Some(s)) {
                            let k = choose|k: int| 0 <= k < next.len() && next[k] == Some(s);
                            if k < i {
                                assert(head[k] == Some(s));
                            } else {
                                assert(added);
                                assert(after[after.len() - 1] == s);
                            }
                        }
                    }
                }
                i += 1;
            }
            assert(vs.take(values.len() as int) =~= vs);
        },
        None => {},
    }
}

/// The candidates that the link targets found in a page give: those that
/// are not empty, sorted, each once.
pub fn candidates_from(
    primary: &Option<Vec<Option<String>>>,
    quoted: &Option<Vec<Option<String>>>,
) -> (r: Vec<String>)
    ensures
        strictly_sorted(r.deep_view()),
        forall|s: Seq<char>|
            r.deep_view().contains(s) <==> s.len() > 0 && (present(primary.deep_view(), s)
                || present(quoted.deep_view(), s)),
{
    let mut acc: Vec<String> = Vec::new();
    let ghost a0 = acc.deep_view();
    push_targets(primary, &mut acc);
    let ghost a1 = acc.deep_view();
    push_targets(quoted, &mut acc);
    let ghost a2 = acc.deep_view();
    let r = sorted_unique(&acc);
    proof {
        assert(a0.len() == 0);
        assert forall|s: Seq<char>|
            r.deep_view().contains(s) <==> s.len() > 0 && (present(primary.deep_view(), s)
                || present(quoted.deep_view(), s)) by {
            assert(!a0.contains(s));
            assert(gained(a1, a0, primary.deep_view(), s));
            assert(gained(a2, a1, quoted.deep_view(), s));
            assert(r.deep_view().contains(s) <==> a2.contains(s));
        }
    }
    r
}

/// The candidates of a page: the targets of the links in the text of its
/// permalink container and in the content it quotes.
pub fn link_candidates(html: &str) -> (r: Vec<String>)
    ensures
        strictly_sorted(r.deep_view()),
        forall|s: Seq<char>|
            r.deep_view().contains(s) <==> s.len() > 0 && (present(
                selected_attrs(html@, ".tweet.permalink-tweet .tweet-text a"@, "href"@),
                s,
            ) || present(
                selected_attrs(html@, ".tweet.permalink-tweet QuoteTweet a"@, "href"@),
                s,
            )),
{
    let primary = select_attrs(html, ".tweet.permalink-tweet .tweet-text a", "href");
    let quoted = select_attrs(html, ".tweet.permalink-tweet QuoteTweet a", "href");
    candidates_from(&primary, &quoted)
}

/// Decides what becomes of a candidate that resolved to `resolved`.
pub fn settle_resolved(text: &str, resolved: &Option<Location>) -> (r: Option<String>)
    ensures
        r.deep_view() == match resolved {
            Some(l) => if keeps_resolved(l@) {
                Some(text@)
            } else {
                None
            },
            None => Some(text@),
        },
{
    match resolved {
        Some(l) => {
            if is_kept_resolved(l) {
                Some(String::from_str(text))
            } else {
                None
            }
        },
        None => Some(String::from_str(text)),
    }
}

/// Settles a candidate once its secondary fetch is over; `fetched` is the
/// location that the fetch ended at, `None` where there was no fetch or it failed.
pub fn settle(candidate: &str, fetched: &Option<String>) -> (r: Option<String>)
    ensures
        r.deep_view() == settled(candidate@, fetched.deep_view()),
{
    if !looks_like_url(candidate) {
        return Some(String::from_str(candidate));
    }
    match fetched {
        None => Some(String::from_str(candidate)),
        Some(t) => {
            let resolved = parse_url(t.as_str());
            settle_resolved(t.as_str(), &resolved)
        },
    }
}

/// Turns a settled candidate into a location.
pub fn make_absolute(t: &str) -> (r: Option<Location>)
    ensures
        r is Some <==> absolute(t@) is Some,
        r is Some ==> absolute(t@) == Some(r.unwrap()@),
{
    if t.unicode_len() > 0 && t.get_char(0) == '/' {
        join_url("https://twitter.com", t)
    } else {
        parse_url(t)
    }
}

/// The text under which a location survives the last filter, if it does.
pub fn filter_final(l: Option<Location>) -> (r: Option<String>)
    ensures
        r.deep_view() == match l {
            Some(l) => if keeps_final(l@) {
                Some(l@.text)
            } else {
                None
            },
            None => None,
        },
{
    match l {
        Some(l) => {
            if is_kept_final(&l) {
                Some(l.text)
            } else {
                None
            }
        },
        None => None,
    }
}

/// The links that survive, sorted, each once. `fetched[i]` is the outcome of
/// the secondary fetch of `candidates[i]`; a missing entry counts as `None`.
pub fn surviving_links(candidates: &Vec<String>, fetched: &Vec<Option<String>>) -> (r: Vec<String>)
    ensures
        strictly_sorted(r.deep_view()),
        forall|s: Seq<char>|
            r.deep_view().contains(s) <==> survivors(
                candidates.deep_view(),
                fetched.deep_view(),
                candidates.len() as nat,
            ).contains(s),
{
    let mut kept: Vec<String> = Vec::new();
    let mut i: usize = 0;
    let none: Option<String> = None;
    while i < candidates.len()
        invariant
            i <= candidates.len(),
            none is None,
            kept.deep_view() == survivors(candidates.deep_view(), fetched.deep_view(), i as nat),
        decreases candidates.len() - i,
    {
        let ghost before = kept.deep_view();
        let outcome = if i < fetched.len() {
            &fetched[i]
        } else {
            &none
        };
        assert(outcome.deep_view() == outcome_at(fetched.deep_view(), i as int));
        assert(candidates.deep_view()[i as int] == candidates@[i as int]@);
        let survives = match settle(candidates[i].as_str(), outcome) {
            Some(t) => filter_final(make_absolute(t.as_str())),
            None => None,
        };
        assert(survives.deep_view() == survivor(
            candidates@[i as int]@,
            outcome_at(fetched.deep_view(), i as int),
        ));
        match survives {
            Some(text) => {
                kept.push(text);
                assert(kept.deep_view() =~= before.push(text@));
            },
            None => {},
        }
        i += 1;
    }
    sorted_unique(&kept)
}

/// Composes the `end_url` of a row from the links that survived.
pub fn compose_end_url(links: &Vec<String>, page_url: &str) -> (r: String)
    ensures
        r@ == composed(links.deep_view(), page_url@),
{
    let all = join(links, ",");
    if all.as_str().is_empty() {
        String::from_str(page_url)
    } else {
        all
    }
}

/// A location that a secondary fetch ended at, on the permalink host, stays
/// only where its path ends in the status-id shape.
pub proof fn resolved_permalink_has_status_shape(candidate: Seq<char>, t: Seq<char>)
    requires
        first_url(candidate) is Some,
        settled(candidate, Some(t)) is Some,
        url_parsed(t) is Some,
        on_permalink_host(url_parsed(t).unwrap()),
    ensures
        has_status_shape(url_parsed(t).unwrap().path),
{
}

/// A candidate that a secondary fetch resolved survives only as the text of
/// the location that the fetch ended at, and on the permalink host only where
/// that location's path ends in the status-id shape. A location is absolute,
/// so it is taken not to start with `/`.
pub proof fn resolved_survivor_has_status_shape(candidate: Seq<char>, t: Seq<char>)
    requires
        first_url(candidate) is Some,
        survivor(candidate, Some(t)) is Some,
        !(t.len() > 0 && t[0] == '/'),
    ensures
        url_parsed(t) is Some,
        survivor(candidate, Some(t)) == Some(url_parsed(t).unwrap().text),
        on_permalink_host(url_parsed(t).unwrap()) ==> has_status_shape(url_parsed(t).unwrap().path),
{
    assert(settled(candidate, Some(t)) == Some(t));
    assert(absolute(t) == url_parsed(t));
}

/// A candidate survives only as the text of a location that passed the last
/// filter: on the permalink host, with more than one path segment, it ends in
/// the status-id shape.
pub proof fn survivor_passed_last_filter(candidate: Seq<char>, fetched: Option<Seq<char>>)
    requires
        survivor(candidate, fetched) is Some,
    ensures
        settled(candidate, fetched) is Some,
        absolute(settled(candidate, fetched).unwrap()) is Some,
        ({
            let l = absolute(settled(candidate, fetched).unwrap()).unwrap();
            &&& survivor(candidate, fetched) == Some(l.text)
            &&& on_permalink_host(l) && slashes(l.path) > 1 ==> has_status_shape(l.path)
        }),
{
}

/// Every survivor is the survivor of one of the candidates.
pub proof fn survivors_come_from_candidates(
    candidates: Seq<Seq<char>>,
    fetched: Seq<Option<Seq<char>>>,
    n: nat,
    s: Seq<char>,
)
    requires
        survivors(candidates, fetched, n).contains(s),
    ensures
        exists|i: int|
            0 <= i < n && #[trigger] survivor(candidates[i], outcome_at(fetched, i)) == Some(s),
    decreases n,
{
    if n > 0 {
        let prev = survivors(candidates, fetched, (n - 1) as nat);
        if prev.contains(s) {
            survivors_come_from_candidates(candidates, fetched, (n - 1) as nat, s);
        } else {
            let cur = survivors(candidates, fetched, n);
            let j = choose|j: int| 0 <= j < cur.len() && cur[j] == s;
            if j < prev.len() {
                assert(prev[j] == s);
            }
            assert(survivor(candidates[n - 1], outcome_at(fetched, n - 1)) == Some(s));
        }
    }
}

} // verus!
