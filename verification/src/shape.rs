//! The two shapes that the rules recognise in text: a URL-shaped substring of
//! a line, and the status-id ending of a permalink's path.
use vstd::prelude::*;
use vstd::string::*;
use crate::text::{is_space, is_space_char};

verus! {

/// Whether `p` stands in `s` at position `i`.
pub open spec fn has_prefix(s: Seq<char>, i: int, p: Seq<char>) -> bool {
    0 <= i && i + p.len() <= s.len() && s.subrange(i, i + p.len()) == p
}

/// The length of the scheme prefix (`http://` or `https://`) that stands in
/// `s` at position `i`; zero where neither does.
pub open spec fn scheme_len(s: Seq<char>, i: int) -> int {
    if has_prefix(s, i, "http://"@) {
        "http://"@.len() as int
    } else if has_prefix(s, i, "https://"@) {
        "https://"@.len() as int
    } else {
        0
    }
}

/// Whether a URL-shaped substring starts at position `i` of `s`: a scheme
/// prefix followed by at least one character that is not whitespace.
pub open spec fn url_starts_at(s: Seq<char>, i: int) -> bool {
    let k = scheme_len(s, i);
    k > 0 && i + k < s.len() && !is_space(s[i + k])
}

/// The end of the run of non-whitespace characters that holds position `j`:
/// the first position from `j` on that is whitespace or the end of `s`.
pub open spec fn run_end(s: Seq<char>, j: int) -> int
    decreases s.len() - j,
{
    if 0 <= j < s.len() && !is_space(s[j]) {
        run_end(s, j + 1)
    } else {
        j
    }
}

/// The bounds of the first URL-shaped substring of `s` that starts at
/// position `i` or later.
pub open spec fn first_url_from(s: Seq<char>, i: int) -> Option<(int, int)>
    decreases s.len() - i,
{
    if i < 0 || i >= s.len() {
        None
    } else if url_starts_at(s, i) {
        Some((i, run_end(s, i + scheme_len(s, i))))
    } else {
        first_url_from(s, i + 1)
    }
}

/// The first URL-shaped substring of `s`: it starts at the leftmost position
/// where a scheme prefix is followed by a non-whitespace character, and runs
/// up to the next whitespace or the end of `s`.
pub open spec fn first_url(s: Seq<char>) -> Option<Seq<char>> {
    match first_url_from(s, 0) {
        Some((a, b)) => Some(s.subrange(a, b)),
        None => None,
    }
}

/// Whether `c` is one of the digits `0` to `9`.
pub open spec fn is_digit(c: char) -> bool {
    '0' <= c <= '9'
}

/// Whether `s` from position `j` on is a non-empty run of digits.
pub open spec fn digits_from(s: Seq<char>, j: int) -> bool {
    0 <= j < s.len() && forall|k: int| j <= k < s.len() ==> is_digit(s[k])
}

/// Whether `path` ends in the canonical status-id shape: the segment
/// `/status/` followed by one or more digits, with nothing after them.
pub open spec fn has_status_shape(path: Seq<char>) -> bool {
    exists|i: int| has_prefix(path, i, "/status/"@) && digits_from(path, i + "/status/"@.len())
}

fn has_prefix_at(s: &str, i: usize, p: &str) -> (r: bool)
    requires
        i <= s@.len(),
    ensures
        r == has_prefix(s@, i as int, p@),
{
    let n: usize = s.unicode_len();
    let m: usize = p.unicode_len();
    if m > n - i {
        return false;
    }
    let mut k: usize = 0;
    while k < m
        invariant
            k <= m,
            i + m <= n,
            n == s@.len(),
            m == p@.len(),
            forall|j: int| 0 <= j < k ==> s@[i + j] == p@[j],
        decreases m - k,
    {
        if s.get_char(i + k) != p.get_char(k) {
            assert(s@.subrange(i as int, i + m)[k as int] == s@[i + k]);
            return false;
        }
        k += 1;
    }
    assert(s@.subrange(i as int, i + m) =~= p@);
    true
}

fn scheme_len_at(s: &str, i: usize) -> (k: usize)
    requires
        i <= s@.len(),
    ensures
        k == scheme_len(s@, i as int),
        i + k <= s@.len(),
{
    if has_prefix_at(s, i, "http://") {
        "http://".unicode_len()
    } else if has_prefix_at(s, i, "https://") {
        "https://".unicode_len()
    } else {
        0
    }
}

/// Finds the first URL-shaped substring of a line. A line holds at most one
/// candidate: what follows the first match is not looked at.
pub fn find_url(line: &str) -> (r: Option<String>)
    ensures
        r.deep_view() == first_url(line@),
{
    let n: usize = line.unicode_len();
    let mut i: usize = 0;
    while i < n
        invariant
            i <= n,
            n == line@.len(),
            first_url_from(line@, 0) == first_url_from(line@, i as int),
        decreases n - i,
    {
        let k: usize = scheme_len_at(line, i);
        if k > 0 && i + k < n && !is_space_char(line.get_char(i + k)) {
            let mut j: usize = i + k + 1;
            assert(run_end(line@, i + k) == run_end(line@, i + k + 1));
            while j < n && !is_space_char(line.get_char(j))
                invariant
                    i + k < j <= n,
                    n == line@.len(),
                    run_end(line@, i + k) == run_end(line@, j as int),
                decreases n - j,
            {
                j += 1;
            }
            return Some(String::from_str(line.substring_char(i, j)));
        }
        i += 1;
    }
    None
}

/// Whether `text` holds a URL-shaped substring anywhere.
pub fn looks_like_url(text: &str) -> (r: bool)
    ensures
        r == (first_url(text@) is Some),
{
    find_url(text).is_some()
}

/// Whether a path ends in the canonical status-id shape.
pub fn is_status_path(path: &str) -> (r: bool)
    ensures
        r == has_status_shape(path@),
{
    let n: usize = path.unicode_len();
    let m: usize = "/status/".unicode_len();
    proof {
        reveal_strlit("/status/");
    }
    let mut d: usize = n;
    while d > 0 && is_digit_char(path.get_char(d - 1))
        invariant
            d <= n,
            n == path@.len(),
            forall|k: int| d <= k < n ==> is_digit(path@[k]),
        decreases d,
    {
        d -= 1;
    }
    if d == n || d < m {
        proof {
            assert forall|i: int| has_prefix(path@, i, "/status/"@) implies !digits_from(
                path@,
                i + "/status/"@.len(),
            ) by {
                lemma_status_meets_digits(path@, i, d as int);
            }
        }
        return false;
    }
    let r = has_prefix_at(path, d - m, "/status/");
    proof {
        if r {
            assert(digits_from(path@, (d - m) + "/status/"@.len()));
        } else {
            assert forall|i: int| has_prefix(path@, i, "/status/"@) implies !digits_from(
                path@,
                i + "/status/"@.len(),
            ) by {
                lemma_status_meets_digits(path@, i, d as int);
            }
        }
    }
    r
}

fn is_digit_char(c: char) -> (r: bool)
    ensures
        r == is_digit(c),
{
    '0' <= c && c <= '9'
}

/// Where `/status/` stands at `i` and only digits follow it, the trailing
/// run of digits of `s` starts right behind it.
proof fn lemma_status_meets_digits(s: Seq<char>, i: int, d: int)
    requires
        0 <= d <= s.len(),
        forall|k: int| d <= k < s.len() ==> is_digit(s[k]),
        d > 0 ==> !is_digit(s[d - 1]),
        has_prefix(s, i, "/status/"@),
    ensures
        digits_from(s, i + "/status/"@.len()) ==> d == i + "/status/"@.len() && d < s.len(),
{
    reveal_strlit("/status/");
    let m = "/status/"@.len() as int;
    assert(m == 8);
    assert(s.subrange(i, i + m)[m - 1] == '/');
    assert(s[i + m - 1] == '/');
    if digits_from(s, i + m) {
        if d > i + m {
            assert(is_digit(s[d - 1]));
        }
        if d < i + m {
            assert(is_digit(s[i + m - 1]));
        }
    }
}

/// The run that `run_end` closes holds no whitespace, and ends at whitespace
/// or at the end of the text.
pub proof fn run_end_closes_the_run(s: Seq<char>, j: int)
    requires
        0 <= j <= s.len(),
    ensures
        j <= run_end(s, j) <= s.len(),
        forall|k: int| j <= k < run_end(s, j) ==> !is_space(s[k]),
        run_end(s, j) == s.len() || is_space(s[run_end(s, j)]),
    decreases s.len() - j,
{
    if j < s.len() && !is_space(s[j]) {
        run_end_closes_the_run(s, j + 1);
    }
}

/// The first URL-shaped substring starts at the leftmost position where one
/// can start, and ends where the run of non-whitespace behind its scheme
/// prefix ends; there is none exactly if no position can start one.
pub proof fn first_url_is_leftmost(s: Seq<char>, i: int)
    requires
        0 <= i <= s.len(),
    ensures
        match first_url_from(s, i) {
            Some((a, b)) => {
                &&& i <= a < b <= s.len()
                &&& url_starts_at(s, a)
                &&& forall|j: int| i <= j < a ==> !url_starts_at(s, j)
                &&& b == run_end(s, a + scheme_len(s, a))
                &&& forall|k: int| a + scheme_len(s, a) <= k < b ==> !is_space(s[k])
                &&& b == s.len() || is_space(s[b])
            },
            None => forall|j: int| i <= j < s.len() ==> !url_starts_at(s, j),
        },
    decreases s.len() - i,
{
    if i < s.len() {
        if url_starts_at(s, i) {
            run_end_closes_the_run(s, i + scheme_len(s, i));
            assert(run_end(s, i + scheme_len(s, i)) == run_end(s, i + scheme_len(s, i) + 1));
            run_end_closes_the_run(s, i + scheme_len(s, i) + 1);
        } else {
            first_url_is_leftmost(s, i + 1);
        }
    }
}

} // verus!
