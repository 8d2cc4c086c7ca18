//! Whitespace normalisation of titles.
use vstd::prelude::*;
use vstd::string::*;

verus! {

/// Whether `c` has the Unicode property `White_Space`.
pub open spec fn is_space(c: char) -> bool {
    let n = c as u32;
    (0x09 <= n <= 0x0D) || n == 0x20 || n == 0x85 || n == 0xA0 || n == 0x1680 || (0x2000 <= n
        <= 0x200A) || n == 0x2028 || n == 0x2029 || n == 0x202F || n == 0x205F || n == 0x3000
}

/// `s` without its leading whitespace.
pub open spec fn trim_start(s: Seq<char>) -> Seq<char>
    decreases s.len(),
{
    if s.len() > 0 && is_space(s[0]) {
        trim_start(s.drop_first())
    } else {
        s
    }
}

/// `s` without its trailing whitespace.
pub open spec fn trim_end(s: Seq<char>) -> Seq<char>
    decreases s.len(),
{
    if s.len() > 0 && is_space(s.last()) {
        trim_end(s.drop_last())
    } else {
        s
    }
}

/// `s` without leading and trailing whitespace.
pub open spec fn trimmed(s: Seq<char>) -> Seq<char> {
    trim_end(trim_start(s))
}

/// `s` with every line feed replaced by a space.
pub open spec fn unbroken(s: Seq<char>) -> Seq<char> {
    Seq::new(s.len(), |i: int| if s[i] == '\n' { ' ' } else { s[i] })
}

/// What position `i` of `s` contributes once whitespace runs are squeezed:
/// a character outside a run stays, the first character of a run of two or
/// more becomes one space, and the rest of that run contributes nothing.
pub open spec fn squeezed_at(s: Seq<char>, i: int) -> Seq<char> {
    if !is_space(s[i]) {
        seq![s[i]]
    } else if i > 0 && is_space(s[i - 1]) {
        Seq::empty()
    } else if i + 1 < s.len() && is_space(s[i + 1]) {
        seq![' ']
    } else {
        seq![s[i]]
    }
}

/// The contributions of the first `n` positions of `s`, in order.
pub open spec fn squeezed_upto(s: Seq<char>, n: nat) -> Seq<char>
    decreases n,
{
    if n == 0 {
        Seq::empty()
    } else {
        squeezed_upto(s, (n - 1) as nat) + squeezed_at(s, n - 1)
    }
}

/// `s` with every run of two or more whitespace characters replaced by one space.
pub open spec fn squeezed(s: Seq<char>) -> Seq<char> {
    squeezed_upto(s, s.len())
}

/// The normal form of a title: trimmed, line feeds turned into spaces,
/// whitespace runs squeezed.
pub open spec fn normalized(s: Seq<char>) -> Seq<char> {
    squeezed(unbroken(trimmed(s)))
}

/// A string that normalisation leaves alone: no whitespace at either end, no
/// line feed, no two whitespace characters in a row.
pub open spec fn is_tidy(s: Seq<char>) -> bool {
    &&& s.len() > 0 ==> !is_space(s[0]) && !is_space(s.last())
    &&& forall|i: int| 0 <= i < s.len() ==> s[i] != '\n'
    &&& forall|i: int| 0 <= i < s.len() - 1 ==> !(is_space(s[i]) && is_space(#[trigger] s[i + 1]))
}

pub fn is_space_char(c: char) -> (r: bool)
    ensures
        r == is_space(c),
{
    let n: u32 = c as u32;
    (0x09 <= n && n <= 0x0D) || n == 0x20 || n == 0x85 || n == 0xA0 || n == 0x1680 || (0x2000 <= n
        && n <= 0x200A) || n == 0x2028 || n == 0x2029 || n == 0x202F || n == 0x205F || n == 0x3000
}

proof fn lemma_trim_start_skips(s: Seq<char>, lo: int)
    requires
        0 <= lo <= s.len(),
        forall|k: int| 0 <= k < lo ==> is_space(s[k]),
        lo < s.len() ==> !is_space(s[lo]),
    ensures
        trim_start(s) == s.skip(lo),
    decreases lo,
{
    if lo == 0 {
        assert(s.skip(0) =~= s);
    } else {
        let t = s.drop_first();
        assert forall|k: int| 0 <= k < lo - 1 implies is_space(t[k]) by {
            assert(t[k] == s[k + 1]);
        }
        lemma_trim_start_skips(t, lo - 1);
        assert(t.skip(lo - 1) =~= s.skip(lo));
    }
}

proof fn lemma_trim_end_takes(s: Seq<char>, hi: int)
    requires
        0 <= hi <= s.len(),
        forall|k: int| hi <= k < s.len() ==> is_space(s[k]),
        hi > 0 ==> !is_space(s[hi - 1]),
    ensures
        trim_end(s) == s.take(hi),
    decreases s.len() - hi,
{
    if hi == s.len() {
        assert(s.take(hi) =~= s);
    } else {
        let t = s.drop_last();
        lemma_trim_end_takes(t, hi);
        assert(t.take(hi) =~= s.take(hi));
    }
}

/// Normalises the whitespace of a title: trims it, turns line feeds into
/// spaces and replaces every run of two or more whitespace characters by a
/// single space.
pub fn fix_whitespace(html: String) -> (r: String)
    ensures
        r@ == normalized(html@),
        is_tidy(r@),
{
    let s = html.as_str();
    let n: usize = s.unicode_len();
    let mut lo: usize = 0;
    while lo < n && is_space_char(s.get_char(lo))
        invariant
            lo <= n,
            n == s@.len(),
            forall|k: int| 0 <= k < lo ==> is_space(s@[k]),
        decreases n - lo,
    {
        lo += 1;
    }
    let mut hi: usize = n;
    while hi > lo && is_space_char(s.get_char(hi - 1))
        invariant
            lo <= hi <= n,
            n == s@.len(),
            forall|k: int| hi <= k < n ==> is_space(s@[k]),
        decreases hi,
    {
        hi -= 1;
    }
    let ghost w = s@.subrange(lo as int, hi as int);
    let ghost u = unbroken(w);
    proof {
        lemma_trim_start_skips(s@, lo as int);
        let t = s@.skip(lo as int);
        assert forall|k: int| hi - lo <= k < t.len() implies is_space(t[k]) by {
            assert(t[k] == s@[k + lo]);
        }
        lemma_trim_end_takes(t, hi - lo);
        assert(t.take(hi - lo) =~= w);
        assert(trimmed(s@) == w);
        reveal_strlit(" ");
        assert(" "@ =~= seq![' ']);
    }
    let mut out = String::new();
    let mut i: usize = lo;
    while i < hi
        invariant
            lo <= i <= hi <= n,
            n == s@.len(),
            w == s@.subrange(lo as int, hi as int),
            u == unbroken(w),
            " "@ == seq![' '],
            out@ == squeezed_upto(u, (i - lo) as nat),
        decreases hi - i,
    {
        let c = s.get_char(i);
        let ghost k = i - lo;
        proof {
            assert(w[k] == c);
            assert(is_space(u[k]) == is_space(c));
            if k > 0 {
                assert(is_space(u[k - 1]) == is_space(s@[i - 1]));
            }
            if k + 1 < u.len() {
                assert(is_space(u[k + 1]) == is_space(s@[i + 1]));
            }
        }
        if !is_space_char(c) {
            out.append(s.substring_char(i, i + 1));
            assert(s@.subrange(i as int, i + 1) =~= seq![c]);
        } else if i > lo && is_space_char(s.get_char(i - 1)) {
            assert(out@ + Seq::<char>::empty() =~= out@);
        } else if i + 1 < hi && is_space_char(s.get_char(i + 1)) {
            out.append(" ");
        } else if c == '\n' {
            out.append(" ");
        } else {
            out.append(s.substring_char(i, i + 1));
            assert(s@.subrange(i as int, i + 1) =~= seq![c]);
        }
        i += 1;
    }
    proof {
        lemma_normalized_is_tidy(html@);
    }
    out
}

proof fn lemma_trim_start_edge(s: Seq<char>)
    ensures
        trim_start(s).len() > 0 ==> !is_space(trim_start(s)[0]),
    decreases s.len(),
{
    if s.len() > 0 && is_space(s[0]) {
        lemma_trim_start_edge(s.drop_first());
    }
}

proof fn lemma_trim_end_edge(s: Seq<char>)
    ensures
        trim_end(s).len() > 0 ==> !is_space(trim_end(s).last()) && trim_end(s)[0] == s[0],
        trim_end(s).len() <= s.len(),
    decreases s.len(),
{
    if s.len() > 0 && is_space(s.last()) {
        lemma_trim_end_edge(s.drop_last());
    }
}

proof fn lemma_squeezed_upto_shape(u: Seq<char>, n: nat)
    requires
        n <= u.len(),
        forall|i: int| 0 <= i < u.len() ==> u[i] != '\n',
    ensures
        ({
            let r = squeezed_upto(u, n);
            &&& forall|i: int| 0 <= i < r.len() ==> r[i] != '\n'
            &&& forall|i: int|
                0 <= i < r.len() - 1 ==> !(is_space(r[i]) && is_space(#[trigger] r[i + 1]))
            &&& n > 0 ==> r.len() > 0 && is_space(r.last()) == is_space(u[n - 1]) && is_space(r[0])
                == is_space(u[0])
            &&& n == 0 ==> r.len() == 0
        }),
    decreases n,
{
    if n > 0 {
        lemma_squeezed_upto_shape(u, (n - 1) as nat);
        let p = squeezed_upto(u, (n - 1) as nat);
        let piece = squeezed_at(u, n - 1);
        let r = p + piece;
        assert(r == squeezed_upto(u, n));
        assert forall|i: int| 0 <= i < r.len() implies r[i] != '\n' by {
            if i < p.len() {
                assert(r[i] == p[i]);
            } else {
                assert(r[i] == piece[i - p.len()]);
            }
        }
        assert forall|i: int| 0 <= i < r.len() - 1 implies !(is_space(r[i]) && is_space(
            #[trigger] r[i + 1],
        )) by {
            if i + 1 < p.len() {
                assert(r[i] == p[i]);
                assert(r[i + 1] == p[i + 1]);
            } else {
                assert(r[i] == p[i]);
                assert(r[i + 1] == piece[0]);
            }
        }
        if p.len() > 0 {
            assert(r[0] == p[0]);
        }
    }
}

proof fn lemma_squeezed_upto_tidy(t: Seq<char>, n: nat)
    requires
        n <= t.len(),
        forall|i: int| 0 <= i < t.len() - 1 ==> !(is_space(t[i]) && is_space(#[trigger] t[i + 1])),
    ensures
        squeezed_upto(t, n) == t.take(n as int),
    decreases n,
{
    if n == 0 {
        assert(t.take(0) =~= Seq::<char>::empty());
    } else {
        lemma_squeezed_upto_tidy(t, (n - 1) as nat);
        if n >= 2 {
            assert(!(is_space(t[n - 2]) && is_space(t[(n - 2) + 1])));
        }
        assert(squeezed_at(t, n - 1) == seq![t[n - 1]]);
        assert(t.take(n as int) =~= t.take(n - 1) + seq![t[n - 1]]);
    }
}

proof fn lemma_normalized_is_tidy(s: Seq<char>)
    ensures
        is_tidy(normalized(s)),
{
    let a = trim_start(s);
    let w = trim_end(a);
    let u = unbroken(w);
    lemma_trim_start_edge(s);
    lemma_trim_end_edge(a);
    lemma_squeezed_upto_shape(u, u.len());
    let r = squeezed(u);
    if r.len() > 0 {
        assert(u.len() > 0);
        assert(is_space(u[0]) == is_space(w[0]));
        assert(is_space(u.last()) == is_space(w.last()));
    }
}

proof fn lemma_tidy_is_fixed(t: Seq<char>)
    requires
        is_tidy(t),
    ensures
        normalized(t) == t,
{
    assert(trim_start(t) == t);
    assert(trim_end(t) == t);
    assert(unbroken(t) =~= t);
    lemma_squeezed_upto_tidy(t, t.len());
    assert(t.take(t.len() as int) =~= t);
}

/// Normalising is idempotent: a normalised string is its own normal form.
pub proof fn normalized_is_idempotent(s: Seq<char>)
    ensures
        normalized(normalized(s)) == normalized(s),
{
    lemma_normalized_is_tidy(s);
    lemma_tidy_is_fixed(normalized(s));
}

/// A tidy string is its own normal form, and only a tidy one is.
pub proof fn normalized_fixes_exactly_tidy(s: Seq<char>)
    ensures
        is_tidy(s) <==> normalized(s) == s,
{
    if is_tidy(s) {
        lemma_tidy_is_fixed(s);
    }
    if normalized(s) == s {
        lemma_normalized_is_tidy(s);
    }
}

} // verus!
