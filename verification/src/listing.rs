//! Lists of strings: their order, sorting without duplicates, joining.
use vstd::prelude::*;
use vstd::string::*;

verus! {

/// The order of strings: lexicographic by code point, a proper prefix first.
pub open spec fn str_lt(a: Seq<char>, b: Seq<char>) -> bool
    decreases a.len(),
{
    if b.len() == 0 {
        false
    } else if a.len() == 0 {
        true
    } else if a[0] != b[0] {
        a[0] < b[0]
    } else {
        str_lt(a.drop_first(), b.drop_first())
    }
}

/// Each item is below every later one: the list is sorted and holds nothing twice.
pub open spec fn strictly_sorted(v: Seq<Seq<char>>) -> bool {
    forall|i: int, j: int| 0 <= i < j < v.len() ==> str_lt(v[i], v[j])
}

/// The parts in order, with `sep` between each two neighbours.
pub open spec fn joined(parts: Seq<Seq<char>>, sep: Seq<char>) -> Seq<char>
    decreases parts.len(),
{
    if parts.len() == 0 {
        Seq::empty()
    } else if parts.len() == 1 {
        parts[0]
    } else {
        joined(parts.drop_last(), sep) + sep + parts.last()
    }
}

/// How one string stands to another in the order of strings.
#[derive(Clone, Copy, Debug, PartialEq, Eq, Structural)]
pub enum Rank {
    Before,
    Same,
    After,
}

/// No string is below itself.
pub proof fn str_lt_is_irreflexive(a: Seq<char>)
    ensures
        !str_lt(a, a),
    decreases a.len(),
{
    if a.len() > 0 {
        str_lt_is_irreflexive(a.drop_first());
    }
}

/// The order of strings is transitive.
pub proof fn str_lt_is_transitive(a: Seq<char>, b: Seq<char>, c: Seq<char>)
    requires
        str_lt(a, b),
        str_lt(b, c),
    ensures
        str_lt(a, c),
    decreases a.len(),
{
    if a.len() > 0 && a[0] == b[0] && b[0] == c[0] {
        str_lt_is_transitive(a.drop_first(), b.drop_first(), c.drop_first());
    }
}

/// Of two different strings one is below the other.
pub proof fn str_lt_is_total(a: Seq<char>, b: Seq<char>)
    ensures
        a == b || str_lt(a, b) || str_lt(b, a),
    decreases a.len(),
{
    if a.len() > 0 && b.len() > 0 && a[0] == b[0] {
        str_lt_is_total(a.drop_first(), b.drop_first());
        if a.drop_first() == b.drop_first() {
            assert(a =~= seq![a[0]] + a.drop_first());
            assert(b =~= seq![b[0]] + b.drop_first());
        }
    } else if a.len() == 0 && b.len() == 0 {
        assert(a =~= b);
    }
}

proof fn lemma_tail_items(a: Seq<Seq<char>>, b: Seq<Seq<char>>, s: Seq<char>)
    requires
        strictly_sorted(a),
        strictly_sorted(b),
        a.len() > 0,
        b.len() > 0,
        a[0] == b[0],
        forall|x: Seq<char>| a.contains(x) <==> b.contains(x),
        a.drop_first().contains(s),
    ensures
        b.drop_first().contains(s),
{
    let a1 = a.drop_first();
    let k = choose|k: int| 0 <= k < a1.len() && a1[k] == s;
    assert(a[k + 1] == s);
    assert(a.contains(s));
    let m = choose|m: int| 0 <= m < b.len() && b[m] == s;
    if m == 0 {
        assert(str_lt(a[0], a[k + 1]));
        str_lt_is_irreflexive(s);
    } else {
        assert(b.drop_first()[m - 1] == s);
    }
}

/// A strictly sorted list is determined by the strings it holds: two such
/// lists that hold the same strings are equal.
pub proof fn strictly_sorted_is_unique(a: Seq<Seq<char>>, b: Seq<Seq<char>>)
    requires
        strictly_sorted(a),
        strictly_sorted(b),
        forall|s: Seq<char>| a.contains(s) <==> b.contains(s),
    ensures
        a == b,
    decreases a.len(),
{
    if a.len() == 0 {
        if b.len() > 0 {
            assert(b.contains(b[0]));
            assert(a.contains(b[0]));
        }
        assert(a =~= b);
    } else {
        assert(a.contains(a[0]));
        assert(b.contains(a[0]));
        let j = choose|j: int| 0 <= j < b.len() && b[j] == a[0];
        assert(b.contains(b[0]));
        assert(a.contains(b[0]));
        let i = choose|i: int| 0 <= i < a.len() && a[i] == b[0];
        if j > 0 {
            assert(str_lt(b[0], b[j]));
            if i > 0 {
                assert(str_lt(a[0], a[i]));
                str_lt_is_transitive(a[0], b[0], a[0]);
            }
            str_lt_is_irreflexive(a[0]);
        }
        assert(a[0] == b[0]);
        let a1 = a.drop_first();
        let b1 = b.drop_first();
        assert forall|x: int, y: int| 0 <= x < y < a1.len() implies str_lt(a1[x], a1[y]) by {
            assert(str_lt(a[x + 1], a[y + 1]));
        }
        assert forall|x: int, y: int| 0 <= x < y < b1.len() implies str_lt(b1[x], b1[y]) by {
            assert(str_lt(b[x + 1], b[y + 1]));
        }
        assert forall|s: Seq<char>| a1.contains(s) <==> b1.contains(s) by {
            if a1.contains(s) {
                lemma_tail_items(a, b, s);
            }
            if b1.contains(s) {
                lemma_tail_items(b, a, s);
            }
        }
        strictly_sorted_is_unique(a1, b1);
        assert(a =~= seq![a[0]] + a1);
        assert(b =~= seq![b[0]] + b1);
    }
}

proof fn lemma_common_prefix(a: Seq<char>, b: Seq<char>, i: int)
    requires
        0 <= i <= a.len(),
        i <= b.len(),
        forall|j: int| 0 <= j < i ==> a[j] == b[j],
    ensures
        str_lt(a, b) == str_lt(a.skip(i), b.skip(i)),
        str_lt(b, a) == str_lt(b.skip(i), a.skip(i)),
    decreases i,
{
    if i == 0 {
        assert(a.skip(0) =~= a);
        assert(b.skip(0) =~= b);
    } else {
        let a1 = a.drop_first();
        let b1 = b.drop_first();
        assert(a[0] == b[0]);
        assert forall|j: int| 0 <= j < i - 1 implies a1[j] == b1[j] by {
            assert(a[j + 1] == b[j + 1]);
        }
        lemma_common_prefix(a1, b1, i - 1);
        assert(a1.skip(i - 1) =~= a.skip(i));
        assert(b1.skip(i - 1) =~= b.skip(i));
    }
}

/// Compares two strings in the order of strings.
pub fn str_rank(a: &str, b: &str) -> (r: Rank)
    ensures
        r == Rank::Before <==> str_lt(a@, b@),
        r == Rank::Same <==> a@ == b@,
        r == Rank::After <==> str_lt(b@, a@),
{
    let la: usize = a.unicode_len();
    let lb: usize = b.unicode_len();
    let mut i: usize = 0;
    while i < la && i < lb
        invariant
            i <= la,
            i <= lb,
            la == a@.len(),
            lb == b@.len(),
            forall|j: int| 0 <= j < i ==> a@[j] == b@[j],
        decreases la - i,
    {
        let x = a.get_char(i);
        let y = b.get_char(i);
        if x != y {
            proof {
                lemma_common_prefix(a@, b@, i as int);
                str_lt_is_irreflexive(a@);
                assert(a@.skip(i as int)[0] == x);
                assert(b@.skip(i as int)[0] == y);
            }
            return if x < y {
                Rank::Before
            } else {
                Rank::After
            };
        }
        i += 1;
    }
    proof {
        lemma_common_prefix(a@, b@, i as int);
        str_lt_is_irreflexive(a@);
        if la == lb {
            assert(a@ =~= b@);
        }
    }
    if la == lb {
        Rank::Same
    } else if la < lb {
        Rank::Before
    } else {
        Rank::After
    }
}

/// Whether two strings hold the same text.
pub fn same_text(a: &str, b: &str) -> (r: bool)
    ensures
        r == (a@ == b@),
{
    str_rank(a, b) == Rank::Same
}

/// Sorts a list of strings and drops what occurs more than once: the result
/// is strictly sorted and holds exactly the strings that `items` holds.
pub fn sorted_unique(items: &Vec<String>) -> (r: Vec<String>)
    ensures
        strictly_sorted(r.deep_view()),
        forall|s: Seq<char>| r.deep_view().contains(s) <==> items.deep_view().contains(s),
{
    let mut out: Vec<String> = Vec::new();
    let mut idx: usize = 0;
    while idx < items.len()
        invariant
            idx <= items.len(),
            strictly_sorted(out.deep_view()),
            forall|j: int| 0 <= j < out.len() ==> items.deep_view().contains(#[trigger] out@[j]@),
            forall|k: int| 0 <= k < idx ==> out.deep_view().contains(#[trigger] items@[k]@),
        decreases items.len() - idx,
    {
        let x = &items[idx];
        let ghost before = out.deep_view();
        let mut p: usize = 0;
        let mut found: bool = false;
        while p < out.len() && !found
            invariant
                p <= out.len(),
                before == out.deep_view(),
                forall|j: int| 0 <= j < p ==> str_lt(#[trigger] before[j], x@),
                found ==> p < out.len() && !str_lt(before[p as int], x@),
            decreases out.len() - p + (if found { 0int } else { 1int }),
        {
            match str_rank(out[p].as_str(), x.as_str()) {
                Rank::Before => {
                    p += 1;
                },
                _ => {
                    found = true;
                },
            }
        }
        let same = p < out.len() && str_rank(out[p].as_str(), x.as_str()) == Rank::Same;
        assert(items.deep_view()[idx as int] == x@);
        if same {
            assert(before[p as int] == x@);
        } else {
            out.insert(p, x.clone());
            proof {
                let after = out.deep_view();
                assert(after =~= before.insert(p as int, x@));
                assert(after[p as int] == x@);
                assert forall|i: int, j: int| 0 <= i < j < after.len() implies str_lt(
                    after[i],
                    after[j],
                ) by {
                    if j == p {
                        assert(after[i] == before[i]);
                    } else if i == p {
                        assert(after[j] == before[j - 1]);
                        str_lt_is_total(before[p as int], x@);
                        if j - 1 > p {
                            str_lt_is_transitive(x@, before[p as int], before[j - 1]);
                        }
                    } else {
                        let bi = if i < p { i } else { i - 1 };
                        let bj = if j < p { j } else { j - 1 };
                        assert(after[i] == before[bi]);
                        assert(after[j] == before[bj]);
                    }
                }
                assert forall|k: int| 0 <= k < idx implies after.contains(
                    #[trigger] items@[k]@,
                ) by {
                    let w = choose|w: int| 0 <= w < before.len() && before[w] == items@[k]@;
                    let w2 = if w < p { w } else { w + 1 };
                    assert(after[w2] == before[w]);
                }
                assert forall|j: int| 0 <= j < out.len() implies items.deep_view().contains(
                    #[trigger] out@[j]@,
                ) by {
                    if j != p {
                        let bj = if j < p { j } else { j - 1 };
                        assert(after[j] == before[bj]);
                    }
                }
            }
        }
        idx += 1;
    }
    proof {
        let rv = out.deep_view();
        let iv = items.deep_view();
        assert forall|s: Seq<char>| rv.contains(s) <==> iv.contains(s) by {
            if rv.contains(s) {
                let j = choose|j: int| 0 <= j < rv.len() && rv[j] == s;
                assert(iv.contains(out@[j]@));
            }
            if iv.contains(s) {
                let k = choose|k: int| 0 <= k < iv.len() && iv[k] == s;
                assert(rv.contains(items@[k]@));
            }
        }
    }
    out
}

/// Joins the parts with `sep` between each two neighbours.
pub fn join(parts: &Vec<String>, sep: &str) -> (r: String)
    ensures
        r@ == joined(parts.deep_view(), sep@),
{
    let mut out = String::new();
    let mut i: usize = 0;
    while i < parts.len()
        invariant
            i <= parts.len(),
            out@ == joined(parts.deep_view().take(i as int), sep@),
        decreases parts.len() - i,
    {
        let ghost head = parts.deep_view().take(i as int);
        let ghost next = parts.deep_view().take(i + 1);
        proof {
            assert(next.drop_last() =~= head);
            assert(next.last() == parts@[i as int]@);
        }
        if i > 0 {
            out.append(sep);
        } else {
            assert(Seq::<char>::empty() + parts@[i as int]@ =~= parts@[i as int]@);
        }
        out.append(parts[i].as_str());
        i += 1;
    }
    assert(parts.deep_view().take(parts.len() as int) =~= parts.deep_view());
    out
}

} // verus!
