//! The order of texts, sorted sets of them, and lists in reverse.
use crate::text::{chars_of, same_text};
use vstd::prelude::*;

verus! {

/// Whether `a` comes before `b` in the order of texts, or is `b`: character by character, a prefix
/// first.
pub open spec fn text_le(a: Seq<char>, b: Seq<char>) -> bool
    decreases a.len(),
{
    if a.len() == 0 {
        true
    } else if b.len() == 0 {
        false
    } else if a[0] != b[0] {
        a[0] < b[0]
    } else {
        text_le(a.skip(1), b.skip(1))
    }
}

/// The items from the last to the first.
pub(crate) fn reversed<T>(items: Vec<T>) -> (res: Vec<T>)
    ensures
        res@ == items@.reverse(),
{
    let ghost all = items@;
    let mut rest = items;
    let mut out: Vec<T> = Vec::new();
    while rest.len() > 0
        invariant
            rest@.len() + out@.len() == all.len(),
            rest@ =~= all.take(rest@.len() as int),
            forall|i: int| 0 <= i < out@.len() ==> #[trigger] out@[i] == all[all.len() - 1 - i],
        decreases rest@.len(),
    {
        if let Some(item) = rest.pop() {
            out.push(item);
        }
    }
    assert(out@ =~= all.reverse());
    out
}

/// Of two texts one comes first.
pub proof fn lemma_text_le_total(a: Seq<char>, b: Seq<char>)
    ensures
        text_le(a, b) || text_le(b, a),
    decreases a.len(),
{
    if a.len() > 0 && b.len() > 0 && a[0] == b[0] {
        lemma_text_le_total(a.skip(1), b.skip(1));
    }
}

/// Texts that each come before the other are the same.
pub proof fn lemma_text_le_antisymmetric(a: Seq<char>, b: Seq<char>)
    requires
        text_le(a, b),
        text_le(b, a),
    ensures
        a == b,
    decreases a.len(),
{
    if a.len() > 0 && b.len() > 0 {
        lemma_text_le_antisymmetric(a.skip(1), b.skip(1));
        assert(a =~= seq![a[0]] + a.skip(1));
        assert(b =~= seq![b[0]] + b.skip(1));
    } else {
        assert(a =~= b);
    }
}

/// The order of texts is transitive.
pub proof fn lemma_text_le_transitive(a: Seq<char>, b: Seq<char>, c: Seq<char>)
    requires
        text_le(a, b),
        text_le(b, c),
    ensures
        text_le(a, c),
    decreases a.len(),
{
    if a.len() > 0 && b.len() > 0 && c.len() > 0 && a[0] == b[0] && b[0] == c[0] {
        lemma_text_le_transitive(a.skip(1), b.skip(1), c.skip(1));
    }
}

proof fn lemma_text_le_skip(a: Seq<char>, b: Seq<char>, n: int)
    requires
        0 <= n <= a.len(),
        n <= b.len(),
        forall|i: int| 0 <= i < n ==> a[i] == b[i],
    ensures
        text_le(a, b) == text_le(a.skip(n), b.skip(n)),
    decreases n,
{
    if n == 0 {
        assert(a.skip(0) =~= a);
        assert(b.skip(0) =~= b);
    } else {
        assert(a[0] == b[0]);
        assert forall|i: int| 0 <= i < n - 1 implies a.skip(1)[i] == b.skip(1)[i] by {
            assert(a[i + 1] == b[i + 1]);
        }
        lemma_text_le_skip(a.skip(1), b.skip(1), n - 1);
        assert(a.skip(1).skip(n - 1) =~= a.skip(n));
        assert(b.skip(1).skip(n - 1) =~= b.skip(n));
    }
}

/// Whether `a` comes before `b` in the order of texts, or is `b`.
pub fn at_or_before(a: &str, b: &str) -> (res: bool)
    ensures
        res == text_le(a@, b@),
{
    let x = chars_of(a);
    let y = chars_of(b);
    let mut i: usize = 0;
    while i < x.len() && i < y.len()
        invariant
            i <= x@.len(),
            i <= y@.len(),
            x@ == a@,
            y@ == b@,
            forall|j: int| 0 <= j < i ==> a@[j] == b@[j],
        decreases x@.len() - i,
    {
        if x[i] != y[i] {
            proof {
                lemma_text_le_skip(a@, b@, i as int);
            }
            return x[i] < y[i];
        }
        i += 1;
    }
    proof {
        lemma_text_le_skip(a@, b@, i as int);
    }
    i >= x.len()
}

/// Whether the texts are in order and none occurs twice.
pub open spec fn is_sorted_set(s: Seq<Seq<char>>) -> bool {
    forall|i: int, j: int|
        #![trigger s[i], s[j]]
        0 <= i < j < s.len() ==> text_le(s[i], s[j]) && s[i] != s[j]
}

/// Inserts `x` into a sorted set of texts, where it is not in it yet.
pub fn insert_text(set: &mut Vec<String>, x: &str)
    requires
        is_sorted_set(old(set).deep_view()),
    ensures
        is_sorted_set(final(set).deep_view()),
        forall|t: Seq<char>|
            final(set).deep_view().contains(t) <==> (old(set).deep_view().contains(t) || t == x@),
{
    let ghost s = set.deep_view();
    let mut i: usize = 0;
    while i < set.len() && !at_or_before(x, set[i].as_str())
        invariant
            i <= set@.len(),
            set.deep_view() == s,
            is_sorted_set(s),
            forall|j: int| 0 <= j < i ==> !text_le(x@, #[trigger] s[j]),
        decreases set@.len() - i,
    {
        assert(s[i as int] == set@[i as int]@);
        i += 1;
    }
    if i < set.len() && same_text(x, set[i].as_str()) {
        proof {
            assert(s[i as int] == x@);
        }
        return ;
    }
    let item = x.to_owned();
    set.insert(i, item);
    proof {
        let r = set.deep_view();
        assert(r =~= s.insert(i as int, x@));
        assert forall|a: int, b: int|
            #![trigger r[a], r[b]]
            0 <= a < b < r.len() implies text_le(r[a], r[b]) && r[a] != r[b] by {
            if a < i && b == i {
                lemma_text_le_total(x@, s[a]);
            } else if a == i && b > i {
                assert(text_le(x@, s[i as int]));
                if b > i + 1 {
                    assert(text_le(s[i as int], s[b - 1]));
                    lemma_text_le_transitive(x@, s[i as int], s[b - 1]);
                    if x@ == s[b - 1] {
                        lemma_text_le_antisymmetric(s[i as int], s[b - 1]);
                    }
                }
            } else if a < i && b > i {
                assert(s[a] == r[a] && s[b - 1] == r[b]);
            } else if a > i {
                assert(s[a - 1] == r[a] && s[b - 1] == r[b]);
            } else {
                assert(s[a] == r[a] && s[b] == r[b]);
            }
        }
        assert forall|t: Seq<char>| r.contains(t) <==> (s.contains(t) || t == x@) by {
            if s.contains(t) {
                let k = choose|k: int| 0 <= k < s.len() && s[k] == t;
                if k < i {
                    assert(r[k] == t);
                } else {
                    assert(r[k + 1] == t);
                }
            }
            if t == x@ {
                assert(r[i as int] == t);
            }
            if r.contains(t) {
                let k = choose|k: int| 0 <= k < r.len() && r[k] == t;
                if k < i {
                    assert(s[k] == t);
                } else if k > i {
                    assert(s[k - 1] == t);
                }
            }
        }
    }
}

/// Whether `x` is one of `list`.
pub fn contains_text(list: &Vec<String>, x: &str) -> (res: bool)
    ensures
        res == list.deep_view().contains(x@),
{
    let ghost s = list.deep_view();
    let mut i: usize = 0;
    while i < list.len()
        invariant
            i <= list@.len(),
            s == list.deep_view(),
            forall|j: int| 0 <= j < i ==> #[trigger] s[j] != x@,
        decreases list@.len() - i,
    {
        assert(s[i as int] == list@[i as int]@);
        if same_text(list[i].as_str(), x) {
            return true;
        }
        i += 1;
    }
    false
}

/// The distinct texts of `list`, in order.
pub fn sorted_set(list: &Vec<String>) -> (res: Vec<String>)
    ensures
        is_sorted_set(res.deep_view()),
        forall|t: Seq<char>| res.deep_view().contains(t) <==> list.deep_view().contains(t),
{
    let ghost s = list.deep_view();
    let mut out: Vec<String> = Vec::new();
    let mut i: usize = 0;
    while i < list.len()
        invariant
            i <= list@.len(),
            s == list.deep_view(),
            is_sorted_set(out.deep_view()),
            forall|t: Seq<char>| out.deep_view().contains(t) <==> s.take(i as int).contains(t),
        decreases list@.len() - i,
    {
        let ghost before = out.deep_view();
        insert_text(&mut out, list[i].as_str());
        proof {
            assert(s[i as int] == list@[i as int]@);
            let more = s.take(i + 1);
            let less = s.take(i as int);
            assert forall|t: Seq<char>| out.deep_view().contains(t) <==> more.contains(t) by {
                if more.contains(t) {
                    let k = choose|k: int| 0 <= k < more.len() && more[k] == t;
                    if k < i {
                        assert(less[k] == t);
                    }
                }
                if less.contains(t) {
                    let k = choose|k: int| 0 <= k < less.len() && less[k] == t;
                    assert(more[k] == t);
                }
                assert(more[i as int] == s[i as int]);
            }
        }
        i += 1;
    }
    assert(s.take(i as int) =~= s);
    out
}

/// Sorted sets with the same elements are the same.
pub proof fn law_sorted_set_is_unique(a: Seq<Seq<char>>, b: Seq<Seq<char>>)
    requires
        is_sorted_set(a),
        is_sorted_set(b),
        forall|t: Seq<char>| a.contains(t) <==> b.contains(t),
    ensures
        a == b,
    decreases a.len(),
{
    if a.len() == 0 {
        if b.len() > 0 {
            assert(b.contains(b[0]));
        }
        assert(a =~= b);
    } else {
        assert(a.contains(a[0]));
        let k = choose|k: int| 0 <= k < b.len() && b[k] == a[0];
        assert(b.contains(b[0]));
        let j = choose|j: int| 0 <= j < a.len() && a[j] == b[0];
        if k > 0 {
            assert(text_le(b[0], b[k]));
            if j > 0 {
                assert(text_le(a[0], a[j]));
                lemma_text_le_antisymmetric(a[0], b[0]);
            }
            assert(b[0] != b[k]);
        }
        assert(a[0] == b[0]);
        let x = a.skip(1);
        let y = b.skip(1);
        assert forall|p: int, q: int|
            #![trigger x[p], x[q]]
            0 <= p < q < x.len() implies text_le(x[p], x[q]) && x[p] != x[q] by {
            assert(x[p] == a[p + 1] && x[q] == a[q + 1]);
        }
        assert forall|p: int, q: int|
            #![trigger y[p], y[q]]
            0 <= p < q < y.len() implies text_le(y[p], y[q]) && y[p] != y[q] by {
            assert(y[p] == b[p + 1] && y[q] == b[q + 1]);
        }
        assert forall|t: Seq<char>| x.contains(t) <==> y.contains(t) by {
            if x.contains(t) {
                let p = choose|p: int| 0 <= p < x.len() && x[p] == t;
                assert(a[p + 1] == t);
                assert(a[0] != a[p + 1]);
                assert(b.contains(t));
                let q = choose|q: int| 0 <= q < b.len() && b[q] == t;
                assert(y[q - 1] == t);
            }
            if y.contains(t) {
                let p = choose|p: int| 0 <= p < y.len() && y[p] == t;
                assert(b[p + 1] == t);
                assert(b[0] != b[p + 1]);
                assert(a.contains(t));
                let q = choose|q: int| 0 <= q < a.len() && a[q] == t;
                assert(x[q - 1] == t);
            }
        }
        law_sorted_set_is_unique(x, y);
        assert(a =~= seq![a[0]] + x);
        assert(b =~= seq![b[0]] + y);
    }
}

/// A sorted set is in order and holds nothing twice.
pub proof fn law_sorted_set_has_no_repetition(s: Seq<Seq<char>>, i: int, j: int)
    requires
        is_sorted_set(s),
        0 <= i < j < s.len(),
    ensures
        s[i] != s[j],
        text_le(s[i], s[j]),
        !text_le(s[j], s[i]),
{
    if text_le(s[j], s[i]) {
        lemma_text_le_antisymmetric(s[i], s[j]);
    }
}

/// Texts are ordered by the first character in which they differ, and a text comes before what it
/// begins.
pub proof fn law_texts_are_ordered_by_the_first_difference(
    same: Seq<char>,
    x: char,
    y: char,
    s: Seq<char>,
    t: Seq<char>,
)
    requires
        x < y,
    ensures
        text_le(same + seq![x] + s, same + seq![y] + t),
        !text_le(same + seq![y] + t, same + seq![x] + s),
        text_le(same, same + s),
        s.len() > 0 ==> !text_le(same + s, same),
    decreases same.len(),
{
    let a = same + seq![x] + s;
    let b = same + seq![y] + t;
    if same.len() == 0 {
        assert(a[0] == x && b[0] == y);
    } else {
        let rest = same.skip(1);
        law_texts_are_ordered_by_the_first_difference(rest, x, y, s, t);
        assert(a[0] == same[0] && b[0] == same[0]);
        assert(a.skip(1) =~= rest + seq![x] + s);
        assert(b.skip(1) =~= rest + seq![y] + t);
        assert((same + s).skip(1) =~= rest + s);
        assert((same + s)[0] == same[0]);
    }
}

} // verus!
