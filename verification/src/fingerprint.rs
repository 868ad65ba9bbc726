//! Fingerprints of status messages: counters in a message do not make it a new message.
use crate::text::{chars_of, is_digit, opt_view};
use vstd::prelude::*;

verus! {

/// What is kept so far, and whether the last character was a digit.
pub open spec fn fingerprint_step(st: (Seq<char>, bool), c: char) -> (Seq<char>, bool) {
    if is_digit(c) {
        if st.1 {
            (st.0, true)
        } else {
            (st.0.push('0'), true)
        }
    } else {
        (st.0.push(c), false)
    }
}

/// The state after `s`, starting from `st`.
pub open spec fn fingerprint_from(st: (Seq<char>, bool), s: Seq<char>) -> (Seq<char>, bool)
    decreases s.len(),
{
    if s.len() == 0 {
        st
    } else {
        fingerprint_step(fingerprint_from(st, s.drop_last()), s.last())
    }
}

/// The message with every run of ASCII digits replaced by a single `0`.
pub open spec fn fingerprint(s: Seq<char>) -> Seq<char> {
    fingerprint_from((seq![], false), s).0
}

/// The fingerprint of an optional message; a missing one counts as empty.
pub open spec fn fingerprint_of(msg: Option<Seq<char>>) -> Seq<char> {
    match msg {
        Some(s) => fingerprint(s),
        None => fingerprint(seq![]),
    }
}

/// The message with every run of ASCII digits replaced by a single `0`.
pub fn message_fingerprint(msg: Option<&str>) -> (res: String)
    ensures
        res@ == fingerprint_of(
            match msg {
                Some(m) => Some(m@),
                None => None,
            },
        ),
{
    let mut out = String::new();
    if let Some(msg) = msg {
        let chars = chars_of(msg);
        let mut in_digit = false;
        let mut i: usize = 0;
        let ghost s = msg@;
        while i < chars.len()
            invariant
                i <= chars@.len(),
                chars@ == s,
                (out@, in_digit) == fingerprint_from((seq![], false), s.take(i as int)),
            decreases chars@.len() - i,
        {
            let c = chars[i];
            proof {
                assert(s.take(i + 1).drop_last() =~= s.take(i as int));
                assert(s.take(i + 1).last() == c);
            }
            if '0' <= c && c <= '9' {
                if !in_digit {
                    out.push('0');
                    in_digit = true;
                }
            } else {
                in_digit = false;
                out.push(c);
            }
            i += 1;
        }
        assert(s.take(i as int) =~= s);
    }
    out
}

/// The fingerprint of an optional message; a missing one counts as empty.
pub fn option_fingerprint(msg: &Option<String>) -> (res: String)
    ensures
        res@ == fingerprint_of(opt_view(*msg)),
{
    match msg {
        Some(m) => message_fingerprint(Some(m.as_str())),
        None => message_fingerprint(None),
    }
}

proof fn lemma_fingerprint_concat(st: (Seq<char>, bool), a: Seq<char>, b: Seq<char>)
    ensures
        fingerprint_from(st, a + b) == fingerprint_from(fingerprint_from(st, a), b),
    decreases b.len(),
{
    if b.len() == 0 {
        assert(a + b =~= a);
    } else {
        lemma_fingerprint_concat(st, a, b.drop_last());
        assert((a + b).drop_last() =~= a + b.drop_last());
        assert((a + b).last() == b.last());
    }
}

proof fn lemma_fingerprint_digits(st: (Seq<char>, bool), d: Seq<char>)
    requires
        d.len() > 0,
        forall|i: int| 0 <= i < d.len() ==> is_digit(#[trigger] d[i]),
    ensures
        fingerprint_from(st, d) == (if st.1 {
            (st.0, true)
        } else {
            (st.0.push('0'), true)
        }),
    decreases d.len(),
{
    assert(is_digit(d[d.len() - 1]));
    if d.len() == 1 {
        assert(fingerprint_from(st, d.drop_last()) == st);
    } else {
        let r = d.drop_last();
        assert forall|i: int| 0 <= i < r.len() implies is_digit(#[trigger] r[i]) by {
            assert(r[i] == d[i]);
        }
        lemma_fingerprint_digits(st, r);
    }
}

/// Messages that differ only in a number have the same fingerprint.
pub proof fn law_fingerprint_collapses_numbers(
    before: Seq<char>,
    one: Seq<char>,
    other: Seq<char>,
    after: Seq<char>,
)
    requires
        one.len() > 0,
        other.len() > 0,
        forall|i: int| 0 <= i < one.len() ==> is_digit(#[trigger] one[i]),
        forall|i: int| 0 <= i < other.len() ==> is_digit(#[trigger] other[i]),
    ensures
        fingerprint(before + one + after) == fingerprint(before + other + after),
{
    let start = (Seq::<char>::empty(), false);
    let st = fingerprint_from(start, before);
    lemma_fingerprint_concat(start, before + one, after);
    lemma_fingerprint_concat(start, before, one);
    lemma_fingerprint_concat(start, before + other, after);
    lemma_fingerprint_concat(start, before, other);
    lemma_fingerprint_digits(st, one);
    lemma_fingerprint_digits(st, other);
}

proof fn lemma_fingerprint_fixed(s: Seq<char>)
    ensures
        ({
            let st = fingerprint_from((seq![], false), s);
            fingerprint_from((seq![], false), st.0) == st
        }),
        ({
            let st = fingerprint_from((seq![], false), s);
            st.1 ==> st.0.len() > 0 && st.0.last() == '0'
        }),
    decreases s.len(),
{
    let start = (Seq::<char>::empty(), false);
    if s.len() > 0 {
        let prev = fingerprint_from(start, s.drop_last());
        let st = fingerprint_from(start, s);
        lemma_fingerprint_fixed(s.drop_last());
        if st.0.len() > prev.0.len() {
            assert(st.0.drop_last() =~= prev.0);
        }
    }
}

/// A fingerprint is its own fingerprint.
pub proof fn law_fingerprint_is_idempotent(s: Seq<char>)
    ensures
        fingerprint(fingerprint(s)) == fingerprint(s),
{
    lemma_fingerprint_fixed(s);
}

proof fn lemma_fingerprint_keeps_text(s: Seq<char>)
    requires
        forall|i: int| 0 <= i < s.len() ==> !is_digit(#[trigger] s[i]),
    ensures
        fingerprint_from((seq![], false), s) == (s, false),
    decreases s.len(),
{
    if s.len() > 0 {
        let r = s.drop_last();
        assert forall|i: int| 0 <= i < r.len() implies !is_digit(#[trigger] r[i]) by {
            assert(r[i] == s[i]);
        }
        lemma_fingerprint_keeps_text(r);
        assert(!is_digit(s[s.len() - 1]));
        assert(r.push(s.last()) =~= s);
    }
}

/// A message without digits is its own fingerprint, so two of them are told apart.
pub proof fn law_fingerprint_keeps_text(s: Seq<char>)
    requires
        forall|i: int| 0 <= i < s.len() ==> !is_digit(#[trigger] s[i]),
    ensures
        fingerprint(s) == s,
{
    lemma_fingerprint_keeps_text(s);
}

} // verus!
