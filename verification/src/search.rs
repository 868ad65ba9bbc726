//! Finding and cutting within texts, and reading numbers from them.
use crate::text::{chars_of, is_digit, string_of};
use vstd::prelude::*;

verus! {

/// Whether `needle` stands at position `i` of `hay`.
pub open spec fn occurs_at(hay: Seq<char>, needle: Seq<char>, i: int) -> bool {
    0 <= i && i + needle.len() <= hay.len() && hay.subrange(i, i + needle.len()) == needle
}

/// The first position at or after `from` at which `needle` stands.
pub open spec fn first_at(hay: Seq<char>, needle: Seq<char>, from: nat) -> Option<nat>
    decreases hay.len() + 1 - from,
{
    if from > hay.len() {
        None
    } else if occurs_at(hay, needle, from as int) {
        Some(from)
    } else {
        first_at(hay, needle, from + 1)
    }
}

/// What stands before and after the first occurrence of `sep`.
pub open spec fn split_first(s: Seq<char>, sep: Seq<char>) -> Option<(Seq<char>, Seq<char>)> {
    match first_at(s, sep, 0) {
        Some(i) => Some((s.take(i as int), s.skip((i + sep.len()) as int))),
        None => None,
    }
}

/// The position found is one at which the needle stands, and none before it is.
pub proof fn lemma_first_at(hay: Seq<char>, needle: Seq<char>, from: nat)
    ensures
        match first_at(hay, needle, from) {
            Some(i) => from <= i && occurs_at(hay, needle, i as int) && forall|k: int|
                from <= k < i ==> !occurs_at(hay, needle, k),
            None => forall|k: int| from <= k ==> !occurs_at(hay, needle, k),
        },
    decreases hay.len() + 1 - from,
{
    if from <= hay.len() && !occurs_at(hay, needle, from as int) {
        lemma_first_at(hay, needle, from + 1);
    }
}

/// Whether `s` starts with `prefix`.
pub fn starts_with(s: &str, prefix: &str) -> (res: bool)
    ensures
        res == prefix@.is_prefix_of(s@),
{
    let a = chars_of(s);
    let b = chars_of(prefix);
    let res = stands_at(&a, &b, 0);
    assert(prefix@.len() <= s@.len() ==> s@.subrange(0, prefix@.len() as int) =~= s@.take(
        prefix@.len() as int,
    ));
    res
}

fn stands_at(hay: &Vec<char>, needle: &Vec<char>, i: usize) -> (res: bool)
    ensures
        res == occurs_at(hay@, needle@, i as int),
{
    if i > hay.len() || hay.len() - i < needle.len() {
        return false;
    }
    let n: usize = hay.len();
    let mut k: usize = 0;
    while k < needle.len()
        invariant
            n == hay@.len(),
            i + needle@.len() <= n,
            k <= needle@.len(),
            forall|j: int| 0 <= j < k ==> hay@[i + j] == needle@[j],
        decreases needle@.len() - k,
    {
        if hay[i + k] != needle[k] {
            assert(hay@.subrange(i as int, i + needle@.len())[k as int] != needle@[k as int]);
            return false;
        }
        k += 1;
    }
    assert(hay@.subrange(i as int, i + needle@.len()) =~= needle@);
    true
}

/// What stands before and after the first occurrence of `sep`, where it occurs.
pub fn split_once(s: &str, sep: &str) -> (res: Option<(String, String)>)
    ensures
        match res {
            Some((a, b)) => split_first(s@, sep@) == Some((a@, b@)),
            None => split_first(s@, sep@) is None,
        },
{
    let hay = chars_of(s);
    let needle = chars_of(sep);
    let n: usize = hay.len();
    let mut i: usize = 0;
    loop
        invariant
            hay@ == s@,
            needle@ == sep@,
            n == hay@.len(),
            i <= n,
            first_at(s@, sep@, i as nat) == first_at(s@, sep@, 0),
        decreases n - i,
    {
        if stands_at(&hay, &needle, i) {
            let a = string_of(&hay, 0, i);
            let b = string_of(&hay, i + needle.len(), n);
            assert(a@ =~= s@.take(i as int));
            assert(b@ =~= s@.skip(i + sep@.len()));
            return Some((a, b));
        }
        if i >= n {
            proof {
                assert(first_at(s@, sep@, (i + 1) as nat) is None);
            }
            return None;
        }
        i += 1;
    }
}

/// The bytes that UTF-8 takes for a character.
pub open spec fn utf8_width(c: char) -> nat {
    if (c as u32) < 0x80 {
        1
    } else if (c as u32) < 0x800 {
        2
    } else if (c as u32) < 0x10000 {
        3
    } else {
        4
    }
}

/// How many characters take exactly `bytes` bytes at the start of `s`; none where a character
/// straddles that many, or there are fewer.
pub open spec fn chars_in(s: Seq<char>, bytes: int) -> Option<nat>
    decreases s.len(),
{
    if bytes == 0 {
        Some(0)
    } else if s.len() == 0 || utf8_width(s[0]) > bytes {
        None
    } else {
        match chars_in(s.skip(1), bytes - utf8_width(s[0])) {
            Some(n) => Some(n + 1),
            None => None,
        }
    }
}

/// The first `bytes` bytes of `s` where they end between characters, else the whole.
pub open spec fn byte_prefix(s: Seq<char>, bytes: int) -> Seq<char> {
    match chars_in(s, bytes) {
        Some(n) => s.take(n as int),
        None => s,
    }
}

proof fn lemma_chars_in_bound(s: Seq<char>, bytes: int)
    ensures
        chars_in(s, bytes) matches Some(n) ==> n <= s.len(),
    decreases s.len(),
{
    if bytes != 0 && s.len() > 0 && utf8_width(s[0]) <= bytes {
        lemma_chars_in_bound(s.skip(1), bytes - utf8_width(s[0]));
    }
}

/// The first `bytes` bytes of `s` where they end between characters, else the whole.
pub fn take_bytes(s: &str, bytes: u32) -> (res: String)
    ensures
        res@ == byte_prefix(s@, bytes as int),
{
    let chars = chars_of(s);
    let mut left: u32 = bytes;
    let mut i: usize = 0;
    assert(s@.skip(0) =~= s@);
    while left > 0 && i < chars.len()
        invariant
            chars@ == s@,
            i <= chars@.len(),
            left <= bytes,
            match (chars_in(s@.skip(i as int), left as int), chars_in(s@, bytes as int)) {
                (Some(n), Some(m)) => m == n + i,
                (None, None) => true,
                _ => false,
            },
        decreases chars@.len() - i,
    {
        let c = chars[i];
        let code: u32 = c as u32;
        let width: u32 = if code < 0x80 {
            1
        } else if code < 0x800 {
            2
        } else if code < 0x10000 {
            3
        } else {
            4
        };
        proof {
            assert(s@.skip(i as int)[0] == c);
            assert(s@.skip(i as int).skip(1) =~= s@.skip(i + 1));
        }
        if width > left {
            return string_of_all(&chars);
        }
        left -= width;
        i += 1;
    }
    if left == 0 {
        let out = string_of(&chars, 0, i);
        assert(out@ =~= s@.take(i as int));
        out
    } else {
        string_of_all(&chars)
    }
}

fn string_of_all(chars: &Vec<char>) -> (res: String)
    ensures
        res@ == chars@,
{
    let res = string_of(chars, 0, chars.len());
    assert(res@ =~= chars@);
    res
}

/// The value of a run of decimal digits.
pub open spec fn digits_value(s: Seq<char>) -> nat
    decreases s.len(),
{
    if s.len() == 0 {
        0
    } else {
        digits_value(s.drop_last()) * 10 + (s.last() as nat - '0' as nat) as nat
    }
}

/// Whether `s` holds nothing but decimal digits, and at least one.
pub open spec fn all_digits(s: Seq<char>) -> bool {
    s.len() > 0 && forall|i: int| 0 <= i < s.len() ==> is_digit(#[trigger] s[i])
}

/// The number that `s` stands for: decimal digits, after a plus sign or none, that fit.
pub open spec fn u32_value(s: Seq<char>) -> Option<u32> {
    let digits = if s.len() > 0 && s[0] == '+' {
        s.skip(1)
    } else {
        s
    };
    if all_digits(digits) && digits_value(digits) <= u32::MAX {
        Some(digits_value(digits) as u32)
    } else {
        None
    }
}

proof fn lemma_digits_value_grows(s: Seq<char>, n: int)
    requires
        0 <= n <= s.len(),
    ensures
        digits_value(s.take(n)) <= digits_value(s),
    decreases s.len() - n,
{
    if n == s.len() {
        assert(s.take(n) =~= s);
    } else {
        lemma_digits_value_grows(s, n + 1);
        assert(s.take(n + 1).drop_last() =~= s.take(n));
    }
}

/// The number that `s` stands for: decimal digits, after a plus sign or none, that fit.
pub fn parse_u32(s: &str) -> (res: Option<u32>)
    ensures
        res == u32_value(s@),
{
    let chars = chars_of(s);
    let start: usize = if chars.len() > 0 && chars[0] == '+' {
        1
    } else {
        0
    };
    let ghost digits = if s@.len() > 0 && s@[0] == '+' {
        s@.skip(1)
    } else {
        s@
    };
    assert(digits =~= s@.skip(start as int));
    if chars.len() == start {
        return None;
    }
    let mut value: u64 = 0;
    let mut i: usize = start;
    assert(digits.take(0) =~= seq![]);
    while i < chars.len()
        invariant
            chars@ == s@,
            start <= i <= chars@.len(),
            digits == s@.skip(start as int),
            value == digits_value(digits.take(i - start)),
            value <= u32::MAX,
            forall|k: int| 0 <= k < i - start ==> is_digit(#[trigger] digits[k]),
            u32_value(s@) == (if all_digits(digits) && digits_value(digits) <= u32::MAX {
                Some(digits_value(digits) as u32)
            } else {
                None
            }),
        decreases chars@.len() - i,
    {
        let c = chars[i];
        assert(digits[i - start] == c);
        if !('0' <= c && c <= '9') {
            assert(!is_digit(digits[i - start]));
            return None;
        }
        let d: u64 = (c as u32 - '0' as u32) as u64;
        proof {
            assert(digits.take(i - start + 1).drop_last() =~= digits.take(i - start));
            assert(digits.take(i - start + 1).last() == c);
            lemma_digits_value_grows(digits, i - start + 1);
        }
        value = value * 10 + d;
        if value > u32::MAX as u64 {
            return None;
        }
        i += 1;
    }
    assert(digits.take(i - start) =~= digits);
    Some(value as u32)
}

/// A text is cut at the first occurrence of the separator: the parts and the separator make up the
/// text, and the separator does not stand before it; a text that is not cut does not hold it.
pub proof fn law_split_cuts_at_the_first(s: Seq<char>, sep: Seq<char>)
    ensures
        match split_first(s, sep) {
            Some((a, b)) => {
                &&& s == a + sep + b
                &&& forall|i: int| 0 <= i < a.len() ==> !(#[trigger] occurs_at(s, sep, i))
            },
            None => forall|i: int| !(#[trigger] occurs_at(s, sep, i)),
        },
{
    lemma_first_at(s, sep, 0);
    if let Some((a, b)) = split_first(s, sep) {
        let i = a.len() as int;
        assert(s.subrange(i, i + sep.len()) == sep);
        assert(s =~= a + sep + b);
    } else {
        assert forall|i: int| !(#[trigger] occurs_at(s, sep, i)) by {
            if i >= 0 {
            }
        }
    }
}

/// What was put together with a mark between the parts comes apart again, where the first part
/// does not hold the mark.
pub proof fn law_split_undoes_concatenation(a: Seq<char>, mark: Seq<char>, b: Seq<char>)
    requires
        mark.len() == 1,
        forall|i: int| 0 <= i < a.len() ==> #[trigger] a[i] != mark[0],
    ensures
        split_first(a + mark + b, mark) == Some((a, b)),
{
    let s = a + mark + b;
    let n = a.len() as int;
    lemma_first_at(s, mark, 0);
    assert(s.subrange(n, n + 1) =~= mark);
    assert(occurs_at(s, mark, n));
    assert(first_at(s, mark, 0) is Some);
    let i = first_at(s, mark, 0)->0 as int;
    if i < n {
        assert(s.subrange(i, i + 1)[0] == a[i]);
    }
    assert(i == n);
    assert(s.take(n) =~= a);
    assert(s.skip(n + 1) =~= b);
}

/// The decimal form of a number consists of digits, without a leading zero but for zero itself, and
/// reads back as the number.
pub proof fn law_decimal_reads_back(n: nat)
    ensures
        all_digits(crate::text::decimal(n)),
        digits_value(crate::text::decimal(n)) == n,
        crate::text::decimal(n)[0] == '0' ==> n == 0,
        n <= u32::MAX ==> u32_value(crate::text::decimal(n)) == Some(n as u32),
    decreases n,
{
    let d = crate::text::decimal(n);
    if n >= 10 {
        law_decimal_reads_back(n / 10);
        let front = crate::text::decimal(n / 10);
        assert(d.drop_last() =~= front);
        assert forall|i: int| 0 <= i < d.len() implies is_digit(#[trigger] d[i]) by {
            if i < front.len() {
                assert(d[i] == front[i]);
            }
        }
        assert(d[0] == front[0]);
    } else {
        assert(d.drop_last() =~= seq![]);
        assert(digits_value(d.drop_last()) == 0);
    }
    assert(is_digit(d[0]));
}

/// A cut by bytes is the start of the text that takes that many bytes, or the whole text.
pub proof fn law_byte_prefix_is_a_prefix(s: Seq<char>, bytes: nat)
    ensures
        byte_prefix(s, bytes as int).is_prefix_of(s),
        vstd::utf8::is_ascii_chars(s) && bytes <= s.len() ==> byte_prefix(s, bytes as int)
            == s.take(bytes as int),
{
    lemma_chars_in_bound(s, bytes as int);
    assert(s.take(s.len() as int) =~= s);
    if vstd::utf8::is_ascii_chars(s) && bytes <= s.len() {
        lemma_ascii_chars_in(s, bytes);
    }
}

proof fn lemma_ascii_chars_in(s: Seq<char>, bytes: nat)
    requires
        vstd::utf8::is_ascii_chars(s),
        bytes <= s.len(),
    ensures
        chars_in(s, bytes as int) == Some(bytes),
    decreases s.len(),
{
    if bytes > 0 {
        let rest = s.skip(1);
        assert(0 <= s[0] < 128);
        assert forall|i: int| 0 <= i < rest.len() implies 0 <= #[trigger] rest[i] < 128 by {
            assert(rest[i] == s[i + 1]);
        }
        lemma_ascii_chars_in(rest, (bytes - 1) as nat);
    }
}

/// The bytes of a character are those of its UTF-8 encoding.
pub proof fn law_width_is_that_of_the_encoding(c: char)
    ensures
        utf8_width(c) == vstd::utf8::encode_utf8(seq![c]).len(),
{
    vstd::utf8::char_is_scalar(c);
    assert(seq![c].drop_first() =~= seq![]);
    assert(vstd::utf8::encode_utf8(seq![]) =~= seq![]);
    assert(vstd::utf8::encode_utf8(seq![c]) == vstd::utf8::encode_scalar(c as u32)
        + vstd::utf8::encode_utf8(seq![c].drop_first()));
}

} // verus!
