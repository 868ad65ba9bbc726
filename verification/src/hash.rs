//! Content ids: BLAKE3 digests and their hexadecimal form.
use crate::error::{CoreError, CoreResult};
use crate::text::chars_of;
use vstd::prelude::*;

verus! {

/// The number of bytes of a content id.
pub const ID_LEN: usize = 32;

/// The BLAKE3 digest of an object's plaintext; its key in the store.
#[derive(Clone, Copy, Debug, PartialEq, Eq, Hash)]
pub struct ContentId {
    pub bytes: [u8; 32],
}

impl View for ContentId {
    type V = Seq<u8>;

    open spec fn view(&self) -> Seq<u8> {
        self.bytes@
    }
}

/// The BLAKE3 digest of `data`.
pub uninterp spec fn blake3_digest(data: Seq<u8>) -> Seq<u8>;

/// `blake3::hash`: the 32-byte digest of `data`, which depends on `data` alone.
#[verifier::external_body]
fn blake3_hash(data: &[u8]) -> (res: [u8; 32])
    ensures
        res@ == blake3_digest(data@),
{
    *blake3::hash(data).as_bytes()
}

/// The content id of `data`.
pub fn hash_bytes(data: &[u8]) -> (res: ContentId)
    ensures
        res@ == blake3_digest(data@),
        res@.len() == ID_LEN,
{
    ContentId { bytes: blake3_hash(data) }
}

/// The lower-case hexadecimal digit for `n`.
pub open spec fn hex_digit(n: int) -> char {
    if n < 10 {
        ('0' as u32 + n) as char
    } else {
        ('a' as u32 + (n - 10)) as char
    }
}

/// The value of a hexadecimal digit of either case.
pub open spec fn hex_value(c: char) -> Option<int> {
    if '0' <= c <= '9' {
        Some(c as int - '0' as int)
    } else if 'a' <= c <= 'f' {
        Some(c as int - 'a' as int + 10)
    } else if 'A' <= c <= 'F' {
        Some(c as int - 'A' as int + 10)
    } else {
        None
    }
}

/// The hexadecimal form of `bytes`: two digits for each byte, high half first.
pub open spec fn hex(bytes: Seq<u8>) -> Seq<char> {
    Seq::new(
        2 * bytes.len(),
        |i: int|
            if i % 2 == 0 {
                hex_digit(bytes[i / 2] as int / 16)
            } else {
                hex_digit(bytes[i / 2] as int % 16)
            },
    )
}

/// Whether `s` is the hexadecimal form of a content id.
pub open spec fn is_id_hex(s: Seq<char>) -> bool {
    &&& s.len() == 2 * ID_LEN
    &&& forall|i: int| 0 <= i < s.len() ==> hex_value(#[trigger] s[i]) is Some
}

/// The bytes that the hexadecimal digits `s` stand for.
pub open spec fn unhex(s: Seq<char>) -> Seq<u8> {
    Seq::new(
        s.len() / 2,
        |i: int| (hex_value(s[2 * i])->0 * 16 + hex_value(s[2 * i + 1])->0) as u8,
    )
}

fn to_hex_digit(n: u8) -> (res: char)
    requires
        n < 16,
    ensures
        res == hex_digit(n as int),
{
    match n {
        0 => '0',
        1 => '1',
        2 => '2',
        3 => '3',
        4 => '4',
        5 => '5',
        6 => '6',
        7 => '7',
        8 => '8',
        9 => '9',
        10 => 'a',
        11 => 'b',
        12 => 'c',
        13 => 'd',
        14 => 'e',
        _ => 'f',
    }
}

fn from_hex_digit(c: char) -> (res: Option<u8>)
    ensures
        match res {
            Some(v) => hex_value(c) == Some(v as int) && v < 16,
            None => hex_value(c) is None,
        },
{
    if '0' <= c && c <= '9' {
        Some((c as u32 - '0' as u32) as u8)
    } else if 'a' <= c && c <= 'f' {
        Some((c as u32 - 'a' as u32 + 10) as u8)
    } else if 'A' <= c && c <= 'F' {
        Some((c as u32 - 'A' as u32 + 10) as u8)
    } else {
        None
    }
}

/// The error text for a string that is no content id.
pub open spec fn invalid_id_text(s: Seq<char>) -> Seq<char> {
    "invalid content id '"@ + s + "'"@
}

impl ContentId {
    /// The id in lower-case hexadecimal.
    pub fn to_hex(&self) -> (res: String)
        ensures
            res@ == hex(self@),
    {
        let mut out = String::new();
        let mut i: usize = 0;
        while i < 32
            invariant
                i <= 32,
                self@.len() == 32,
                out@ == hex(self@).take(2 * i),
            decreases 32 - i,
        {
            let b: u8 = self.bytes[i];
            out.push(to_hex_digit(b / 16));
            out.push(to_hex_digit(b % 16));
            proof {
                let h = hex(self@);
                assert(h[2 * i] == hex_digit(b as int / 16));
                assert(h[2 * i + 1] == hex_digit(b as int % 16));
                assert(out@ =~= h.take(2 * (i + 1)));
            }
            i += 1;
        }
        assert(hex(self@).take(64) =~= hex(self@));
        out
    }

    /// Reads an id from 64 hexadecimal digits of either case.
    pub fn from_hex(s: &str) -> (res: CoreResult<ContentId>)
        ensures
            match res {
                Ok(id) => is_id_hex(s@) && id@ == unhex(s@) && id@.len() == ID_LEN,
                Err(e) => !is_id_hex(s@) && (e matches CoreError::InvalidArgument(m) && m@
                    == invalid_id_text(s@)),
            },
    {
        let chars = chars_of(s);
        if chars.len() == 64 {
            let mut bytes: [u8; 32] = [0; 32];
            let mut i: usize = 0;
            let mut ok = true;
            while i < 32 && ok
                invariant
                    i <= 32,
                    chars@ == s@,
                    chars.len() == 64,
                    bytes@.len() == 32,
                    ok ==> forall|j: int| 0 <= j < 2 * i ==> hex_value(#[trigger] s@[j]) is Some,
                    ok ==> forall|j: int| 0 <= j < i ==> #[trigger] bytes@[j] == unhex(s@)[j],
                    !ok ==> !is_id_hex(s@),
                decreases 32 - i + (if ok { 1int } else { 0 }),
            {
                match (from_hex_digit(chars[2 * i]), from_hex_digit(chars[2 * i + 1])) {
                    (Some(hi), Some(lo)) => {
                        bytes[i] = hi * 16 + lo;
                        assert(unhex(s@)[i as int] == bytes@[i as int]);
                        i += 1;
                    },
                    _ => {
                        assert(hex_value(s@[2 * i]) is None || hex_value(s@[2 * i + 1]) is None);
                        ok = false;
                    },
                }
            }
            if ok {
                assert(bytes@ =~= unhex(s@));
                return Ok(ContentId { bytes });
            }
        }
        Err(
            CoreError::InvalidArgument(
                String::from_str("invalid content id '").concat(s).concat("'"),
            ),
        )
    }

    /// Whether two ids are the same.
    pub fn same(&self, other: &ContentId) -> (res: bool)
        ensures
            res == (self@ == other@),
    {
        let mut i: usize = 0;
        while i < 32
            invariant
                i <= 32,
                self@.len() == 32,
                other@.len() == 32,
                forall|j: int| 0 <= j < i ==> self@[j] == other@[j],
            decreases 32 - i,
        {
            if self.bytes[i] != other.bytes[i] {
                assert(self@[i as int] != other@[i as int]);
                return false;
            }
            i += 1;
        }
        assert(self@ =~= other@);
        true
    }
}

/// The hexadecimal form of an id reads back as the id.
pub proof fn law_hex_round_trip(bytes: Seq<u8>)
    requires
        bytes.len() == ID_LEN,
    ensures
        is_id_hex(hex(bytes)),
        unhex(hex(bytes)) == bytes,
{
    let h = hex(bytes);
    assert forall|i: int| 0 <= i < h.len() implies hex_value(#[trigger] h[i]) is Some by {
        assert(0 <= bytes[i / 2] as int / 16 < 16);
        assert(0 <= bytes[i / 2] as int % 16 < 16);
    }
    assert forall|i: int| 0 <= i < bytes.len() implies #[trigger] unhex(h)[i] == bytes[i] by {
        let b = bytes[i] as int;
        assert((2 * i) % 2 == 0 && (2 * i) / 2 == i);
        assert((2 * i + 1) % 2 == 1 && (2 * i + 1) / 2 == i);
        assert(h[2 * i] == hex_digit(b / 16));
        assert(h[2 * i + 1] == hex_digit(b % 16));
        assert(hex_value(hex_digit(b / 16)) == Some(b / 16));
        assert(hex_value(hex_digit(b % 16)) == Some(b % 16));
        assert((b / 16) * 16 + b % 16 == b);
    }
    assert(unhex(h) =~= bytes);
}

/// Ids with the same hexadecimal form are the same id.
pub proof fn law_hex_injective(a: Seq<u8>, b: Seq<u8>)
    requires
        a.len() == ID_LEN,
        b.len() == ID_LEN,
        hex(a) == hex(b),
    ensures
        a == b,
{
    law_hex_round_trip(a);
    law_hex_round_trip(b);
}

/// The hexadecimal form of bytes has two lower-case digits for each, and those of bytes that follow
/// on others follow on theirs.
pub proof fn law_hex_goes_byte_by_byte(a: Seq<u8>, b: Seq<u8>, i: int)
    requires
        0 <= i < hex(a).len(),
    ensures
        hex(a).len() == 2 * a.len(),
        '0' <= hex(a)[i] <= '9' || 'a' <= hex(a)[i] <= 'f',
        hex(a + b) == hex(a) + hex(b),
{
    assert(0 <= a[i / 2] as int / 16 < 16);
    assert(0 <= a[i / 2] as int % 16 < 16);
    assert(hex(a + b) =~= hex(a) + hex(b));
}

/// A content id is read from sixty-four hexadecimal digits of either case and from nothing else,
/// and both cases stand for the same id.
pub proof fn law_ids_are_hexadecimal(s: Seq<char>)
    ensures
        is_id_hex(s) <==> s.len() == 64 && forall|i: int|
            0 <= i < s.len() ==> ('0' <= #[trigger] s[i] <= '9') || ('a' <= s[i] <= 'f') || ('A'
                <= s[i] <= 'F'),
{
    if is_id_hex(s) {
        assert forall|i: int| 0 <= i < s.len() implies ('0' <= #[trigger] s[i] <= '9') || ('a'
            <= s[i] <= 'f') || ('A' <= s[i] <= 'F') by {
            assert(hex_value(s[i]) is Some);
        }
    }
    if s.len() == 64 && forall|i: int|
        0 <= i < s.len() ==> ('0' <= #[trigger] s[i] <= '9') || ('a' <= s[i] <= 'f') || ('A' <= s[i]
            <= 'F') {
        assert forall|i: int| 0 <= i < s.len() implies hex_value(#[trigger] s[i]) is Some by {
            assert(('0' <= s[i] <= '9') || ('a' <= s[i] <= 'f') || ('A' <= s[i] <= 'F'));
        }
    }
}

/// The bytes that hexadecimal digits stand for: sixteen times the first digit of a pair and the
/// second.
pub proof fn law_unhex_reads_pairs(s: Seq<char>, i: int)
    requires
        is_id_hex(s),
        0 <= i < ID_LEN,
    ensures
        unhex(s).len() == ID_LEN,
        unhex(s)[i] == hex_value(s[2 * i])->0 * 16 + hex_value(s[2 * i + 1])->0,
        0 <= hex_value(s[2 * i])->0 < 16,
        0 <= hex_value(s[2 * i + 1])->0 < 16,
{
    assert(hex_value(s[2 * i]) is Some);
    assert(hex_value(s[2 * i + 1]) is Some);
}

/// A refused id is told.
pub proof fn law_refused_id_is_told(s: Seq<char>)
    ensures
        ("invalid content id '"@ + s).is_prefix_of(invalid_id_text(s)),
{
    let head = "invalid content id '"@ + s;
    assert(invalid_id_text(s).subrange(0, head.len() as int) =~= head);
}

} // verus!
