//! AES-256-GCM sealing of chunks: a random nonce, then the ciphertext and its tag.
use crate::error::{CoreError, CoreResult};
use aes_gcm::aead::{Aead, AeadCore, KeyInit, OsRng};
use aes_gcm::{Aes256Gcm, Key, Nonce};
use vstd::prelude::*;

verus! {

/// The number of bytes of an AES-256 key.
pub const KEY_LEN: usize = 32;

/// The number of bytes of a nonce, which a sealed blob starts with.
pub const NONCE_LEN: usize = 12;

/// The number of bytes of the authentication tag, which a sealed blob ends with.
pub const TAG_LEN: usize = 16;

/// The largest message that is sealed or opened.
pub const MESSAGE_LIMIT: u64 = 0x8_0000_0000;

/// A repository's AES-256 key.
#[derive(Clone, Copy)]
pub struct EncryptionKey {
    pub bytes: [u8; 32],
}

impl View for EncryptionKey {
    type V = Seq<u8>;

    open spec fn view(&self) -> Seq<u8> {
        self.bytes@
    }
}

/// A sealed message: nonce, ciphertext and tag.
pub struct Ciphertext {
    pub blob: Vec<u8>,
}

/// What AES-256-GCM makes of `plain` under `key` and `nonce`: the ciphertext, then the tag.
pub uninterp spec fn aes_gcm_seal(key: Seq<u8>, nonce: Seq<u8>, plain: Seq<u8>) -> Seq<u8>;

/// What AES-256-GCM reads from `sealed` under `key` and `nonce`; `None` where the tag does not
/// match.
pub uninterp spec fn aes_gcm_open(key: Seq<u8>, nonce: Seq<u8>, sealed: Seq<u8>) -> Option<
    Seq<u8>,
>;

/// `Aead::encrypt` of `aes_gcm::Aes256Gcm` without associated data: succeeds on messages within
/// the limit, adds a tag to the message's length, and `Aead::decrypt` under the same key and nonce
/// gives the message back.
#[verifier::external_body]
fn seal_with(key: &[u8; 32], nonce: &[u8; 12], plain: &[u8]) -> (res: Option<Vec<u8>>)
    requires
        plain@.len() <= MESSAGE_LIMIT,
    ensures
        res is Some,
        res->0@ == aes_gcm_seal(key@, nonce@, plain@),
        res->0@.len() == plain@.len() + TAG_LEN,
        aes_gcm_open(key@, nonce@, res->0@) == Some(plain@),
{
    let cipher = Aes256Gcm::new(Key::<Aes256Gcm>::from_slice(key));
    cipher.encrypt(Nonce::from_slice(nonce), plain).ok()
}

/// `Aead::decrypt` of `aes_gcm::Aes256Gcm` without associated data: a function of key, nonce and
/// sealed message; what it gives back is shorter than the sealed message by the tag.
#[verifier::external_body]
fn open_with(key: &[u8; 32], nonce: &[u8; 12], sealed: &[u8]) -> (res: Option<Vec<u8>>)
    requires
        sealed@.len() <= MESSAGE_LIMIT + TAG_LEN,
    ensures
        match res {
            Some(p) => aes_gcm_open(key@, nonce@, sealed@) == Some(p@) && p@.len() + TAG_LEN
                == sealed@.len(),
            None => aes_gcm_open(key@, nonce@, sealed@) is None,
        },
{
    let cipher = Aes256Gcm::new(Key::<Aes256Gcm>::from_slice(key));
    cipher.decrypt(Nonce::from_slice(nonce), sealed).ok()
}

/// `AeadCore::generate_nonce` with `OsRng`: twelve random bytes.
#[verifier::external_body]
fn random_nonce() -> (res: [u8; 12]) {
    Aes256Gcm::generate_nonce(&mut OsRng).into()
}

/// `KeyInit::generate_key` with `OsRng`: thirty-two random bytes.
#[verifier::external_body]
fn random_key() -> (res: [u8; 32]) {
    Aes256Gcm::generate_key(&mut OsRng).into()
}

impl EncryptionKey {
    /// A fresh random key.
    pub fn generate() -> (res: EncryptionKey)
        ensures
            res@.len() == KEY_LEN,
    {
        EncryptionKey { bytes: random_key() }
    }
}

/// What a sealed blob reads as under `key`: the message, or nothing where it is too short, too
/// long or not sealed under `key`.
pub open spec fn open_blob(key: Seq<u8>, blob: Seq<u8>) -> Option<Seq<u8>> {
    if blob.len() < NONCE_LEN || blob.len() > MESSAGE_LIMIT + NONCE_LEN + TAG_LEN {
        None
    } else {
        aes_gcm_open(key, blob.take(NONCE_LEN as int), blob.skip(NONCE_LEN as int))
    }
}

/// The blob that `nonce` and `plain` make under `key`.
pub open spec fn seal_blob(key: Seq<u8>, nonce: Seq<u8>, plain: Seq<u8>) -> Seq<u8> {
    nonce + aes_gcm_seal(key, nonce, plain)
}

/// Seals `plain` under `key` and `nonce`.
pub fn encrypt_with_nonce(key: &EncryptionKey, nonce: [u8; 12], plain: &[u8]) -> (res: CoreResult<
    Ciphertext,
>)
    ensures
        match res {
            Ok(c) => plain@.len() <= MESSAGE_LIMIT && c.blob@ == seal_blob(key@, nonce@, plain@)
                && c.blob@.len() == NONCE_LEN + plain@.len() + TAG_LEN && open_blob(key@, c.blob@)
                == Some(plain@),
            Err(e) => plain@.len() > MESSAGE_LIMIT && (e matches CoreError::Crypto(m) && m@
                == "message too large to encrypt"@),
        },
{
    if plain.len() as u64 > MESSAGE_LIMIT {
        return Err(CoreError::Crypto(String::from_str("message too large to encrypt")));
    }
    match seal_with(&key.bytes, &nonce, plain) {
        Some(sealed) => {
            let mut blob: Vec<u8> = Vec::new();
            let mut i: usize = 0;
            while i < 12
                invariant
                    i <= 12,
                    nonce@.len() == 12,
                    blob@ == nonce@.take(i as int),
                decreases 12 - i,
            {
                blob.push(nonce[i]);
                i += 1;
                assert(blob@ =~= nonce@.take(i as int));
            }
            let mut tail = sealed;
            blob.append(&mut tail);
            proof {
                assert(nonce@.take(12) =~= nonce@);
                assert(blob@ =~= nonce@ + sealed@);
                assert(blob@.take(12) =~= nonce@);
                assert(blob@.skip(12) =~= sealed@);
            }
            Ok(Ciphertext { blob })
        },
        None => Err(CoreError::Crypto(String::from_str("message too large to encrypt"))),
    }
}

/// Seals `plain` under `key` and a random nonce.
pub fn encrypt(key: &EncryptionKey, plain: &[u8]) -> (res: CoreResult<Ciphertext>)
    ensures
        match res {
            Ok(c) => plain@.len() <= MESSAGE_LIMIT && c.blob@.len() == NONCE_LEN + plain@.len()
                + TAG_LEN && open_blob(key@, c.blob@) == Some(plain@),
            Err(e) => plain@.len() > MESSAGE_LIMIT && (e matches CoreError::Crypto(m) && m@
                == "message too large to encrypt"@),
        },
{
    encrypt_with_nonce(key, random_nonce(), plain)
}

/// Reads a sealed blob under `key`.
pub(crate) fn open_bytes(key: &EncryptionKey, blob: &Vec<u8>) -> (res: CoreResult<Vec<u8>>)
    ensures
        match res {
            Ok(p) => open_blob(key@, blob@) == Some(p@) && p@.len() + NONCE_LEN + TAG_LEN
                == blob@.len(),
            Err(e) => open_blob(key@, blob@) is None && (e matches CoreError::Crypto(m) && m@
                == "decryption failed"@),
        },
{
    let n: usize = blob.len();
    if n >= 12 && n as u64 <= MESSAGE_LIMIT + 28 {
        let mut nonce: [u8; 12] = [0; 12];
        let mut i: usize = 0;
        while i < 12
            invariant
                i <= 12,
                n >= 12,
                n == blob@.len(),
                forall|j: int| 0 <= j < i ==> #[trigger] nonce@[j] == blob@[j],
            decreases 12 - i,
        {
            nonce[i] = blob[i];
            i += 1;
        }
        assert(nonce@ =~= blob@.take(12));
        let sealed = vstd::slice::slice_subrange(blob.as_slice(), 12, n);
        assert(sealed@ =~= blob@.skip(12));
        if let Some(plain) = open_with(&key.bytes, &nonce, sealed) {
            return Ok(plain);
        }
    }
    Err(CoreError::Crypto(String::from_str("decryption failed")))
}

/// Reads the message back that `encrypt` sealed under `key`.
pub fn decrypt(key: &EncryptionKey, ciphertext: &Ciphertext) -> (res: CoreResult<Vec<u8>>)
    ensures
        match res {
            Ok(p) => open_blob(key@, ciphertext.blob@) == Some(p@) && p@.len() + NONCE_LEN
                + TAG_LEN == ciphertext.blob@.len(),
            Err(e) => open_blob(key@, ciphertext.blob@) is None && (e matches CoreError::Crypto(m)
                && m@ == "decryption failed"@),
        },
{
    open_bytes(key, &ciphertext.blob)
}

/// A sealed blob is the nonce, then what the cipher made of the message; it is opened with the
/// nonce that it starts with, and what is too short for a nonce does not open.
pub proof fn law_blob_starts_with_its_nonce(
    key: Seq<u8>,
    nonce: Seq<u8>,
    plain: Seq<u8>,
    sealed: Seq<u8>,
)
    requires
        nonce.len() == NONCE_LEN,
        sealed.len() <= MESSAGE_LIMIT + TAG_LEN,
    ensures
        seal_blob(key, nonce, plain).take(12) == nonce,
        seal_blob(key, nonce, plain).skip(12) == aes_gcm_seal(key, nonce, plain),
        open_blob(key, nonce + sealed) == aes_gcm_open(key, nonce, sealed),
        open_blob(key, nonce.drop_last()) is None,
{
    let blob = seal_blob(key, nonce, plain);
    assert(blob.take(12) =~= nonce);
    assert(blob.skip(12) =~= aes_gcm_seal(key, nonce, plain));
    assert((nonce + sealed).take(12) =~= nonce);
    assert((nonce + sealed).skip(12) =~= sealed);
}

} // verus!
