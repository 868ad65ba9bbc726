//! Errors of the content-addressed store and its pipeline.
use vstd::prelude::*;

verus! {

/// What can go wrong while chunks and manifests are written, read or reclaimed.
#[derive(Debug)]
pub enum CoreError {
    /// A caller-supplied or stored value is not what it must be.
    InvalidArgument(String),
    /// The store holds no object under the requested id.
    NotFound(String),
    /// Encryption or decryption failed.
    Crypto(String),
    /// The storage backend failed.
    Storage(String),
}

pub type CoreResult<T> = Result<T, CoreError>;

impl CoreError {
    /// The message that the error is reported with.
    pub open spec fn text(&self) -> Seq<char> {
        match self {
            CoreError::InvalidArgument(m) => "invalid argument: "@ + m@,
            CoreError::NotFound(m) => "not found: "@ + m@,
            CoreError::Crypto(m) => "crypto error: "@ + m@,
            CoreError::Storage(m) => "storage error: "@ + m@,
        }
    }

    /// The message that the error is reported with.
    pub fn message(&self) -> (res: String)
        ensures
            res@ == self.text(),
    {
        match self {
            CoreError::InvalidArgument(m) => String::from_str("invalid argument: ").concat(
                m.as_str(),
            ),
            CoreError::NotFound(m) => String::from_str("not found: ").concat(m.as_str()),
            CoreError::Crypto(m) => String::from_str("crypto error: ").concat(m.as_str()),
            CoreError::Storage(m) => String::from_str("storage error: ").concat(m.as_str()),
        }
    }
}

/// The message of an error ends with what was said of it, and tells its kind apart from the others.
pub proof fn law_error_messages_tell_kind_and_cause(m: String, other: String)
    ensures
        m@.is_suffix_of(CoreError::InvalidArgument(m).text()),
        m@.is_suffix_of(CoreError::NotFound(m).text()),
        m@.is_suffix_of(CoreError::Crypto(m).text()),
        m@.is_suffix_of(CoreError::Storage(m).text()),
        "invalid argument: "@.is_prefix_of(CoreError::InvalidArgument(m).text()),
        "not found: "@.is_prefix_of(CoreError::NotFound(m).text()),
        "crypto error: "@.is_prefix_of(CoreError::Crypto(m).text()),
        "storage error: "@.is_prefix_of(CoreError::Storage(m).text()),
        CoreError::NotFound(m).text() != CoreError::Crypto(other).text(),
{
    lemma_head_and_tail("invalid argument: "@, m@);
    lemma_head_and_tail("not found: "@, m@);
    lemma_head_and_tail("crypto error: "@, m@);
    lemma_head_and_tail("storage error: "@, m@);
    reveal_strlit("not found: ");
    reveal_strlit("crypto error: ");
    assert(CoreError::NotFound(m).text()[0] == 'n');
    assert(CoreError::Crypto(other).text()[0] == 'c');
}

proof fn lemma_head_and_tail(head: Seq<char>, tail: Seq<char>)
    ensures
        head.is_prefix_of(head + tail),
        tail.is_suffix_of(head + tail),
{
    let t = head + tail;
    assert(t.subrange(0, head.len() as int) =~= head);
    assert(t.subrange(t.len() - tail.len(), t.len() as int) =~= tail);
}

} // verus!
