//! Opening a repository: which object store it is, and the key its chunks are sealed with.
use crate::crd::{ProteusRepository, RepositoryBackend, RepositoryPhase};
use crate::crypto::{EncryptionKey, KEY_LEN};
use crate::data_plane::RepositoryKind;
use crate::error::{CoreError, CoreResult};
use crate::text::{same_text, str_view};
use base64::engine::general_purpose::STANDARD;
use base64::Engine;
use vstd::prelude::*;
use vstd::utf8::encode_utf8;

verus! {

/// The bytes that a padded standard base64 text stands for; `None` where it is no such text.
pub uninterp spec fn base64_bytes(text: Seq<u8>) -> Option<Seq<u8>>;

/// `Engine::decode` of `base64` with the standard alphabet and padding: a function of the text.
#[verifier::external_body]
fn base64_decode(text: &[u8]) -> (res: Option<Vec<u8>>)
    ensures
        match res {
            Some(b) => base64_bytes(text@) == Some(b@),
            None => base64_bytes(text@) is None,
        },
{
    STANDARD.decode(text).ok()
}

/// The namespace in which a repository is looked up.
pub open spec fn repository_namespace_of(
    repo_namespace: Option<Seq<char>>,
    default_namespace: Seq<char>,
) -> Seq<char> {
    match repo_namespace {
        Some(ns) => ns,
        None => default_namespace,
    }
}

/// The namespace in which a repository is looked up: the one that is named, else the default.
pub fn repository_namespace(repo_namespace: Option<&str>, default_namespace: &str) -> (res: String)
    ensures
        res@ == repository_namespace_of(str_view(repo_namespace), default_namespace@),
{
    match repo_namespace {
        Some(ns) => ns.to_owned(),
        None => default_namespace.to_owned(),
    }
}

/// The text for a repository that could not be fetched.
pub open spec fn missing_repository_text(
    repo_ref: Seq<char>,
    ns: Seq<char>,
    err: Seq<char>,
) -> Seq<char> {
    "repository '"@ + repo_ref + "' not found in namespace '"@ + ns + "': "@ + err
}

fn missing_repository(repo_ref: &str, ns: &str, err: &str) -> (res: String)
    ensures
        res@ == missing_repository_text(repo_ref@, ns@, err@),
{
    String::from_str("repository '").concat(repo_ref).concat("' not found in namespace '").concat(
        ns,
    ).concat("': ").concat(err)
}

/// Whether agents and movers reach a backend.
pub open spec fn kind_of(backend: RepositoryBackend) -> RepositoryKind {
    match backend {
        RepositoryBackend::Local { .. } => RepositoryKind::Local,
        RepositoryBackend::S3 { .. } => RepositoryKind::Remote,
    }
}

/// Classifies a repository that was fetched, or could not be, as reachable from agents or local to
/// the controller.
pub fn repository_kind(
    repo_ref: &str,
    ns: &str,
    fetched: Result<ProteusRepository, String>,
) -> (res: Result<RepositoryKind, String>)
    ensures
        match (fetched, res) {
            (Ok(repo), Ok(kind)) => kind == kind_of(repo.spec.backend),
            (Err(e), Err(m)) => m@ == missing_repository_text(repo_ref@, ns@, e@),
            _ => false,
        },
{
    match fetched {
        Ok(repo) => match repo.spec.backend {
            RepositoryBackend::Local { .. } => Ok(RepositoryKind::Local),
            RepositoryBackend::S3 { .. } => Ok(RepositoryKind::Remote),
        },
        Err(e) => Err(missing_repository(repo_ref, ns, e.as_str())),
    }
}

/// A secret as it is fetched: raw bytes and plain texts, each under its key.
#[derive(Debug, Clone, PartialEq, Eq)]
pub struct SecretData {
    pub data: Option<Vec<(String, Vec<u8>)>>,
    pub string_data: Option<Vec<(String, String)>>,
}

/// The value of the first entry under `key`.
pub open spec fn entry(pairs: Seq<(Seq<char>, Seq<u8>)>, key: Seq<char>) -> Option<Seq<u8>>
    decreases pairs.len(),
{
    if pairs.len() == 0 {
        None
    } else {
        match entry(pairs.drop_last(), key) {
            Some(v) => Some(v),
            None => if pairs.last().0 == key {
                Some(pairs.last().1)
            } else {
                None
            },
        }
    }
}

/// Keys with their bytes.
pub open spec fn raw_pairs(pairs: Seq<(String, Vec<u8>)>) -> Seq<(Seq<char>, Seq<u8>)> {
    Seq::new(pairs.len(), |i: int| (pairs[i].0@, pairs[i].1@))
}

/// Keys with the bytes of their texts.
pub open spec fn text_pairs(pairs: Seq<(String, String)>) -> Seq<(Seq<char>, Seq<u8>)> {
    Seq::new(pairs.len(), |i: int| (pairs[i].0@, encode_utf8(pairs[i].1@)))
}

/// Whether no key occurs twice.
pub open spec fn distinct_keys(pairs: Seq<(Seq<char>, Seq<u8>)>) -> bool {
    forall|i: int, j: int|
        #![trigger pairs[i], pairs[j]]
        0 <= i < j < pairs.len() ==> pairs[i].0 != pairs[j].0
}

/// The raw bytes under `key` in a secret: its text where it has one, else its data.
pub open spec fn secret_entry(
    data: Option<Seq<(String, Vec<u8>)>>,
    string_data: Option<Seq<(String, String)>>,
    key: Seq<char>,
) -> Option<Seq<u8>> {
    let texts = match string_data {
        Some(p) => entry(text_pairs(p), key),
        None => None,
    };
    match texts {
        Some(v) => Some(v),
        None => match data {
            Some(p) => entry(raw_pairs(p), key),
            None => None,
        },
    }
}

proof fn lemma_entry_absent(pairs: Seq<(Seq<char>, Seq<u8>)>, key: Seq<char>)
    ensures
        entry(pairs, key) is None <==> forall|i: int|
            0 <= i < pairs.len() ==> (#[trigger] pairs[i]).0 != key,
    decreases pairs.len(),
{
    if pairs.len() > 0 {
        lemma_entry_absent(pairs.drop_last(), key);
        let front = pairs.drop_last();
        if entry(pairs, key) is None {
            assert forall|i: int| 0 <= i < pairs.len() implies (#[trigger] pairs[i]).0 != key by {
                if i < front.len() {
                    assert(front[i] == pairs[i]);
                }
            }
        } else if entry(front, key) is Some {
            let i = choose|i: int| 0 <= i < front.len() && (#[trigger] front[i]).0 == key;
            assert(pairs[i].0 == key);
        } else {
            assert(pairs[pairs.len() - 1].0 == key);
        }
    }
}

fn find_entry(pairs: &Vec<(String, Vec<u8>)>, key: &str) -> (res: Option<usize>)
    ensures
        match res {
            Some(i) => i < pairs@.len() && entry(raw_pairs(pairs@), key@) == Some(pairs@[i as int].1@),
            None => entry(raw_pairs(pairs@), key@) is None,
        },
{
    let ghost all = raw_pairs(pairs@);
    let mut i: usize = 0;
    assert(all.take(0) =~= seq![]);
    while i < pairs.len()
        invariant
            i <= pairs@.len(),
            all == raw_pairs(pairs@),
            entry(all.take(i as int), key@) is None,
        decreases pairs@.len() - i,
    {
        proof {
            assert(all.take(i + 1).drop_last() =~= all.take(i as int));
            assert(all.take(i + 1).last() == all[i as int]);
        }
        if same_text(pairs[i].0.as_str(), key) {
            proof {
                lemma_entry_stays(all, (i + 1) as nat, key@);
            }
            return Some(i);
        }
        i += 1;
    }
    assert(all.take(i as int) =~= all);
    None
}

proof fn lemma_entry_stays(pairs: Seq<(Seq<char>, Seq<u8>)>, n: nat, key: Seq<char>)
    requires
        n <= pairs.len(),
        entry(pairs.take(n as int), key) is Some,
    ensures
        entry(pairs, key) == entry(pairs.take(n as int), key),
    decreases pairs.len() - n,
{
    if n == pairs.len() {
        assert(pairs.take(n as int) =~= pairs);
    } else {
        assert(pairs.take((n + 1) as int).drop_last() =~= pairs.take(n as int));
        lemma_entry_stays(pairs, n + 1, key);
    }
}

fn add_entry(out: &mut Vec<(String, Vec<u8>)>, key: String, value: Vec<u8>)
    requires
        distinct_keys(raw_pairs(old(out)@)),
    ensures
        distinct_keys(raw_pairs(final(out)@)),
        forall|k: Seq<char>|
            #![trigger entry(raw_pairs(final(out)@), k)]
            entry(raw_pairs(final(out)@), k) == (match entry(raw_pairs(old(out)@), k) {
                Some(v) => Some(v),
                None => if k == key@ {
                    Some(value@)
                } else {
                    None
                },
            }),
{
    let ghost before = raw_pairs(out@);
    if find_entry(out, key.as_str()).is_none() {
        proof {
            lemma_entry_absent(before, key@);
        }
        let ghost k0 = key@;
        let ghost v0 = value@;
        out.push((key, value));
        proof {
            let after = raw_pairs(out@);
            assert(after =~= before.push((k0, v0)));
            assert(after.drop_last() =~= before);
            assert forall|i: int, j: int|
                #![trigger after[i], after[j]]
                0 <= i < j < after.len() implies after[i].0 != after[j].0 by {
                assert(after[i] == before[i]);
                if j < before.len() {
                    assert(after[j] == before[j]);
                }
            }
        }
    }
}

/// The raw bytes of a secret under their keys, without any reading as text, so that both base64
/// texts and binary keys survive. A text takes the place of data under the same key.
pub fn decode_secret_raw_data(
    data: Option<&Vec<(String, Vec<u8>)>>,
    string_data: Option<&Vec<(String, String)>>,
) -> (res: Vec<(String, Vec<u8>)>)
    ensures
        distinct_keys(raw_pairs(res@)),
        forall|k: Seq<char>|
            #![trigger entry(raw_pairs(res@), k)]
            entry(raw_pairs(res@), k) == secret_entry(
                match data {
                    Some(p) => Some(p@),
                    None => None,
                },
                match string_data {
                    Some(p) => Some(p@),
                    None => None,
                },
                k,
            ),
{
    let mut out: Vec<(String, Vec<u8>)> = Vec::new();
    assert(raw_pairs(out@) =~= seq![]);
    if let Some(texts) = string_data {
        let ghost all = text_pairs(texts@);
        let mut i: usize = 0;
        assert(all.take(0) =~= seq![]);
        while i < texts.len()
            invariant
                i <= texts@.len(),
                all == text_pairs(texts@),
                distinct_keys(raw_pairs(out@)),
                forall|k: Seq<char>|
                    #![trigger entry(raw_pairs(out@), k)]
                    entry(raw_pairs(out@), k) == entry(all.take(i as int), k),
            decreases texts@.len() - i,
        {
            proof {
                assert(all.take(i + 1).drop_last() =~= all.take(i as int));
                assert(all.take(i + 1).last() == all[i as int]);
            }
            let ghost before = out;
            add_entry(&mut out, texts[i].0.clone(), texts[i].1.as_str().as_bytes_vec());
            assert forall|k: Seq<char>|
                #![trigger entry(raw_pairs(out@), k)]
                entry(raw_pairs(out@), k) == entry(all.take(i + 1), k) by {
                assert(entry(raw_pairs(before@), k) == entry(all.take(i as int), k));
            }
            i += 1;
        }
        assert(all.take(i as int) =~= all);
    }
    let ghost texts_only = out;
    if let Some(raw) = data {
        let ghost all = raw_pairs(raw@);
        let mut i: usize = 0;
        assert(all.take(0) =~= seq![]);
        while i < raw.len()
            invariant
                i <= raw@.len(),
                all == raw_pairs(raw@),
                distinct_keys(raw_pairs(out@)),
                forall|k: Seq<char>|
                    #![trigger entry(raw_pairs(out@), k)]
                    entry(raw_pairs(out@), k) == (match entry(raw_pairs(texts_only@), k) {
                        Some(v) => Some(v),
                        None => entry(all.take(i as int), k),
                    }),
            decreases raw@.len() - i,
        {
            proof {
                assert(all.take(i + 1).drop_last() =~= all.take(i as int));
                assert(all.take(i + 1).last() == all[i as int]);
            }
            let ghost before = out;
            add_entry(
                &mut out,
                raw[i].0.clone(),
                vstd::slice::slice_to_vec(raw[i].1.as_slice()),
            );
            assert forall|k: Seq<char>|
                #![trigger entry(raw_pairs(out@), k)]
                entry(raw_pairs(out@), k) == (match entry(raw_pairs(texts_only@), k) {
                    Some(v) => Some(v),
                    None => entry(all.take(i + 1), k),
                }) by {
                assert(entry(raw_pairs(before@), k) == (match entry(raw_pairs(texts_only@), k) {
                    Some(v) => Some(v),
                    None => entry(all.take(i as int), k),
                }));
            }
            i += 1;
        }
        assert(all.take(i as int) =~= all);
    }
    out
}

/// The key of the entry that holds an encryption key.
pub const KEY_ENTRY: &'static str = "encryptionKey";

/// The key of the entry that is looked at where there is no [`KEY_ENTRY`].
pub const KEY_ENTRY_FALLBACK: &'static str = "ENCRYPTION_KEY";

/// What is stored for an encryption key in a secret.
pub open spec fn stored_key(pairs: Seq<(Seq<char>, Seq<u8>)>) -> Option<Seq<u8>> {
    match entry(pairs, KEY_ENTRY@) {
        Some(v) => Some(v),
        None => entry(pairs, KEY_ENTRY_FALLBACK@),
    }
}

/// The key that stored bytes stand for, given what they read as in base64: thirty-two bytes as
/// they are, else thirty-two bytes in base64.
pub open spec fn key_value(stored: Seq<u8>, decoded: Option<Seq<u8>>) -> Option<Seq<u8>> {
    if stored.len() == KEY_LEN {
        Some(stored)
    } else {
        match decoded {
            Some(b) => if b.len() == KEY_LEN {
                Some(b)
            } else {
                None
            },
            None => None,
        }
    }
}

fn key_array(bytes: &Vec<u8>) -> (res: EncryptionKey)
    requires
        bytes@.len() == KEY_LEN,
    ensures
        res@ == bytes@,
{
    let mut out: [u8; 32] = [0; 32];
    let mut i: usize = 0;
    while i < 32
        invariant
            i <= 32,
            bytes@.len() == 32,
            forall|j: int| 0 <= j < i ==> #[trigger] out@[j] == bytes@[j],
        decreases 32 - i,
    {
        out[i] = bytes[i];
        i += 1;
    }
    assert(out@ =~= bytes@);
    EncryptionKey { bytes: out }
}

/// The key that stored bytes stand for, given what they read as in base64.
pub fn key_from_stored(stored: &Vec<u8>, decoded: Option<Vec<u8>>) -> (res: CoreResult<
    EncryptionKey,
>)
    ensures
        match res {
            Ok(k) => key_value(
                stored@,
                match decoded {
                    Some(b) => Some(b@),
                    None => None,
                },
            ) == Some(k@),
            Err(e) => key_value(
                stored@,
                match decoded {
                    Some(b) => Some(b@),
                    None => None,
                },
            ) is None && (e matches CoreError::InvalidArgument(m) && m@
                == "encryption key must be 32 bytes"@),
        },
{
    if stored.len() == KEY_LEN {
        return Ok(key_array(stored));
    }
    if let Some(b) = &decoded {
        if b.len() == KEY_LEN {
            return Ok(key_array(b));
        }
    }
    Err(CoreError::InvalidArgument(String::from_str("encryption key must be 32 bytes")))
}

/// The encryption key that a secret holds.
pub fn encryption_key_from_secret_data(pairs: &Vec<(String, Vec<u8>)>) -> (res: CoreResult<
    EncryptionKey,
>)
    ensures
        match stored_key(raw_pairs(pairs@)) {
            Some(stored) => match (res, key_value(stored, base64_bytes(stored))) {
                (Ok(k), Some(b)) => k@ == b,
                (Err(e), None) => e matches CoreError::InvalidArgument(m) && m@
                    == "encryption key must be 32 bytes"@,
                _ => false,
            },
            None => res matches Err(CoreError::NotFound(m)) && m@ == KEY_ENTRY@,
        },
{
    let found = match find_entry(pairs, KEY_ENTRY) {
        Some(i) => Some(i),
        None => find_entry(pairs, KEY_ENTRY_FALLBACK),
    };
    match found {
        Some(i) => {
            let decoded = base64_decode(pairs[i].1.as_slice());
            key_from_stored(&pairs[i].1, decoded)
        },
        None => Err(CoreError::NotFound(KEY_ENTRY.to_owned())),
    }
}

/// What a secret must hold.
pub open spec fn hint_text(secret_name: Seq<char>) -> Seq<char> {
    "expected a 32-byte or base64-encoded 'encryptionKey' in Secret '"@ + secret_name + "'"@
}

/// What a secret must hold.
pub fn repo_hint(secret_name: &str) -> (res: String)
    ensures
        res@ == hint_text(secret_name@),
{
    String::from_str("expected a 32-byte or base64-encoded 'encryptionKey' in Secret '").concat(
        secret_name,
    ).concat("'")
}

/// The text for a secret that could not be fetched.
pub open spec fn missing_secret_text(name: Seq<char>, ns: Seq<char>, err: Seq<char>) -> Seq<char> {
    "encryption Secret '"@ + name + "' not found in namespace '"@ + ns + "': "@ + err
}

/// The text for a secret without a usable key.
pub open spec fn invalid_secret_text(name: Seq<char>, err: Seq<char>) -> Seq<char> {
    "encryption Secret '"@ + name + "' is invalid: "@ + err + ". "@ + hint_text(name)
}

/// The bytes under `key` in a fetched secret.
pub open spec fn fetched_entry(secret: SecretData, key: Seq<char>) -> Option<Seq<u8>> {
    secret_entry(
        match secret.data {
            Some(p) => Some(p@),
            None => None,
        },
        match secret.string_data {
            Some(p) => Some(p@),
            None => None,
        },
        key,
    )
}

/// What a fetched secret gives for a key.
pub open spec fn loads_key(
    secret_name: Seq<char>,
    secret: SecretData,
    res: Result<EncryptionKey, String>,
) -> bool {
    let stored = match fetched_entry(secret, KEY_ENTRY@) {
        Some(v) => Some(v),
        None => fetched_entry(secret, KEY_ENTRY_FALLBACK@),
    };
    match stored {
        Some(s) => match (res, key_value(s, base64_bytes(s))) {
            (Ok(k), Some(b)) => k@ == b,
            (Err(m), None) => m@ == invalid_secret_text(
                secret_name,
                "invalid argument: "@ + "encryption key must be 32 bytes"@,
            ),
            _ => false,
        },
        None => res matches Err(m) && m@ == invalid_secret_text(
            secret_name,
            "not found: "@ + KEY_ENTRY@,
        ),
    }
}

/// The encryption key of a secret that was fetched, or could not be.
pub fn load_encryption_key(
    namespace: &str,
    secret_name: &str,
    fetched: Result<SecretData, String>,
) -> (res: Result<EncryptionKey, String>)
    ensures
        match fetched {
            Ok(secret) => loads_key(secret_name@, secret, res),
            Err(e) => res matches Err(m) && m@ == missing_secret_text(
                secret_name@,
                namespace@,
                e@,
            ),
        },
{
    let secret = match fetched {
        Ok(s) => s,
        Err(e) => {
            return Err(
                String::from_str("encryption Secret '").concat(secret_name).concat(
                    "' not found in namespace '",
                ).concat(namespace).concat("': ").concat(e.as_str()),
            );
        },
    };
    let raw = decode_secret_raw_data(secret.data.as_ref(), secret.string_data.as_ref());
    match encryption_key_from_secret_data(&raw) {
        Ok(k) => Ok(k),
        Err(e) => Err(
            String::from_str("encryption Secret '").concat(secret_name).concat(
                "' is invalid: ",
            ).concat(e.message().as_str()).concat(". ").concat(repo_hint(secret_name).as_str()),
        ),
    }
}

/// A repository ready to receive a snapshot: its store, and its encryption key if it has one.
pub struct OpenedRepository {
    pub store: RepositoryBackend,
    pub encryption_key: Option<EncryptionKey>,
}

/// Why an object store could not be opened.
#[derive(Debug, Clone, PartialEq, Eq)]
pub enum StoreFault {
    /// The credentials could not be loaded.
    Credentials(String),
    /// The backend could not be opened with them.
    Backend(String),
}

/// What opening a repository hears of.
pub enum OpenEvent {
    /// The repository was fetched, or could not be.
    Fetched(Result<ProteusRepository, String>),
    /// The store of the fetched repository was opened, or could not be.
    Store(ProteusRepository, Result<(), StoreFault>),
    /// The secret of an opened store was fetched, or could not be.
    Secret(RepositoryBackend, String, Result<SecretData, String>),
}

/// What opening a repository does next.
pub enum OpenAction {
    /// Open the store of this repository.
    OpenStore(ProteusRepository),
    /// Fetch the secret of this name for the opened store.
    FetchSecret(RepositoryBackend, String),
    /// The repository is open.
    Done(OpenedRepository),
    /// The repository cannot be used.
    Fail(String),
}

/// The phase of a repository, if it has one.
pub open spec fn repository_phase(repo: ProteusRepository) -> Option<RepositoryPhase> {
    match repo.status {
        Some(s) => s.phase,
        None => None,
    }
}

/// A phase as it is shown in messages.
pub open spec fn phase_text(phase: Option<RepositoryPhase>) -> Seq<char> {
    match phase {
        Some(RepositoryPhase::Pending) => "Some(Pending)"@,
        Some(RepositoryPhase::Ready) => "Some(Ready)"@,
        Some(RepositoryPhase::Failed) => "Some(Failed)"@,
        None => "None"@,
    }
}

fn phase_name(phase: Option<RepositoryPhase>) -> (res: String)
    ensures
        res@ == phase_text(phase),
{
    match phase {
        Some(RepositoryPhase::Pending) => String::from_str("Some(Pending)"),
        Some(RepositoryPhase::Ready) => String::from_str("Some(Ready)"),
        Some(RepositoryPhase::Failed) => String::from_str("Some(Failed)"),
        None => String::from_str("None"),
    }
}

/// The text for a store that could not be opened.
pub open spec fn store_fault_text(backend: RepositoryBackend, fault: StoreFault) -> Seq<char> {
    match fault {
        StoreFault::Credentials(e) => e@,
        StoreFault::Backend(e) => match backend {
            RepositoryBackend::Local { .. } => "failed to open local repository: "@ + e@,
            RepositoryBackend::S3 { .. } => "failed to build S3 client: "@ + e@,
        },
    }
}

/// What is said of a store that could not be opened.
pub fn store_fault_message(backend: &RepositoryBackend, fault: StoreFault) -> (res: String)
    ensures
        res@ == store_fault_text(*backend, fault),
{
    match fault {
        StoreFault::Credentials(e) => e,
        StoreFault::Backend(e) => match backend {
            RepositoryBackend::Local { .. } => String::from_str(
                "failed to open local repository: ",
            ).concat(e.as_str()),
            RepositoryBackend::S3 { .. } => String::from_str("failed to build S3 client: ").concat(
                e.as_str(),
            ),
        },
    }
}

/// What opening does on each event: only a ready repository is opened, and one with encryption
/// only with its key.
pub open spec fn opens(
    repo_ref: Seq<char>,
    ns: Seq<char>,
    event: OpenEvent,
    action: OpenAction,
) -> bool {
    match event {
        OpenEvent::Fetched(Err(e)) => action matches OpenAction::Fail(m) && m@
            == missing_repository_text(repo_ref, ns, e@),
        OpenEvent::Fetched(Ok(repo)) => if repository_phase(repo) == Some(RepositoryPhase::Ready) {
            action == OpenAction::OpenStore(repo)
        } else {
            action matches OpenAction::Fail(m) && m@ == "repository '"@ + repo_ref
                + "' is not Ready (phase="@ + phase_text(repository_phase(repo)) + ")"@
        },
        OpenEvent::Store(repo, Err(fault)) => action matches OpenAction::Fail(m) && m@
            == store_fault_text(repo.spec.backend, fault),
        OpenEvent::Store(repo, Ok(_)) => if !repo.spec.encryption_enabled {
            action matches OpenAction::Done(o) && o.store == repo.spec.backend
                && o.encryption_key is None
        } else {
            match repo.spec.encryption_secret_ref {
                Some(name) => action == OpenAction::FetchSecret(repo.spec.backend, name),
                None => action matches OpenAction::Fail(m) && m@ == "repository '"@ + repo_ref
                    + "' has encryptionEnabled but no encryptionSecretRef"@,
            }
        },
        OpenEvent::Secret(_, name, Err(e)) => action matches OpenAction::Fail(m) && m@
            == missing_secret_text(name@, ns, e@),
        OpenEvent::Secret(backend, name, Ok(secret)) => match action {
            OpenAction::Done(o) => o.store == backend && o.encryption_key is Some && loads_key(
                name@,
                secret,
                Ok(o.encryption_key->0),
            ),
            OpenAction::Fail(m) => loads_key(name@, secret, Err(m)),
            _ => false,
        },
    }
}

/// Opens the repository `repo_ref` of namespace `ns`, step by step.
pub fn open_repository(repo_ref: &str, ns: &str, event: OpenEvent) -> (res: OpenAction)
    ensures
        opens(repo_ref@, ns@, event, res),
{
    match event {
        OpenEvent::Fetched(Err(e)) => OpenAction::Fail(
            missing_repository(repo_ref, ns, e.as_str()),
        ),
        OpenEvent::Fetched(Ok(repo)) => {
            let phase: Option<RepositoryPhase> = match &repo.status {
                Some(s) => s.phase,
                None => None,
            };
            match phase {
                Some(RepositoryPhase::Ready) => OpenAction::OpenStore(repo),
                _ => OpenAction::Fail(
                    String::from_str("repository '").concat(repo_ref).concat(
                        "' is not Ready (phase=",
                    ).concat(phase_name(phase).as_str()).concat(")"),
                ),
            }
        },
        OpenEvent::Store(repo, Err(fault)) => OpenAction::Fail(
            store_fault_message(&repo.spec.backend, fault),
        ),
        OpenEvent::Store(repo, Ok(_)) => {
            if !repo.spec.encryption_enabled {
                OpenAction::Done(
                    OpenedRepository { store: repo.spec.backend, encryption_key: None },
                )
            } else {
                match repo.spec.encryption_secret_ref {
                    Some(name) => OpenAction::FetchSecret(repo.spec.backend, name),
                    None => OpenAction::Fail(
                        String::from_str("repository '").concat(repo_ref).concat(
                            "' has encryptionEnabled but no encryptionSecretRef",
                        ),
                    ),
                }
            }
        },
        OpenEvent::Secret(backend, name, fetched) => match load_encryption_key(
            ns,
            name.as_str(),
            fetched,
        ) {
            Ok(k) => OpenAction::Done(OpenedRepository { store: backend, encryption_key: Some(k) }),
            Err(m) => OpenAction::Fail(m),
        },
    }
}

/// An opened repository has a key exactly when encryption was asked for: opening ends without a
/// key only where the spec does not ask for encryption, and a secret always gives one.
pub proof fn law_encrypted_repository_opens_with_key(
    repo_ref: Seq<char>,
    ns: Seq<char>,
    event: OpenEvent,
    opened: OpenedRepository,
)
    requires
        opens(repo_ref, ns, event, OpenAction::Done(opened)),
    ensures
        match event {
            OpenEvent::Fetched(_) => false,
            OpenEvent::Store(repo, _) => !repo.spec.encryption_enabled && opened.store
                == repo.spec.backend && opened.encryption_key is None,
            OpenEvent::Secret(backend, _, _) => opened.store == backend
                && opened.encryption_key is Some,
        },
{
}

/// A repository is opened exactly where it is ready.
pub proof fn law_only_ready_repositories_are_opened(
    repo_ref: Seq<char>,
    ns: Seq<char>,
    repo: ProteusRepository,
    action: OpenAction,
)
    requires
        opens(repo_ref, ns, OpenEvent::Fetched(Ok(repo)), action),
    ensures
        action is OpenStore <==> (repo.status matches Some(s) && s.phase == Some(
            RepositoryPhase::Ready,
        )),
        action matches OpenAction::OpenStore(r) ==> r == repo,
        action is OpenStore || action is Fail,
{
}

/// Once its store is open, a repository without encryption is open, and one with encryption waits
/// for the secret that it names; it is never open without a key.
pub proof fn law_encryption_needs_its_secret(
    repo_ref: Seq<char>,
    ns: Seq<char>,
    repo: ProteusRepository,
    action: OpenAction,
)
    requires
        opens(repo_ref, ns, OpenEvent::Store(repo, Ok(())), action),
    ensures
        !repo.spec.encryption_enabled ==> (action matches OpenAction::Done(o)
            && o.encryption_key is None && o.store == repo.spec.backend),
        repo.spec.encryption_enabled ==> (match repo.spec.encryption_secret_ref {
            Some(name) => action matches OpenAction::FetchSecret(backend, n) && n@ == name@
                && backend == repo.spec.backend,
            None => action is Fail,
        }),
{
}

/// What could not be had fails the opening: the repository, its store or its secret.
pub proof fn law_failed_lookups_fail_the_opening(
    repo_ref: Seq<char>,
    ns: Seq<char>,
    event: OpenEvent,
    action: OpenAction,
)
    requires
        opens(repo_ref, ns, event, action),
        (event matches OpenEvent::Fetched(Err(_))) || (event matches OpenEvent::Store(_, Err(_)))
            || (event matches OpenEvent::Secret(_, _, Err(_))),
    ensures
        action is Fail,
{
}

/// A secret gives a key exactly where it holds thirty-two bytes, or thirty-two bytes in base64; the
/// key is those bytes, and bytes that are a key as they are are never read as base64.
pub proof fn law_keys_are_thirty_two_bytes(stored: Seq<u8>, decoded: Option<Seq<u8>>)
    ensures
        key_value(stored, decoded) is Some <==> stored.len() == 32 || (decoded matches Some(b)
            && b.len() == 32),
        stored.len() == 32 ==> key_value(stored, decoded) == Some(stored),
        stored.len() != 32 && decoded is Some && decoded->0.len() == 32 ==> key_value(
            stored,
            decoded,
        ) == decoded,
        key_value(stored, decoded) matches Some(k) ==> k.len() == 32,
{
}

/// A secret that was fetched opens the repository with the key that its entry holds: the entry
/// `encryptionKey`, else `ENCRYPTION_KEY`. Without a usable entry the repository is not opened.
pub proof fn law_secret_gives_the_key(
    repo_ref: Seq<char>,
    ns: Seq<char>,
    backend: RepositoryBackend,
    name: String,
    secret: SecretData,
    action: OpenAction,
)
    requires
        opens(repo_ref, ns, OpenEvent::Secret(backend, name, Ok(secret)), action),
    ensures
        ({
            let first = fetched_entry(secret, "encryptionKey"@);
            let stored = if first is Some {
                first
            } else {
                fetched_entry(secret, "ENCRYPTION_KEY"@)
            };
            let key = match stored {
                Some(s) => key_value(s, base64_bytes(s)),
                None => None,
            };
            &&& action is Done <==> key is Some
            &&& action matches OpenAction::Done(o) ==> o.encryption_key matches Some(k) && k@
                == key->0 && o.store == backend
            &&& action is Done || action is Fail
        }),
{
}

/// What a secret holds under a key: the text under it where there is one, else the data; of two
/// entries under one key the first.
pub proof fn law_secret_texts_come_first(
    data: Seq<(String, Vec<u8>)>,
    texts: Seq<(String, String)>,
    key: Seq<char>,
    i: int,
)
    ensures
        0 <= i < texts.len() && texts[i].0@ == key && (forall|j: int|
            0 <= j < i ==> (#[trigger] texts[j]).0@ != key) ==> secret_entry(
            Some(data),
            Some(texts),
            key,
        ) == Some(encode_utf8(texts[i].1@)),
        (forall|j: int| 0 <= j < texts.len() ==> (#[trigger] texts[j]).0@ != key) && 0 <= i
            < data.len() && data[i].0@ == key && (forall|j: int|
            0 <= j < i ==> (#[trigger] data[j]).0@ != key) ==> secret_entry(
            Some(data),
            Some(texts),
            key,
        ) == Some(data[i].1@),
        (forall|j: int| 0 <= j < texts.len() ==> (#[trigger] texts[j]).0@ != key) && (forall|j: int|
            0 <= j < data.len() ==> (#[trigger] data[j]).0@ != key) ==> secret_entry(
            Some(data),
            Some(texts),
            key,
        ) is None,
        secret_entry(None, None, key) is None,
{
    let t = text_pairs(texts);
    let d = raw_pairs(data);
    lemma_entry_absent(t, key);
    lemma_entry_absent(d, key);
    if 0 <= i < texts.len() && texts[i].0@ == key && (forall|j: int|
        0 <= j < i ==> (#[trigger] texts[j]).0@ != key) {
        assert forall|j: int| 0 <= j < i implies (#[trigger] t[j]).0 != key by {
            assert(texts[j].0@ != key);
        }
        lemma_entry_first(t, key, i);
    }
    if forall|j: int| 0 <= j < texts.len() ==> (#[trigger] texts[j]).0@ != key {
        assert forall|j: int| 0 <= j < t.len() implies (#[trigger] t[j]).0 != key by {
            assert(texts[j].0@ != key);
        }
        if 0 <= i < data.len() && data[i].0@ == key && (forall|j: int|
            0 <= j < i ==> (#[trigger] data[j]).0@ != key) {
            assert forall|j: int| 0 <= j < i implies (#[trigger] d[j]).0 != key by {
                assert(data[j].0@ != key);
            }
            lemma_entry_first(d, key, i);
        }
        if forall|j: int| 0 <= j < data.len() ==> (#[trigger] data[j]).0@ != key {
            assert forall|j: int| 0 <= j < d.len() implies (#[trigger] d[j]).0 != key by {
                assert(data[j].0@ != key);
            }
        }
    }
}

proof fn lemma_entry_first(pairs: Seq<(Seq<char>, Seq<u8>)>, key: Seq<char>, i: int)
    requires
        0 <= i < pairs.len(),
        pairs[i].0 == key,
        forall|j: int| 0 <= j < i ==> (#[trigger] pairs[j]).0 != key,
    ensures
        entry(pairs, key) == Some(pairs[i].1),
    decreases pairs.len(),
{
    let init = pairs.drop_last();
    if i < pairs.len() - 1 {
        assert forall|j: int| 0 <= j < i implies (#[trigger] init[j]).0 != key by {
            assert(init[j] == pairs[j]);
        }
        lemma_entry_first(init, key, i);
    } else {
        lemma_entry_absent(init, key);
        assert forall|j: int| 0 <= j < init.len() implies (#[trigger] init[j]).0 != key by {
            assert(init[j] == pairs[j]);
        }
    }
}

/// A directory is the controller's alone; a bucket is reached from everywhere.
pub proof fn law_only_directories_are_local(backend: RepositoryBackend)
    ensures
        kind_of(backend) == RepositoryKind::Local <==> backend is Local,
        kind_of(backend) == RepositoryKind::Remote <==> backend is S3,
{
}

/// A repository is looked for in the namespace that is named, else in the default one.
pub proof fn law_repository_is_looked_for_where_named(named: Seq<char>, default: Seq<char>)
    ensures
        repository_namespace_of(Some(named), default) == named,
        repository_namespace_of(None, default) == default,
{
}

/// What could not be had is named, with the reason behind it: the repository, or its secret.
pub proof fn law_missing_objects_are_named(name: Seq<char>, ns: Seq<char>, err: Seq<char>)
    ensures
        ("repository '"@ + name + "'"@).is_prefix_of(missing_repository_text(name, ns, err)),
        err.is_suffix_of(missing_repository_text(name, ns, err)),
        ("encryption Secret '"@ + name + "'"@).is_prefix_of(missing_secret_text(name, ns, err)),
        err.is_suffix_of(missing_secret_text(name, ns, err)),
        ("encryption Secret '"@ + name + "'"@).is_prefix_of(invalid_secret_text(name, err)),
{
    reveal_strlit("'");
    reveal_strlit("' not found in namespace '");
    reveal_strlit("' is invalid: ");
    let r = missing_repository_text(name, ns, err);
    let head = "repository '"@ + name + "'"@;
    assert(r.subrange(0, head.len() as int) =~= head);
    assert(r.subrange(r.len() - err.len(), r.len() as int) =~= err);
    let s = missing_secret_text(name, ns, err);
    let first = "encryption Secret '"@ + name + "'"@;
    assert(s.subrange(0, first.len() as int) =~= first);
    assert(s.subrange(s.len() - err.len(), s.len() as int) =~= err);
    let i = invalid_secret_text(name, err);
    assert(i.subrange(0, first.len() as int) =~= first);
}

/// A store that could not be opened says why; credentials that could not be had speak for
/// themselves.
pub proof fn law_store_faults_say_why(backend: RepositoryBackend, e: String)
    ensures
        store_fault_text(backend, StoreFault::Credentials(e)) == e@,
        e@.is_suffix_of(store_fault_text(backend, StoreFault::Backend(e))),
        store_fault_text(backend, StoreFault::Backend(e)) == (if backend is Local {
            "failed to open local repository: "@ + e@
        } else {
            "failed to build S3 client: "@ + e@
        }),
{
    let t = store_fault_text(backend, StoreFault::Backend(e));
    assert(t.subrange(t.len() - e@.len(), t.len() as int) =~= e@);
}

/// The entry `encryptionKey` comes before `ENCRYPTION_KEY`, and without either there is no key.
pub proof fn law_key_entries_have_an_order(pairs: Seq<(Seq<char>, Seq<u8>)>)
    ensures
        entry(pairs, "encryptionKey"@) is Some ==> stored_key(pairs) == entry(
            pairs,
            "encryptionKey"@,
        ),
        entry(pairs, "encryptionKey"@) is None ==> stored_key(pairs) == entry(
            pairs,
            "ENCRYPTION_KEY"@,
        ),
{
}

} // verus!
