//! What the console sends to the API and how it reads the answers.
use crate::text::{
    decimal, decimal_text, is_white_space, join, joined, opt_view, same_text, str_view, trim_start,
};
use vstd::prelude::*;
use vstd::utf8::encode_utf8;

verus! {

/// How many objects of each kind the cluster holds.
#[derive(Debug, Clone, PartialEq, Eq)]
pub struct ClusterSnapshot {
    pub version: String,
    pub repositories: u64,
    pub backups: u64,
    pub restores: u64,
    pub last_reconcile_at: Option<String>,
}

/// A repository as it is listed.
#[derive(Debug, Clone, PartialEq, Eq)]
pub struct RepositoryListItem {
    pub name: String,
    pub namespace: String,
    pub phase: Option<String>,
    pub backend: Option<String>,
    pub message: Option<String>,
}

/// A repository to create.
#[derive(Debug, Clone, PartialEq, Eq)]
pub struct CreateRepositoryRequest {
    pub name: String,
    pub namespace: String,
    pub description: Option<String>,
    pub encryption_enabled: bool,
    pub backend: CreateRepositoryBackend,
}

/// Where a new repository keeps its objects.
#[derive(Debug, Clone, PartialEq, Eq)]
pub enum CreateRepositoryBackend {
    Local { path: String },
    S3 {
        bucket: String,
        prefix: Option<String>,
        endpoint: Option<String>,
        region: Option<String>,
        /// An existing secret, instead of the two keys.
        credentials_secret_ref: Option<String>,
        access_key_id: Option<String>,
        secret_access_key: Option<String>,
        force_path_style: bool,
    },
}

/// A policy as it is listed.
#[derive(Debug, Clone, PartialEq, Eq)]
pub struct BackupPolicyListItem {
    pub name: String,
    pub namespace: String,
    pub repository_ref: String,
    pub repository_namespace: Option<String>,
    pub target_namespace: String,
    pub pvc_names: Vec<String>,
    pub schedule: Option<String>,
    pub paused: bool,
    pub keep_last: u32,
    pub max_age_days: Option<u32>,
    pub phase: Option<String>,
    pub message: Option<String>,
    pub next_run_at: Option<String>,
}

/// A policy to create.
#[derive(Debug, Clone, PartialEq, Eq)]
pub struct CreateBackupPolicyRequest {
    pub name: String,
    pub namespace: String,
    pub repository_ref: String,
    pub repository_namespace: Option<String>,
    pub target_namespace: String,
    pub pvc_names: Vec<String>,
    pub schedule: Option<String>,
    pub paused: Option<bool>,
    pub keep_last: Option<u32>,
}

/// What to change in a policy.
#[derive(Debug, Clone, PartialEq, Eq)]
pub struct PatchBackupPolicyRequest {
    pub schedule: Option<String>,
    pub paused: Option<bool>,
    pub keep_last: Option<u32>,
}

/// A backup run as it is listed.
#[derive(Debug, Clone, PartialEq, Eq)]
pub struct BackupListItem {
    pub name: String,
    pub namespace: String,
    pub policy_ref: Option<String>,
    pub repository_ref: String,
    pub target_namespace: String,
    pub pvc_names: Vec<String>,
    pub schedule: Option<String>,
    pub phase: Option<String>,
    pub message: Option<String>,
    pub last_snapshot_id: Option<String>,
    pub progress_percent: Option<u8>,
    pub duration_seconds: Option<u64>,
    pub throughput_bytes_per_sec: Option<u64>,
    pub started_at: Option<String>,
    pub created_at: Option<String>,
    pub data_plane: Option<String>,
    pub assigned_node: Option<String>,
}

/// A run of a policy to create.
#[derive(Debug, Clone, PartialEq, Eq)]
pub struct CreateBackupRequest {
    pub name: Option<String>,
    pub namespace: Option<String>,
    pub policy_ref: String,
    pub policy_namespace: String,
}

/// A restore as it is listed.
#[derive(Debug, Clone, PartialEq, Eq)]
pub struct RestoreListItem {
    pub name: String,
    pub namespace: String,
    pub backup_ref: String,
    pub target_namespace: String,
    pub phase: Option<String>,
    pub message: Option<String>,
    pub restored_snapshot_id: Option<String>,
    pub data_plane: Option<String>,
    pub assigned_node: Option<String>,
}

/// A restore to create.
#[derive(Debug, Clone, PartialEq, Eq)]
pub struct CreateRestoreRequest {
    pub name: String,
    pub namespace: String,
    pub backup_ref: String,
    pub backup_namespace: Option<String>,
    pub snapshot_id: Option<String>,
    pub target_namespace: String,
    pub overwrite: bool,
}

/// An object of the cluster.
#[derive(Debug, Clone, PartialEq, Eq)]
pub struct InventoryItem {
    pub kind: String,
    pub name: String,
    pub namespace: String,
    pub extra: Option<String>,
}

/// A namespace of the cluster.
#[derive(Debug, Clone, PartialEq, Eq)]
pub struct NamespaceItem {
    pub name: String,
}

/// Why a call of the API failed.
#[derive(Debug, Clone, PartialEq, Eq)]
pub struct ApiClientError {
    pub message: String,
}

/// The URL of an API path: behind `base` where one is set, else on the page's own host.
pub fn api_url(base: &str, path: &str) -> (res: String)
    ensures
        res@ == base@ + path@,
{
    let res = String::from_str(base).concat(path);
    res
}

/// Whether an HTTP status says that the call was carried out.
pub open spec fn succeeded(status: u16) -> bool {
    200 <= status < 300
}

/// The text under a field of a JSON object; `None` where the text is no JSON object or the field
/// no text.
pub uninterp spec fn json_text(body: Seq<char>, field: Seq<char>) -> Option<Seq<char>>;

/// `serde_json::from_str` into a `Value`, then `Value::get` and `Value::as_str`: a function of the
/// body and the field.
#[verifier::external_body]
fn json_text_field(body: &str, field: &str) -> (res: Option<String>)
    ensures
        opt_view(res) == json_text(body@, field@),
{
    let value = serde_json::from_str::<serde_json::Value>(body).ok()?;
    let text = value.get(field)?.as_str()?;
    Some(text.to_owned())
}

/// The message of a failed call: its status with the error that the body names, else with the body.
pub open spec fn failure_text(status: u16, body: Seq<char>, error: Option<Seq<char>>) -> Seq<char> {
    let head = "HTTP "@ + decimal(status as nat);
    match error {
        Some(e) => head + ": "@ + e,
        None => if body.len() == 0 {
            head
        } else {
            head + ": "@ + body
        },
    }
}

/// The message of a failed call, given the error that its body names.
pub fn failure_message(status: u16, body: &str, error: Option<String>) -> (res: String)
    ensures
        res@ == failure_text(status, body@, opt_view(error)),
{
    let head = String::from_str("HTTP ").concat(decimal_text(status as u64).as_str());
    match error {
        Some(e) => head.concat(": ").concat(e.as_str()),
        None => {
            proof {
                lemma_empty_text(body@);
            }
            if same_text(body, "") {
                head
            } else {
                head.concat(": ").concat(body)
            }
        },
    }
}

proof fn lemma_empty_text(s: Seq<char>)
    ensures
        s.len() == 0 <==> s == ""@,
{
    reveal_strlit("");
    if s.len() == 0 {
        assert(s =~= ""@);
    }
}

/// The message of a failed call.
pub fn read_error_body(status: u16, body: &str) -> (res: String)
    ensures
        res@ == failure_text(status, body@, json_text(body@, "error"@)),
{
    let error = json_text_field(body, "error");
    failure_message(status, body, error)
}

/// The message for an answer that is a web page.
pub const HTML_ANSWER: &'static str =
    "API returned HTML instead of JSON — start the controller (`just run`) or use `just ui` (port 5173) against an API on :8080";

/// Whether a text begins as a web page does.
pub open spec fn is_html(body: Seq<char>) -> bool {
    let t = trim_start(body);
    t.len() > 0 && t[0] == '<'
}

fn looks_like_html(body: &str) -> (res: bool)
    ensures
        res == is_html(body@),
{
    let ghost all = body@;
    assert(all.skip(0) =~= all);
    for c in it: body.chars()
        invariant
            all == body@,
            it.seq() == all,
            trim_start(all) == trim_start(all.skip(it.index() as int)),
    {
        let ghost rest = all.skip(it.index() as int);
        proof {
            assert(rest[0] == c);
            assert(rest.skip(1) =~= all.skip(it.index() + 1));
        }
        if !is_white_space(c) {
            assert(trim_start(rest) == rest);
            return c == '<';
        }
    }
    assert(all.skip(all.len() as int) =~= seq![]);
    false
}

/// What came back for a call: its status and its body, or why the body could not be read.
pub struct Answer {
    pub status: u16,
    pub body: Result<String, String>,
}

impl Answer {
    /// The message of an answer that is a failure.
    pub open spec fn failure(&self) -> Seq<char> {
        let body = match self.body {
            Ok(b) => b@,
            Err(_) => ""@,
        };
        failure_text(self.status, body, json_text(body, "error"@))
    }
}

/// The JSON text of an answer, or why there is none.
pub open spec fn reads_json(
    answer: Answer,
    refuse_html: bool,
    res: Result<String, ApiClientError>,
) -> bool {
    if !succeeded(answer.status) {
        res matches Err(e) && e.message@ == answer.failure()
    } else {
        match answer.body {
            Err(err) => res matches Err(e) && e.message@ == "failed to read body: "@ + err@,
            Ok(body) => if refuse_html && is_html(body@) {
                res matches Err(e) && e.message@ == HTML_ANSWER@
            } else {
                res == Ok::<String, ApiClientError>(body)
            },
        }
    }
}

fn failed(answer: Answer) -> (res: ApiClientError)
    ensures
        res.message@ == answer.failure(),
{
    match answer.body {
        Ok(body) => ApiClientError { message: read_error_body(answer.status, body.as_str()) },
        Err(_) => ApiClientError { message: read_error_body(answer.status, "") },
    }
}

/// The JSON text of an answer to a read, which must not be a web page.
pub fn get_json(answer: Answer) -> (res: Result<String, ApiClientError>)
    ensures
        reads_json(answer, true, res),
{
    if !(200 <= answer.status && answer.status < 300) {
        return Err(failed(answer));
    }
    match answer.body {
        Ok(body) => {
            if looks_like_html(body.as_str()) {
                Err(ApiClientError { message: HTML_ANSWER.to_owned() })
            } else {
                Ok(body)
            }
        },
        Err(err) => Err(
            ApiClientError {
                message: String::from_str("failed to read body: ").concat(err.as_str()),
            },
        ),
    }
}

/// The JSON text of an answer to a write.
pub fn send_json(answer: Answer) -> (res: Result<String, ApiClientError>)
    ensures
        reads_json(answer, false, res),
{
    if !(200 <= answer.status && answer.status < 300) {
        return Err(failed(answer));
    }
    match answer.body {
        Ok(body) => Ok(body),
        Err(err) => Err(
            ApiClientError {
                message: String::from_str("failed to read body: ").concat(err.as_str()),
            },
        ),
    }
}

/// Whether a call without an answer of its own was carried out.
pub fn send_empty(answer: Answer) -> (res: Result<(), ApiClientError>)
    ensures
        match res {
            Ok(_) => succeeded(answer.status),
            Err(e) => !succeeded(answer.status) && e.message@ == answer.failure(),
        },
{
    if !(200 <= answer.status && answer.status < 300) {
        return Err(failed(answer));
    }
    Ok(())
}

/// The methods of calls to the API that change something.
#[derive(Debug, Clone, Copy, PartialEq, Eq, Structural)]
pub enum WriteMethod {
    Post,
    Patch,
    Delete,
}

/// Whether `res` refuses a method by its name.
pub open spec fn refuses_method(res: Result<WriteMethod, ApiClientError>, method: Seq<char>) -> bool {
    res matches Err(e) && e.message@ == "unsupported method "@ + method
}

/// The method of a call with a body.
pub fn body_method(method: &str) -> (res: Result<WriteMethod, ApiClientError>)
    ensures
        if method@ == "POST"@ {
            res == Ok::<WriteMethod, ApiClientError>(WriteMethod::Post)
        } else if method@ == "PATCH"@ {
            res == Ok::<WriteMethod, ApiClientError>(WriteMethod::Patch)
        } else {
            refuses_method(res, method@)
        },
{
    if same_text(method, "POST") {
        Ok(WriteMethod::Post)
    } else if same_text(method, "PATCH") {
        Ok(WriteMethod::Patch)
    } else {
        Err(ApiClientError { message: String::from_str("unsupported method ").concat(method) })
    }
}

/// The method of a call without a body.
pub fn empty_method(method: &str) -> (res: Result<WriteMethod, ApiClientError>)
    ensures
        if method@ == "DELETE"@ {
            res == Ok::<WriteMethod, ApiClientError>(WriteMethod::Delete)
        } else {
            refuses_method(res, method@)
        },
{
    if same_text(method, "DELETE") {
        Ok(WriteMethod::Delete)
    } else {
        Err(ApiClientError { message: String::from_str("unsupported method ").concat(method) })
    }
}

/// Whether a byte stands for itself in a URL.
pub open spec fn is_plain(b: u8) -> bool {
    ||| 65 <= b <= 90
    ||| 97 <= b <= 122
    ||| 48 <= b <= 57
    ||| b == 45
    ||| b == 95
    ||| b == 46
    ||| b == 126
}

/// A digit of base sixteen, in upper case.
pub open spec fn hex_upper(d: u8) -> char {
    if d < 10 {
        (48 + d) as char
    } else {
        (55 + d) as char
    }
}

/// A byte as it stands in a URL.
pub open spec fn url_byte(b: u8) -> Seq<char> {
    if is_plain(b) {
        seq![b as char]
    } else {
        seq!['%', hex_upper(b / 16), hex_upper(b % 16)]
    }
}

/// Bytes as they stand in a URL.
pub open spec fn url_bytes(bytes: Seq<u8>) -> Seq<char>
    decreases bytes.len(),
{
    if bytes.len() == 0 {
        seq![]
    } else {
        url_bytes(bytes.drop_last()) + url_byte(bytes.last())
    }
}

/// A text as it stands in a URL.
pub open spec fn url_text(value: Seq<char>) -> Seq<char> {
    url_bytes(encode_utf8(value))
}

fn hex_digit(d: u8) -> (res: char)
    requires
        d < 16,
    ensures
        res == hex_upper(d),
{
    if d < 10 {
        (48 + d) as char
    } else {
        (55 + d) as char
    }
}

/// A text as it stands in a URL: letters, digits and `-_.~` as they are, every other byte as `%`
/// and two digits.
pub fn urlencoding_lite(value: &str) -> (res: String)
    ensures
        res@ == url_text(value@),
{
    let bytes = value.as_bytes();
    let mut out = String::new();
    let mut i: usize = 0;
    assert(bytes@.take(0) =~= seq![]);
    while i < bytes.len()
        invariant
            i <= bytes@.len(),
            out@ == url_bytes(bytes@.take(i as int)),
        decreases bytes@.len() - i,
    {
        let ghost before = out@;
        proof {
            assert(bytes@.take(i + 1).drop_last() =~= bytes@.take(i as int));
            assert(bytes@.take(i + 1).last() == bytes@[i as int]);
        }
        let b: u8 = bytes[i];
        if (b >= 65 && b <= 90) || (b >= 97 && b <= 122) || (b >= 48 && b <= 57) || b == 45 || b
            == 95 || b == 46 || b == 126 {
            out.push(b as char);
            assert(out@ =~= before + url_byte(b));
        } else {
            out.push('%');
            out.push(hex_digit(b / 16));
            out.push(hex_digit(b % 16));
            assert(out@ =~= before + url_byte(b));
        }
        i += 1;
    }
    assert(bytes@.take(i as int) =~= bytes@);
    out
}

/// The value of a digit of base sixteen, in upper case.
pub open spec fn hex_digit_value(c: char) -> int {
    if '0' <= c <= '9' {
        c as int - 48
    } else {
        c as int - 55
    }
}

/// The bytes that a text in a URL stands for, read from its end.
pub open spec fn url_decoded(s: Seq<char>) -> Seq<u8>
    decreases s.len(),
{
    if s.len() == 0 {
        seq![]
    } else if s.len() >= 3 && s[s.len() - 3] == '%' {
        url_decoded(s.take(s.len() - 3)).push(
            (16 * hex_digit_value(s[s.len() - 2]) + hex_digit_value(s[s.len() - 1])) as u8,
        )
    } else {
        url_decoded(s.drop_last()).push(s.last() as u8)
    }
}

proof fn lemma_url_byte(b: u8)
    ensures
        is_plain(b) ==> (b as char) != '%' && (b as char) as u8 == b,
        16 * hex_digit_value(hex_upper(b / 16)) + hex_digit_value(hex_upper(b % 16)) == b,
        forall|i: int| 0 <= i < url_byte(b).len() ==> #[trigger] url_byte(b)[i] != '/',
{
    let hi = b / 16;
    let lo = b % 16;
    assert(hi < 16 && lo < 16 && 16 * hi + lo == b);
}

proof fn lemma_url_tail(bytes: Seq<u8>)
    ensures
        ({
            let s = url_bytes(bytes);
            &&& bytes.len() > 0 ==> s.len() > 0
            &&& s.len() >= 1 ==> s[s.len() - 1] != '%'
            &&& s.len() >= 2 ==> s[s.len() - 2] != '%'
        }),
    decreases bytes.len(),
{
    if bytes.len() > 0 {
        lemma_url_tail(bytes.drop_last());
        lemma_url_byte(bytes.last());
        let b = bytes.last();
        assert(b / 16 < 16 && b % 16 < 16);
    }
}

/// What stands in a URL is read back as the bytes of the text.
pub proof fn law_url_encoding_is_reversible(bytes: Seq<u8>)
    ensures
        url_decoded(url_bytes(bytes)) == bytes,
    decreases bytes.len(),
{
    if bytes.len() > 0 {
        let front = bytes.drop_last();
        let b = bytes.last();
        let s = url_bytes(bytes);
        law_url_encoding_is_reversible(front);
        lemma_url_tail(front);
        lemma_url_byte(b);
        assert(front.push(b) =~= bytes);
        if is_plain(b) {
            assert(s.drop_last() =~= url_bytes(front));
        } else {
            assert(s.take(s.len() - 3) =~= url_bytes(front));
        }
    }
}

/// Whether a character stands for itself in a URL: a letter, a digit or one of `-_.~`.
pub open spec fn is_plain_char(c: char) -> bool {
    ||| 'A' <= c <= 'Z'
    ||| 'a' <= c <= 'z'
    ||| '0' <= c <= '9'
    ||| c == '-'
    ||| c == '_'
    ||| c == '.'
    ||| c == '~'
}

/// Whether a character is a digit of base sixteen, in upper case.
pub open spec fn is_upper_hex(c: char) -> bool {
    '0' <= c <= '9' || 'A' <= c <= 'F'
}

/// Whether a text consists of plain characters and groups of `%` and two digits, read from its
/// end.
pub open spec fn is_url_text(s: Seq<char>) -> bool
    decreases s.len(),
{
    if s.len() == 0 {
        true
    } else if s.len() >= 3 && s[s.len() - 3] == '%' {
        &&& is_upper_hex(s[s.len() - 2])
        &&& is_upper_hex(s[s.len() - 1])
        &&& is_url_text(s.take(s.len() - 3))
    } else {
        is_plain_char(s.last()) && is_url_text(s.drop_last())
    }
}

proof fn lemma_url_bytes_form(bytes: Seq<u8>)
    ensures
        is_url_text(url_bytes(bytes)),
        forall|i: int|
            0 <= i < url_bytes(bytes).len() ==> is_plain_char(#[trigger] url_bytes(bytes)[i])
                || url_bytes(bytes)[i] == '%',
    decreases bytes.len(),
{
    if bytes.len() > 0 {
        let front = url_bytes(bytes.drop_last());
        let b = bytes.last();
        let s = url_bytes(bytes);
        lemma_url_bytes_form(bytes.drop_last());
        lemma_url_tail(bytes.drop_last());
        lemma_url_byte(b);
        assert(b / 16 < 16 && b % 16 < 16);
        assert forall|i: int| 0 <= i < s.len() implies is_plain_char(#[trigger] s[i]) || s[i]
            == '%' by {
            if i < front.len() {
                assert(s[i] == front[i]);
            } else {
                assert(s[i] == url_byte(b)[i - front.len()]);
            }
        }
        if is_plain(b) {
            assert(s.drop_last() =~= front);
        } else {
            assert(s.take(s.len() - 3) =~= front);
        }
    }
}

/// What stands in a URL holds only letters, digits, `-_.~` and groups of `%` and two upper-case
/// digits of base sixteen.
pub proof fn law_url_text_is_well_formed(value: Seq<char>)
    ensures
        is_url_text(url_text(value)),
        forall|i: int|
            0 <= i < url_text(value).len() ==> is_plain_char(#[trigger] url_text(value)[i])
                || url_text(value)[i] == '%',
{
    lemma_url_bytes_form(encode_utf8(value));
}

/// Different texts stand differently in a URL.
pub proof fn law_url_texts_are_distinct(a: Seq<char>, b: Seq<char>)
    requires
        url_text(a) == url_text(b),
    ensures
        a == b,
{
    law_url_encoding_is_reversible(encode_utf8(a));
    law_url_encoding_is_reversible(encode_utf8(b));
    vstd::utf8::encode_utf8_decode_utf8(a);
    vstd::utf8::encode_utf8_decode_utf8(b);
}

proof fn lemma_plain_bytes(bytes: Seq<u8>)
    requires
        forall|i: int| 0 <= i < bytes.len() ==> is_plain(#[trigger] bytes[i]),
    ensures
        url_bytes(bytes) == bytes.map_values(|b: u8| b as char),
    decreases bytes.len(),
{
    if bytes.len() > 0 {
        lemma_plain_bytes(bytes.drop_last());
        assert(url_bytes(bytes) =~= bytes.map_values(|b: u8| b as char));
    } else {
        assert(url_bytes(bytes) =~= bytes.map_values(|b: u8| b as char));
    }
}

/// A text of plain characters stands for itself.
pub proof fn law_plain_text_stands_for_itself(value: Seq<char>)
    requires
        forall|i: int| 0 <= i < value.len() ==> is_plain_char(#[trigger] value[i]),
    ensures
        url_text(value) == value,
{
    let bytes = encode_utf8(value);
    assert(vstd::utf8::is_ascii_chars(value));
    vstd::utf8::is_ascii_chars_encode_utf8(value);
    assert forall|i: int| 0 <= i < bytes.len() implies is_plain(#[trigger] bytes[i]) by {
        assert(is_plain_char(value[i]));
    }
    lemma_plain_bytes(bytes);
    assert forall|i: int| 0 <= i < value.len() implies bytes.map_values(|b: u8| b as char)[i]
        == #[trigger] value[i] by {
        assert(value[i] as u8 == bytes[i]);
        assert(is_plain_char(value[i]));
    }
    assert(url_text(value) =~= value);
}

proof fn lemma_url_has_no_slash(bytes: Seq<u8>)
    ensures
        forall|i: int| 0 <= i < url_bytes(bytes).len() ==> #[trigger] url_bytes(bytes)[i] != '/',
    decreases bytes.len(),
{
    if bytes.len() > 0 {
        let front = url_bytes(bytes.drop_last());
        let tail = url_byte(bytes.last());
        lemma_url_has_no_slash(bytes.drop_last());
        lemma_url_byte(bytes.last());
        assert forall|i: int| 0 <= i < url_bytes(bytes).len() implies #[trigger] url_bytes(bytes)[i]
            != '/' by {
            if i < front.len() {
                assert(url_bytes(bytes)[i] == front[i]);
            } else {
                assert(url_bytes(bytes)[i] == tail[i - front.len()]);
            }
        }
    }
}

/// The collections of the API whose objects have a namespace and a name.
#[derive(Debug, Clone, Copy, PartialEq, Eq, Structural)]
pub enum Collection {
    Repositories,
    BackupPolicies,
    Backups,
    Restores,
}

impl Collection {
    /// The path of the collection.
    pub open spec fn text(self) -> Seq<char> {
        match self {
            Collection::Repositories => "/api/v1/repositories"@,
            Collection::BackupPolicies => "/api/v1/backup-policies"@,
            Collection::Backups => "/api/v1/backups"@,
            Collection::Restores => "/api/v1/restores"@,
        }
    }

    /// The path of the collection.
    pub fn path(self) -> (res: &'static str)
        ensures
            res@ == self.text(),
    {
        match self {
            Collection::Repositories => "/api/v1/repositories",
            Collection::BackupPolicies => "/api/v1/backup-policies",
            Collection::Backups => "/api/v1/backups",
            Collection::Restores => "/api/v1/restores",
        }
    }
}

/// The path of an object.
pub open spec fn item_path_text(
    collection: Collection,
    namespace: Seq<char>,
    name: Seq<char>,
) -> Seq<char> {
    collection.text() + "/"@ + url_text(namespace) + "/"@ + url_text(name)
}

/// The path of an object.
pub fn item_path(collection: Collection, namespace: &str, name: &str) -> (res: String)
    ensures
        res@ == item_path_text(collection, namespace@, name@),
{
    String::from_str(collection.path()).concat("/").concat(
        urlencoding_lite(namespace).as_str(),
    ).concat("/").concat(urlencoding_lite(name).as_str())
}

/// Two objects of one collection share a path only where they have the same namespace and name,
/// whatever characters these hold.
pub proof fn law_item_paths_are_distinct(
    collection: Collection,
    ns1: Seq<char>,
    name1: Seq<char>,
    ns2: Seq<char>,
    name2: Seq<char>,
)
    requires
        item_path_text(collection, ns1, name1) == item_path_text(collection, ns2, name2),
    ensures
        ns1 == ns2,
        name1 == name2,
{
    reveal_strlit("/");
    let head = collection.text() + "/"@;
    let (a1, b1) = (url_text(ns1), url_text(name1));
    let (a2, b2) = (url_text(ns2), url_text(name2));
    let p1 = item_path_text(collection, ns1, name1);
    let p2 = item_path_text(collection, ns2, name2);
    lemma_url_has_no_slash(encode_utf8(ns1));
    lemma_url_has_no_slash(encode_utf8(ns2));
    assert(p1[(head.len() + a1.len()) as int] == '/');
    assert(p2[(head.len() + a2.len()) as int] == '/');
    if a1.len() < a2.len() {
        assert(p2[(head.len() + a1.len()) as int] == a2[a1.len() as int]);
    }
    if a2.len() < a1.len() {
        assert(p1[(head.len() + a2.len()) as int] == a1[a2.len() as int]);
    }
    assert(a1 =~= p1.subrange(head.len() as int, (head.len() + a1.len()) as int));
    assert(a2 =~= p2.subrange(head.len() as int, (head.len() + a2.len()) as int));
    assert(b1 =~= p1.skip((head.len() + a1.len() + 1) as int));
    assert(b2 =~= p2.skip((head.len() + a2.len() + 1) as int));
    law_url_encoding_is_reversible(encode_utf8(ns1));
    law_url_encoding_is_reversible(encode_utf8(ns2));
    law_url_encoding_is_reversible(encode_utf8(name1));
    law_url_encoding_is_reversible(encode_utf8(name2));
    vstd::utf8::encode_utf8_decode_utf8(ns1);
    vstd::utf8::encode_utf8_decode_utf8(ns2);
    vstd::utf8::encode_utf8_decode_utf8(name1);
    vstd::utf8::encode_utf8_decode_utf8(name2);
}

/// A query parameter that is given, with its name.
pub open spec fn parameter(name: Seq<char>, value: Seq<char>) -> Seq<char> {
    name + "="@ + url_text(value)
}

/// Whether a query parameter is given.
pub open spec fn is_given(value: Option<Seq<char>>) -> bool {
    value matches Some(v) && v.len() > 0
}

/// The query parameters of an inventory.
pub open spec fn inventory_parameters(
    namespace: Option<Seq<char>>,
    kind: Option<Seq<char>>,
    q: Option<Seq<char>>,
) -> Seq<Seq<char>> {
    let a = if is_given(namespace) {
        seq![parameter("namespace"@, namespace->0)]
    } else {
        seq![]
    };
    let b = if is_given(kind) && kind->0 != "All"@ {
        a.push(parameter("kind"@, kind->0))
    } else {
        a
    };
    if is_given(q) {
        b.push(parameter("q"@, q->0))
    } else {
        b
    }
}

/// The path of an inventory.
pub open spec fn inventory_text(parameters: Seq<Seq<char>>) -> Seq<char> {
    if parameters.len() == 0 {
        "/api/v1/inventory"@
    } else {
        "/api/v1/inventory?"@ + joined(parameters, "&"@)
    }
}

fn given(value: Option<&str>) -> (res: bool)
    ensures
        res == is_given(str_view(value)),
{
    match value {
        Some(v) => {
            proof {
                lemma_empty_text(v@);
            }
            !same_text(v, "")
        },
        None => false,
    }
}

fn add_parameter(parameters: &mut Vec<String>, name: &str, value: &str)
    ensures
        final(parameters).deep_view() == old(parameters).deep_view().push(
            parameter(name@, value@),
        ),
{
    let ghost before = parameters.deep_view();
    let p = String::from_str(name).concat("=").concat(urlencoding_lite(value).as_str());
    let ghost text = p@;
    parameters.push(p);
    assert(parameters.deep_view() =~= before.push(text));
}

/// The path of an inventory: of one namespace, of one kind (`All` names none) and of what a search
/// text finds, each where given.
pub fn inventory_path(namespace: Option<&str>, kind: Option<&str>, q: Option<&str>) -> (res: String)
    ensures
        res@ == inventory_text(
            inventory_parameters(str_view(namespace), str_view(kind), str_view(q)),
        ),
{
    let mut parameters: Vec<String> = Vec::new();
    assert(parameters.deep_view() =~= seq![]);
    if given(namespace) {
        if let Some(v) = namespace {
            add_parameter(&mut parameters, "namespace", v);
            assert(parameters.deep_view() =~= seq![parameter("namespace"@, v@)]);
        }
    }
    if given(kind) {
        if let Some(v) = kind {
            if !same_text(v, "All") {
                add_parameter(&mut parameters, "kind", v);
            }
        }
    }
    if given(q) {
        if let Some(v) = q {
            add_parameter(&mut parameters, "q", v);
        }
    }
    assert(parameters.deep_view().len() == parameters@.len());
    if parameters.len() == 0 {
        String::from_str("/api/v1/inventory")
    } else {
        String::from_str("/api/v1/inventory?").concat(join(&parameters, "&").as_str())
    }
}

/// An answer is a success exactly where its status is in the two hundreds.
pub proof fn law_success_is_in_the_two_hundreds(status: u16)
    ensures
        succeeded(status) <==> status / 100 == 2,
{
}

/// A failure says its status first. What the API says of it comes behind that, else the body, where
/// there is one.
pub proof fn law_failure_says_its_status(status: u16, body: Seq<char>, error: Option<Seq<char>>)
    ensures
        ("HTTP "@ + decimal(status as nat)).is_prefix_of(failure_text(status, body, error)),
        error matches Some(e) ==> e.is_suffix_of(failure_text(status, body, error)) && failure_text(
            status,
            body,
            error,
        ) == failure_text(status, seq![], error),
        error is None ==> body.is_suffix_of(failure_text(status, body, error)),
        error is None && body.len() == 0 ==> failure_text(status, body, error) == "HTTP "@ + decimal(
            status as nat,
        ),
        error is None && body.len() > 0 ==> failure_text(status, body, error) == failure_text(
            status,
            seq![],
            Some(body),
        ),
{
    let head = "HTTP "@ + decimal(status as nat);
    let t = failure_text(status, body, error);
    assert(t.subrange(0, head.len() as int) =~= head);
    match error {
        Some(e) => {
            assert(t.subrange(t.len() - e.len(), t.len() as int) =~= e);
        },
        None => {
            assert(t.subrange(t.len() - body.len(), t.len() as int) =~= body);
        },
    }
}

/// A body looks like HTML exactly where the first character that is no white space opens a tag.
pub proof fn law_html_opens_with_a_tag(before: Seq<char>, c: char, after: Seq<char>)
    requires
        crate::text::blank(before),
    ensures
        !crate::text::is_space(c) ==> (is_html(before + seq![c] + after) <==> c == '<'),
        !is_html(before),
{
    let t = before + seq![c] + after;
    crate::text::lemma_trim_start_suffix(before);
    crate::text::lemma_trim_start_suffix(t);
    if trim_start(before).len() > 0 {
        let i = before.len() - trim_start(before).len();
        assert(trim_start(before)[0] == before[i]);
        assert(crate::text::is_space(before[i]));
    }
    if !crate::text::is_space(c) {
        let n = before.len() as int;
        let k = t.len() - trim_start(t).len();
        assert(t[n] == c);
        if k < n {
            assert(trim_start(t)[0] == t[k]);
            assert(t[k] == before[k]);
        }
        assert(k == n);
        assert(trim_start(t)[0] == t[n]);
    }
}

/// An answer is read exactly where it is a success whose body could be had and, where that is asked
/// for, is no HTML; the value is then the body as it came.
pub proof fn law_good_answers_are_read(
    answer: Answer,
    refuse_html: bool,
    res: Result<String, ApiClientError>,
)
    requires
        reads_json(answer, refuse_html, res),
    ensures
        res is Ok <==> succeeded(answer.status) && answer.body is Ok && !(refuse_html && is_html(
            answer.body->Ok_0@,
        )),
        res matches Ok(body) ==> answer.body == Ok::<String, String>(body),
        !succeeded(answer.status) ==> ("HTTP "@ + decimal(answer.status as nat)).is_prefix_of(
            res->Err_0.message@,
        ),
        succeeded(answer.status) && answer.body is Err ==> answer.body->Err_0@.is_suffix_of(
            res->Err_0.message@,
        ),
{
    let body = match answer.body {
        Ok(b) => b@,
        Err(_) => ""@,
    };
    law_failure_says_its_status(answer.status, body, json_text(body, "error"@));
    if succeeded(answer.status) && answer.body is Err {
        let t = res->Err_0.message@;
        let e = answer.body->Err_0@;
        assert(t.subrange(t.len() - e.len(), t.len() as int) =~= e);
    }
}

/// The path of an item lies below that of its collection, and the collections have distinct paths.
pub proof fn law_items_lie_in_their_collection(
    a: Collection,
    b: Collection,
    namespace: Seq<char>,
    name: Seq<char>,
)
    ensures
        (a.text() + "/"@).is_prefix_of(item_path_text(a, namespace, name)),
        ("/"@ + url_text(name)).is_suffix_of(item_path_text(a, namespace, name)),
        a.text() == b.text() ==> a == b,
        "/api/v1/"@.is_prefix_of(a.text()),
{
    let t = item_path_text(a, namespace, name);
    let head = a.text() + "/"@;
    let tail = "/"@ + url_text(name);
    assert(t.subrange(0, head.len() as int) =~= head);
    assert(t.subrange(t.len() - tail.len(), t.len() as int) =~= tail);
    reveal_strlit("/api/v1/");
    reveal_strlit("/api/v1/repositories");
    reveal_strlit("/api/v1/backup-policies");
    reveal_strlit("/api/v1/backups");
    reveal_strlit("/api/v1/restores");
    assert(a.text().subrange(0, 8) =~= "/api/v1/"@);
    assert("/api/v1/repositories"@.len() == 20 && "/api/v1/backup-policies"@.len() == 23
        && "/api/v1/backups"@.len() == 15 && "/api/v1/restores"@.len() == 16);
}

/// The inventory is asked for with what is given, and with nothing else: the namespace first, the
/// search last, and the kind unless it stands for all kinds.
pub proof fn law_inventory_asks_for_what_is_given(
    namespace: Option<Seq<char>>,
    kind: Option<Seq<char>>,
    q: Option<Seq<char>>,
)
    ensures
        ({
            let params = inventory_parameters(namespace, kind, q);
            let by_ns = namespace is Some && namespace->0.len() > 0;
            let by_kind = kind is Some && kind->0.len() > 0 && kind->0 != "All"@;
            let by_q = q is Some && q->0.len() > 0;
            &&& by_ns ==> params.len() > 0 && params[0] == parameter("namespace"@, namespace->0)
            &&& by_kind ==> params.contains(parameter("kind"@, kind->0))
            &&& by_q ==> params.len() > 0 && params.last() == parameter("q"@, q->0)
            &&& params.len() == (if by_ns {
                1int
            } else {
                0
            }) + (if by_kind {
                1int
            } else {
                0
            }) + (if by_q {
                1int
            } else {
                0
            })
            &&& params.len() == 0 ==> inventory_text(params) == "/api/v1/inventory"@
            &&& params.len() > 0 ==> inventory_text(params) == "/api/v1/inventory?"@ + joined(
                params,
                "&"@,
            )
        }),
{
    let params = inventory_parameters(namespace, kind, q);
    if kind is Some && kind->0.len() > 0 && kind->0 != "All"@ {
        let at = if namespace is Some && namespace->0.len() > 0 {
            1int
        } else {
            0
        };
        assert(params[at] == parameter("kind"@, kind->0));
    }
}

/// A parameter is its name, a sign of equality and the value as it stands in a path.
pub proof fn law_parameters_are_read_back(name: Seq<char>, value: Seq<char>)
    requires
        !name.contains('='),
    ensures
        crate::search::split_first(parameter(name, value), "="@) == Some((name, url_text(value))),
{
    reveal_strlit("=");
    assert forall|i: int| 0 <= i < name.len() implies #[trigger] name[i] != "="@[0] by {
        assert(name.contains(name[i]));
    }
    crate::search::law_split_undoes_concatenation(name, "="@, url_text(value));
}

} // verus!
