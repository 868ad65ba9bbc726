//! The backup pipeline over a content-addressed store: ingest, seal, load and restore.
//!
//! The functions here decide what is written, read and deleted; the caller performs the storage
//! calls and hands the outcome back.
use crate::chunking::{
    chunks, copy_range, flatten, law_chunks_flatten_to_data, stream_chunks, reads_fit,
    law_stream_matches_buffered, Chunker, DEFAULT_CHUNK_SIZE,
};
use crate::crypto::{
    encrypt, open_blob, open_bytes, EncryptionKey, MESSAGE_LIMIT, NONCE_LEN, TAG_LEN,
};
use crate::error::{CoreError, CoreResult};
use crate::hash::{blake3_digest, hash_bytes, hex, ContentId};
use crate::snapshot::{
    assemble_manifest, manifest_of, volumes_total, SnapshotManifest, VolumeSnapshot, VolumeView,
    MANIFEST_VERSION,
};
use crate::text::{decimal, decimal_text};
use vstd::prelude::*;

verus! {

/// One object to store.
pub struct ObjectPut {
    pub id: ContentId,
    pub payload: Vec<u8>,
    /// Leave an object alone that is already stored under the id and reads as this one.
    pub skip_if_exists: bool,
}

/// One chunk to store, and the progress to report once it is stored.
pub struct ChunkPut {
    pub put: ObjectPut,
    pub done: u64,
    pub total: u64,
}

/// One volume's raw plaintext bytes, ready to chunk and store.
pub struct SnapshotInput<'a> {
    pub pvc_name: &'a str,
    pub data: &'a [u8],
}

/// The bytes of an optional key.
pub open spec fn key_bytes(key: Option<&EncryptionKey>) -> Option<Seq<u8>> {
    match key {
        Some(k) => Some(k@),
        None => None,
    }
}

/// What a stored blob reads as: itself without a key, else what the key opens it to.
pub open spec fn read_back(key: Option<Seq<u8>>, blob: Seq<u8>) -> Option<Seq<u8>> {
    match key {
        Some(k) => open_blob(k, blob),
        None => Some(blob),
    }
}

/// Whether `blob` holds the chunk `plain`: it reads as the chunk with `key`, and under a key it is
/// longer than the chunk by a nonce and a tag, so it is never the plaintext.
pub open spec fn holds_chunk(key: Option<Seq<u8>>, blob: Seq<u8>, plain: Seq<u8>) -> bool {
    &&& read_back(key, blob) == Some(plain)
    &&& key is Some ==> blob.len() == plain.len() + NONCE_LEN + TAG_LEN
}

/// Whether `put` stores the chunk `plain`: under the digest of the plaintext, readable with `key`,
/// and leaving an already stored copy alone.
pub open spec fn stores_chunk(put: ObjectPut, key: Option<Seq<u8>>, plain: Seq<u8>) -> bool {
    &&& put.id@ == blake3_digest(plain)
    &&& holds_chunk(key, put.payload@, plain)
    &&& put.skip_if_exists
}

/// Whether `puts` store the chunks `pieces`, one each, in order.
pub open spec fn stores_chunks(
    puts: Seq<ObjectPut>,
    key: Option<Seq<u8>>,
    pieces: Seq<Seq<u8>>,
) -> bool {
    &&& puts.len() == pieces.len()
    &&& forall|i: int| 0 <= i < puts.len() ==> stores_chunk(#[trigger] puts[i], key, pieces[i])
}

/// Whether `blob`, which is already stored under the id of `put`, gives way to it: where `put`
/// overwrites, and under a key where the blob is not a copy of the same content sealed with it,
/// such as a chunk stored before the repository was encrypted or under an earlier key. An older
/// snapshot that shares such a chunk no longer restores: its chunks are read in plain, or with the
/// earlier key.
pub open spec fn gives_way(put: ObjectPut, key: Option<Seq<u8>>, blob: Seq<u8>) -> bool {
    ||| !put.skip_if_exists
    ||| key is Some && (blob.len() != put.payload@.len() || read_back(key, blob) != read_back(
        key,
        put.payload@,
    ))
}

fn same_bytes(a: &Vec<u8>, b: &Vec<u8>) -> (res: bool)
    ensures
        res == (a@ == b@),
{
    if a.len() != b.len() {
        return false;
    }
    let mut i: usize = 0;
    while i < a.len()
        invariant
            i <= a@.len(),
            a@.len() == b@.len(),
            forall|j: int| 0 <= j < i ==> #[trigger] a@[j] == b@[j],
        decreases a@.len() - i,
    {
        if a[i] != b[i] {
            return false;
        }
        i += 1;
    }
    assert(a@ =~= b@);
    true
}

impl ObjectPut {
    /// Whether this object is written although `stored` is already there under its id.
    pub fn replaces(&self, key: Option<&EncryptionKey>, stored: &Vec<u8>) -> (res: bool)
        ensures
            res == gives_way(*self, key_bytes(key), stored@),
    {
        if !self.skip_if_exists {
            return true;
        }
        match key {
            Some(k) => {
                if stored.len() != self.payload.len() {
                    return true;
                }
                match (open_bytes(k, stored), open_bytes(k, &self.payload)) {
                    (Ok(a), Ok(b)) => !same_bytes(&a, &b),
                    (Err(_), Err(_)) => false,
                    _ => true,
                }
            },
            None => false,
        }
    }
}

/// The hexadecimal content ids of `pieces`.
pub open spec fn ids_of(pieces: Seq<Seq<u8>>) -> Seq<Seq<char>> {
    pieces.map_values(|p: Seq<u8>| hex(blake3_digest(p)))
}

/// The chunks of a volume payload.
pub open spec fn volume_chunks(data: Seq<u8>) -> Seq<Seq<u8>> {
    chunks(data, DEFAULT_CHUNK_SIZE as nat)
}

/// What is recorded of a volume with payload `data`.
pub open spec fn volume_of(pvc_name: Seq<char>, data: Seq<u8>) -> VolumeView {
    VolumeView { pvc_name, bytes: data.len(), chunk_ids: ids_of(volume_chunks(data)) }
}

/// Prepares one chunk for the store: its id is the hash of the plaintext, its payload the
/// plaintext, or the ciphertext where a key is set.
pub fn seal_chunk(key: Option<&EncryptionKey>, plain: Vec<u8>) -> (res: CoreResult<ObjectPut>)
    ensures
        match res {
            Ok(put) => stores_chunk(put, key_bytes(key), plain@) && (key is None ==> put.payload@
                == plain@) && (key is None || plain@.len() <= MESSAGE_LIMIT),
            Err(_) => key is Some && plain@.len() > MESSAGE_LIMIT,
        },
{
    let id = hash_bytes(plain.as_slice());
    match key {
        Some(k) => match encrypt(k, plain.as_slice()) {
            Ok(sealed) => Ok(ObjectPut { id, payload: sealed.blob, skip_if_exists: true }),
            Err(e) => Err(e),
        },
        None => Ok(ObjectPut { id, payload: plain, skip_if_exists: true }),
    }
}

impl VolumeSnapshot {
    /// A volume of which nothing is ingested yet.
    pub fn start(pvc_name: &str) -> (res: VolumeSnapshot)
        ensures
            res.deep_view() == volume_of(pvc_name@, seq![]),
    {
        let res = VolumeSnapshot {
            pvc_name: pvc_name.to_owned(),
            bytes: 0,
            chunk_ids: Vec::new(),
        };
        assert(res.deep_view() =~= volume_of(pvc_name@, seq![]));
        res
    }

    /// Records a stored chunk of `len` bytes and returns the bytes ingested so far.
    pub fn record(&mut self, id: &ContentId, len: u64) -> (res: u64)
        requires
            old(self).bytes + len <= u64::MAX,
        ensures
            final(self).deep_view() == record_chunk(old(self).deep_view(), id@, len as nat),
            res == final(self).bytes,
    {
        self.bytes = self.bytes + len;
        self.chunk_ids.push(id.to_hex());
        assert(self.deep_view() =~= record_chunk(old(self).deep_view(), id@, len as nat));
        self.bytes
    }
}

/// A volume after one more chunk of `len` bytes with the given id.
pub open spec fn record_chunk(volume: VolumeView, id: Seq<u8>, len: nat) -> VolumeView {
    VolumeView {
        bytes: volume.bytes + len,
        chunk_ids: volume.chunk_ids.push(hex(id)),
        ..volume
    }
}

/// A volume after all of `pieces` are recorded.
pub open spec fn record_all(volume: VolumeView, pieces: Seq<Seq<u8>>) -> VolumeView
    decreases pieces.len(),
{
    if pieces.len() == 0 {
        volume
    } else {
        record_all(
            record_chunk(volume, blake3_digest(pieces[0]), pieces[0].len()),
            pieces.skip(1),
        )
    }
}

proof fn lemma_record_all(volume: VolumeView, pieces: Seq<Seq<u8>>)
    ensures
        record_all(volume, pieces) == (VolumeView {
            pvc_name: volume.pvc_name,
            bytes: volume.bytes + flatten(pieces).len(),
            chunk_ids: volume.chunk_ids + ids_of(pieces),
        }),
    decreases pieces.len(),
{
    if pieces.len() == 0 {
        assert(volume.chunk_ids + ids_of(pieces) =~= volume.chunk_ids);
    } else {
        let rest = pieces.skip(1);
        let next = record_chunk(volume, blake3_digest(pieces[0]), pieces[0].len());
        lemma_record_all(next, rest);
        assert(next.chunk_ids + ids_of(rest) =~= volume.chunk_ids + ids_of(pieces));
    }
}

/// Recording the chunks of a payload one by one gives the record of the whole payload.
pub proof fn law_recording_chunks_gives_volume(pvc_name: Seq<char>, data: Seq<u8>)
    ensures
        record_all(volume_of(pvc_name, seq![]), volume_chunks(data)) == volume_of(pvc_name, data),
{
    let start = volume_of(pvc_name, seq![]);
    lemma_record_all(start, volume_chunks(data));
    law_chunks_flatten_to_data(data, DEFAULT_CHUNK_SIZE as nat);
    assert(start.chunk_ids + ids_of(volume_chunks(data)) =~= ids_of(volume_chunks(data)));
}

/// A volume ingested from a stream is recorded as the same volume ingested from memory, however
/// the stream is cut into reads.
pub proof fn law_stream_ingest_matches_buffered(pvc_name: Seq<char>, reads: Seq<Seq<u8>>)
    requires
        reads_fit(seq![], reads),
    ensures
        record_all(volume_of(pvc_name, seq![]), stream_chunks(seq![], reads)) == volume_of(
            pvc_name,
            flatten(reads),
        ),
{
    law_stream_matches_buffered(seq![], reads);
    assert(Seq::<u8>::empty() + flatten(reads) =~= flatten(reads));
    law_recording_chunks_gives_volume(pvc_name, flatten(reads));
}

/// Chunks `data` and prepares every chunk for the store, with the progress after each: bytes done
/// and bytes in total. The returned volume holds once all chunks are stored, in order.
pub fn ingest_volume_backup_with_progress(
    key: Option<&EncryptionKey>,
    pvc_name: &str,
    data: &[u8],
) -> (res: CoreResult<(VolumeSnapshot, Vec<ChunkPut>)>)
    ensures
        res is Ok,
        res->Ok_0.0.deep_view() == volume_of(pvc_name@, data@),
        res->Ok_0.1@.len() == volume_chunks(data@).len(),
        forall|i: int|
            0 <= i < res->Ok_0.1@.len() ==> {
                let step = #[trigger] res->Ok_0.1@[i];
                &&& stores_chunk(step.put, key_bytes(key), volume_chunks(data@)[i])
                &&& step.done == flatten(volume_chunks(data@).take(i + 1)).len()
                &&& step.total == data@.len()
            },
{
    let chunker = Chunker::default();
    let cut = chunker.chunk(data);
    let total: u64 = data.len() as u64;
    let mut volume = VolumeSnapshot::start(pvc_name);
    let mut puts: Vec<ChunkPut> = Vec::new();
    let mut i: usize = 0;
    let ghost all = volume_chunks(data@);
    proof {
        law_chunks_flatten_to_data(data@, DEFAULT_CHUNK_SIZE as nat);
        crate::chunking::law_chunk_sizes(data@, DEFAULT_CHUNK_SIZE as nat);
        assert(all.take(0) =~= seq![]);
    }
    let ghost start = volume.deep_view();
    while i < cut.len()
        invariant
            i <= cut.len(),
            all == volume_chunks(data@),
            flatten(all) == data@,
            total == data@.len(),
            cut@.len() == all.len(),
            start == volume_of(pvc_name@, seq![]),
            forall|j: int|
                0 <= j < cut@.len() ==> (#[trigger] cut@[j]).data@ == all[j] && cut@[j].id@
                    == blake3_digest(all[j]),
            forall|j: int| 0 <= j < all.len() ==> 0 < (#[trigger] all[j]).len() <= DEFAULT_CHUNK_SIZE,
            volume.deep_view() == record_all(start, all.take(i as int)),
            volume.bytes == flatten(all.take(i as int)).len(),
            puts@.len() == i,
            forall|j: int|
                0 <= j < i ==> {
                    let step = #[trigger] puts@[j];
                    &&& stores_chunk(step.put, key_bytes(key), all[j])
                    &&& step.done == flatten(all.take(j + 1)).len()
                    &&& step.total == data@.len()
                },
        decreases cut.len() - i,
    {
        proof {
            lemma_flatten_take(all, i as int);
            lemma_flatten_prefix_len(all, i + 1);
            lemma_record_all_take(start, all, i as int);
        }
        let plain = copy_range(cut[i].data.as_slice(), 0, cut[i].data.len());
        assert(plain@ =~= all[i as int]);
        let len: u64 = plain.len() as u64;
        let id = cut[i].id;
        match seal_chunk(key, plain) {
            Ok(put) => {
                let done = volume.record(&id, len);
                puts.push(ChunkPut { put, done, total });
            },
            Err(e) => {
                return Err(e);
            },
        }
        i += 1;
    }
    proof {
        assert(all.take(i as int) =~= all);
        law_recording_chunks_gives_volume(pvc_name@, data@);
    }
    Ok((volume, puts))
}

pub(crate) proof fn lemma_flatten_take(pieces: Seq<Seq<u8>>, i: int)
    requires
        0 <= i < pieces.len(),
    ensures
        flatten(pieces.take(i + 1)) == flatten(pieces.take(i)) + pieces[i],
    decreases i,
{
    if i == 0 {
        assert(pieces.take(1).skip(1) =~= seq![]);
        assert(pieces.take(0) =~= seq![]);
        assert(flatten(pieces.take(1).skip(1)) =~= seq![]);
        assert(flatten(pieces.take(1)) =~= pieces[0]);
        assert(flatten(pieces.take(0)) + pieces[0] =~= pieces[0]);
    } else {
        let rest = pieces.skip(1);
        lemma_flatten_take(rest, i - 1);
        assert(pieces.take(i + 1).skip(1) =~= rest.take(i));
        assert(pieces.take(i).skip(1) =~= rest.take(i - 1));
        assert(pieces[0] + (flatten(rest.take(i - 1)) + pieces[i]) =~= (pieces[0] + flatten(
            rest.take(i - 1),
        )) + pieces[i]);
    }
}

pub(crate) proof fn lemma_flatten_prefix_len(pieces: Seq<Seq<u8>>, n: int)
    requires
        0 <= n <= pieces.len(),
    ensures
        flatten(pieces.take(n)).len() <= flatten(pieces).len(),
    decreases pieces.len() - n,
{
    if n == pieces.len() {
        assert(pieces.take(n) =~= pieces);
    } else {
        lemma_flatten_take(pieces, n);
        lemma_flatten_prefix_len(pieces, n + 1);
    }
}

proof fn lemma_record_all_take(start: VolumeView, pieces: Seq<Seq<u8>>, i: int)
    requires
        0 <= i < pieces.len(),
    ensures
        record_all(start, pieces.take(i + 1)) == record_chunk(
            record_all(start, pieces.take(i)),
            blake3_digest(pieces[i]),
            pieces[i].len(),
        ),
{
    lemma_record_all(start, pieces.take(i + 1));
    lemma_record_all(start, pieces.take(i));
    lemma_flatten_take(pieces, i);
    assert(ids_of(pieces.take(i + 1)) =~= ids_of(pieces.take(i)).push(
        hex(blake3_digest(pieces[i])),
    ));
    assert(start.chunk_ids + ids_of(pieces.take(i)).push(hex(blake3_digest(pieces[i]))) =~= (
    start.chunk_ids + ids_of(pieces.take(i))).push(hex(blake3_digest(pieces[i]))));
}

/// Chunks `data` and prepares every chunk for the store. The returned volume holds once all
/// objects are stored, in order.
pub fn ingest_volume_backup(key: Option<&EncryptionKey>, pvc_name: &str, data: &[u8]) -> (res:
    CoreResult<(VolumeSnapshot, Vec<ObjectPut>)>)
    ensures
        res is Ok,
        res->Ok_0.0.deep_view() == volume_of(pvc_name@, data@),
        res->Ok_0.1@.len() == volume_chunks(data@).len(),
        forall|i: int|
            0 <= i < res->Ok_0.1@.len() ==> stores_chunk(
                #[trigger] res->Ok_0.1@[i],
                key_bytes(key),
                volume_chunks(data@)[i],
            ),
{
    match ingest_volume_backup_with_progress(key, pvc_name, data) {
        Ok((volume, steps)) => {
            let mut steps = steps;
            let mut puts: Vec<ObjectPut> = Vec::new();
            let ghost all = steps@;
            let ghost pieces = volume_chunks(data@);
            while steps.len() > 0
                invariant
                    steps@.len() + puts@.len() == all.len(),
                    steps@ == all.skip(puts@.len() as int),
                    all.len() == pieces.len(),
                    forall|i: int|
                        0 <= i < all.len() ==> stores_chunk(
                            (#[trigger] all[i]).put,
                            key_bytes(key),
                            pieces[i],
                        ),
                    forall|i: int|
                        0 <= i < puts@.len() ==> stores_chunk(
                            #[trigger] puts@[i],
                            key_bytes(key),
                            pieces[i],
                        ),
                decreases steps@.len(),
            {
                assert(steps@[0] == all[puts@.len() as int]);
                let step = steps.remove(0);
                puts.push(step.put);
                assert(steps@ =~= all.skip(puts@.len() as int));
            }
            Ok((volume, puts))
        },
        Err(e) => Err(e),
    }
}

/// The names and payloads of `volumes`.
pub open spec fn inputs_of(volumes: Seq<SnapshotInput>) -> Seq<(Seq<char>, Seq<u8>)> {
    volumes.map_values(|v: SnapshotInput| (v.pvc_name@, v.data@))
}

/// The bytes of all payloads together.
pub open spec fn inputs_total(inputs: Seq<(Seq<char>, Seq<u8>)>) -> nat
    decreases inputs.len(),
{
    if inputs.len() == 0 {
        0
    } else {
        inputs_total(inputs.drop_last()) + inputs.last().1.len()
    }
}

/// The chunks of all payloads, volume by volume.
pub open spec fn inputs_chunks(inputs: Seq<(Seq<char>, Seq<u8>)>) -> Seq<Seq<u8>>
    decreases inputs.len(),
{
    if inputs.len() == 0 {
        seq![]
    } else {
        volume_chunks(inputs[0].1) + inputs_chunks(inputs.skip(1))
    }
}

/// What is recorded of all volumes.
pub open spec fn volumes_of(inputs: Seq<(Seq<char>, Seq<u8>)>) -> Seq<VolumeView> {
    inputs.map_values(|v: (Seq<char>, Seq<u8>)| volume_of(v.0, v.1))
}

proof fn lemma_inputs_total_monotone(inputs: Seq<(Seq<char>, Seq<u8>)>, n: int)
    requires
        0 <= n <= inputs.len(),
    ensures
        inputs_total(inputs.take(n)) <= inputs_total(inputs),
    decreases inputs.len() - n,
{
    if n == inputs.len() {
        assert(inputs.take(n) =~= inputs);
    } else {
        lemma_inputs_total_monotone(inputs, n + 1);
        assert(inputs.take(n + 1).drop_last() =~= inputs.take(n));
    }
}

/// A snapshot reports the bytes of all its payloads.
pub proof fn law_total_is_sum_of_payloads(inputs: Seq<(Seq<char>, Seq<u8>)>)
    ensures
        volumes_total(volumes_of(inputs)) == inputs_total(inputs),
    decreases inputs.len(),
{
    if inputs.len() > 0 {
        law_total_is_sum_of_payloads(inputs.drop_last());
        assert(volumes_of(inputs).drop_last() =~= volumes_of(inputs.drop_last()));
    }
}

pub(crate) proof fn lemma_inputs_chunks_push(
    inputs: Seq<(Seq<char>, Seq<u8>)>,
    last: (Seq<char>, Seq<u8>),
)
    ensures
        inputs_chunks(inputs.push(last)) == inputs_chunks(inputs) + volume_chunks(last.1),
    decreases inputs.len(),
{
    let all = inputs.push(last);
    if inputs.len() == 0 {
        assert(all.skip(1) =~= seq![]);
        assert(inputs_chunks(all.skip(1)) =~= seq![]);
        assert(inputs_chunks(inputs) =~= seq![]);
    } else {
        lemma_inputs_chunks_push(inputs.skip(1), last);
        assert(all.skip(1) =~= inputs.skip(1).push(last));
    }
    assert(inputs_chunks(all) =~= inputs_chunks(inputs) + volume_chunks(last.1));
}

pub(crate) proof fn lemma_flatten_concat(a: Seq<Seq<u8>>, b: Seq<Seq<u8>>)
    ensures
        flatten(a + b) == flatten(a) + flatten(b),
    decreases a.len(),
{
    if a.len() == 0 {
        assert(a + b =~= b);
        assert(flatten(a) + flatten(b) =~= flatten(b));
    } else {
        lemma_flatten_concat(a.skip(1), b);
        assert((a + b).skip(1) =~= a.skip(1) + b);
        assert(a[0] + (flatten(a.skip(1)) + flatten(b)) =~= (a[0] + flatten(a.skip(1))) + flatten(
            b,
        ));
    }
}

/// The chunks of all payloads hold as many bytes as the payloads.
pub proof fn law_chunks_hold_all_bytes(inputs: Seq<(Seq<char>, Seq<u8>)>)
    ensures
        flatten(inputs_chunks(inputs)).len() == inputs_total(inputs),
    decreases inputs.len(),
{
    if inputs.len() > 0 {
        let front = inputs.drop_last();
        law_chunks_hold_all_bytes(front);
        lemma_inputs_chunks_push(front, inputs.last());
        assert(front.push(inputs.last()) =~= inputs);
        lemma_flatten_concat(inputs_chunks(front), volume_chunks(inputs.last().1));
        law_chunks_flatten_to_data(inputs.last().1, DEFAULT_CHUNK_SIZE as nat);
    }
}

/// The total that a snapshot reports: the bytes of all payloads, but at least one.
pub open spec fn report_total(inputs: Seq<(Seq<char>, Seq<u8>)>) -> nat {
    if inputs_total(inputs) == 0 {
        1
    } else {
        inputs_total(inputs)
    }
}

/// What a snapshot reports, as bytes done and bytes in total: the chunks stored so far after each
/// chunk, and everything once the manifest is stored.
pub open spec fn reports_of(inputs: Seq<(Seq<char>, Seq<u8>)>) -> Seq<(nat, nat)> {
    let pieces = inputs_chunks(inputs);
    Seq::new(
        pieces.len() + 1,
        |i: int|
            if i < pieces.len() {
                (flatten(pieces.take(i + 1)).len(), report_total(inputs))
            } else {
                (report_total(inputs), report_total(inputs))
            },
    )
}

/// A snapshot reports once for every chunk and once at the end; the total never changes, what is
/// done never decreases nor exceeds it, and the last report is of everything.
pub proof fn law_snapshot_reports_rise_to_the_total(inputs: Seq<(Seq<char>, Seq<u8>)>)
    ensures
        reports_of(inputs).len() == inputs_chunks(inputs).len() + 1,
        forall|i: int|
            0 <= i < reports_of(inputs).len() ==> (#[trigger] reports_of(inputs)[i]).1
                == report_total(inputs) && reports_of(inputs)[i].0 <= report_total(inputs),
        forall|i: int, j: int|
            0 <= i <= j < reports_of(inputs).len() ==> (#[trigger] reports_of(inputs)[i]).0 <= (
            #[trigger] reports_of(inputs)[j]).0,
        reports_of(inputs).last() == (report_total(inputs), report_total(inputs)),
{
    let pieces = inputs_chunks(inputs);
    law_chunks_hold_all_bytes(inputs);
    assert forall|i: int| 0 <= i < reports_of(inputs).len() implies (#[trigger] reports_of(
        inputs,
    )[i]).1 == report_total(inputs) && reports_of(inputs)[i].0 <= report_total(inputs) by {
        if i < pieces.len() {
            lemma_flatten_prefix_len(pieces, i + 1);
        }
    }
    assert forall|i: int, j: int| 0 <= i <= j < reports_of(inputs).len() implies (
    #[trigger] reports_of(inputs)[i]).0 <= (#[trigger] reports_of(inputs)[j]).0 by {
        if j < pieces.len() {
            lemma_flatten_prefix_len(pieces.take(j + 1), i + 1);
            assert(pieces.take(j + 1).take(i + 1) =~= pieces.take(i + 1));
        } else {
            assert(reports_of(inputs)[i].0 <= report_total(inputs));
        }
    }
}

/// Drives a snapshot of several volumes: which chunk is stored next, and the manifest at the end.
pub struct SnapshotWriter<'a> {
    pub created_at: String,
    pub key: Option<&'a EncryptionKey>,
    pub volumes: &'a Vec<SnapshotInput<'a>>,
    pub index: usize,
    pub offset: usize,
    pub chunk_ids: Vec<String>,
    pub finished: Vec<VolumeSnapshot>,
    pub grand_done: u64,
    pub grand_total: u64,
    /// The objects that were handed out for storing.
    pub objects: Ghost<Seq<ObjectPut>>,
}

impl<'a> SnapshotWriter<'a> {
    /// The names and payloads to back up.
    pub open spec fn inputs(&self) -> Seq<(Seq<char>, Seq<u8>)> {
        inputs_of(self.volumes@)
    }

    /// The chunks that are still to be stored.
    pub open spec fn remaining(&self) -> Seq<Seq<u8>> {
        if self.index < self.inputs().len() {
            volume_chunks(self.inputs()[self.index as int].1.skip(self.offset as int))
                + inputs_chunks(self.inputs().skip(self.index + 1))
        } else {
            seq![]
        }
    }

    /// How many chunks were handed out.
    pub open spec fn handed_out(&self) -> int {
        inputs_chunks(self.inputs()).len() - self.remaining().len()
    }

    /// What is recorded so far agrees with the position reached, and the objects handed out store
    /// the chunks up to there.
    pub open spec fn wf(&self) -> bool {
        let inputs = self.inputs();
        let pieces = inputs_chunks(inputs);
        let n = self.handed_out();
        &&& 0 <= n
        &&& self.remaining() == pieces.skip(n)
        &&& self.grand_done == flatten(pieces.take(n)).len()
        &&& stores_chunks(self.objects@, key_bytes(self.key), pieces.take(n))
        &&& self.index <= inputs.len()
        &&& inputs_total(inputs) <= u64::MAX
        &&& self.finished.deep_view() == volumes_of(inputs.take(self.index as int))
        &&& self.grand_done == inputs_total(inputs.take(self.index as int)) + self.offset
        &&& self.grand_total == report_total(inputs)
        &&& if self.index < inputs.len() {
            let data = inputs[self.index as int].1;
            &&& self.offset <= data.len()
            &&& self.chunk_ids.deep_view() + ids_of(volume_chunks(data.skip(self.offset as int)))
                == ids_of(volume_chunks(data))
        } else {
            &&& self.offset == 0
            &&& self.chunk_ids@.len() == 0
        }
    }

    /// A snapshot at its start. `key` is set where the repository is encrypted.
    pub fn new(
        created_at: String,
        key: Option<&'a EncryptionKey>,
        volumes: &'a Vec<SnapshotInput<'a>>,
    ) -> (res: Self)
        requires
            inputs_total(inputs_of(volumes@)) <= u64::MAX,
        ensures
            res.wf(),
            res.created_at@ == created_at@,
            res.key == key,
            res.inputs() == inputs_of(volumes@),
            res.remaining() == inputs_chunks(inputs_of(volumes@)),
            res.handed_out() == 0,
            res.grand_done == 0,
    {
        let ghost inputs = inputs_of(volumes@);
        let mut sum: u64 = 0;
        let mut i: usize = 0;
        assert(inputs.take(0) =~= seq![]);
        while i < volumes.len()
            invariant
                i <= volumes.len(),
                inputs == inputs_of(volumes@),
                inputs_total(inputs) <= u64::MAX,
                sum == inputs_total(inputs.take(i as int)),
            decreases volumes.len() - i,
        {
            proof {
                assert(inputs.take(i + 1).drop_last() =~= inputs.take(i as int));
                lemma_inputs_total_monotone(inputs, i + 1);
            }
            sum += volumes[i].data.len() as u64;
            i += 1;
        }
        assert(inputs.take(i as int) =~= inputs);
        let grand_total: u64 = if sum == 0 {
            1
        } else {
            sum
        };
        let res = SnapshotWriter {
            created_at,
            key,
            volumes,
            index: 0,
            offset: 0,
            chunk_ids: Vec::new(),
            finished: Vec::new(),
            grand_done: 0,
            grand_total,
            objects: Ghost(Seq::empty()),
        };
        proof {
            assert(inputs.take(0) =~= seq![]);
            assert(res.finished.deep_view() =~= volumes_of(inputs.take(0)));
            if inputs.len() > 0 {
                let data = inputs[0].1;
                assert(data.skip(0) =~= data);
                assert(res.chunk_ids.deep_view() + ids_of(volume_chunks(data)) =~= ids_of(
                    volume_chunks(data),
                ));
            }
            assert(res.remaining() =~= inputs_chunks(inputs));
            assert(inputs_chunks(inputs).skip(0) =~= inputs_chunks(inputs));
            assert(inputs_chunks(inputs).take(0) =~= seq![]);
        }
        res
    }

    /// The next chunk to store, with the progress to report once it is stored, or nothing once
    /// every chunk is.
    pub fn next_put(&mut self) -> (res: CoreResult<Option<ChunkPut>>)
        requires
            old(self).wf(),
        ensures
            res is Ok,
            final(self).wf(),
            final(self).created_at == old(self).created_at,
            final(self).key == old(self).key,
            final(self).volumes == old(self).volumes,
            match res->Ok_0 {
                Some(step) => {
                    &&& old(self).remaining().len() > 0
                    &&& stores_chunk(step.put, key_bytes(old(self).key), old(self).remaining()[0])
                    &&& final(self).remaining() == old(self).remaining().skip(1)
                    &&& final(self).grand_done == old(self).grand_done
                        + old(self).remaining()[0].len()
                    &&& final(self).handed_out() == old(self).handed_out() + 1
                    &&& final(self).objects@ == old(self).objects@.push(step.put)
                    &&& step.done == final(self).grand_done
                    &&& (step.done as nat, step.total as nat) == reports_of(
                        old(self).inputs(),
                    )[old(self).handed_out()]
                },
                None => {
                    &&& old(self).remaining().len() == 0
                    &&& final(self).index == final(self).volumes@.len()
                    &&& final(self).objects == old(self).objects
                },
            },
    {
        let ghost inputs = self.inputs();
        let ghost todo = self.remaining();
        while self.index < self.volumes.len() && self.offset == self.volumes[self.index].data.len()
            invariant
                self.wf(),
                self.inputs() == inputs,
                self.remaining() == todo,
                self.grand_done == old(self).grand_done,
                self.objects == old(self).objects,
                self.created_at == old(self).created_at,
                self.key == old(self).key,
                self.volumes == old(self).volumes,
            decreases self.volumes@.len() - self.index,
        {
            let volume = &self.volumes[self.index];
            let ghost at = self.index as int;
            let ghost data = inputs[at].1;
            let ghost before = self.finished.deep_view();
            let mut ids: Vec<String> = Vec::new();
            std::mem::swap(&mut ids, &mut self.chunk_ids);
            proof {
                assert(data == volume.data@);
                assert(data.skip(data.len() as int).len() == 0);
                assert(volume_chunks(data.skip(data.len() as int)) =~= seq![]);
                assert(ids.deep_view() + ids_of(volume_chunks(data.skip(data.len() as int)))
                    =~= ids.deep_view());
            }
            let done = VolumeSnapshot {
                pvc_name: volume.pvc_name.to_owned(),
                bytes: self.offset as u64,
                chunk_ids: ids,
            };
            assert(done.deep_view() =~= volume_of(inputs[at].0, data));
            self.finished.push(done);
            self.index = self.index + 1;
            self.offset = 0;
            proof {
                assert(inputs.take(at + 1).drop_last() =~= inputs.take(at));
                assert(self.finished.deep_view() =~= before.push(volume_of(inputs[at].0, data)));
                assert(volumes_of(inputs.take(at + 1)) =~= volumes_of(inputs.take(at)).push(
                    volume_of(inputs[at].0, data),
                ));
                if at + 1 < inputs.len() {
                    let next = inputs[at + 1].1;
                    assert(next.skip(0) =~= next);
                    assert(self.chunk_ids.deep_view() + ids_of(volume_chunks(next)) =~= ids_of(
                        volume_chunks(next),
                    ));
                    assert(inputs.skip(at + 1)[0] == inputs[at + 1]);
                    assert(inputs.skip(at + 1).skip(1) =~= inputs.skip(at + 2));
                }
                assert(self.remaining() =~= todo);
            }
        }
        if self.index >= self.volumes.len() {
            return Ok(None);
        }
        let data = self.volumes[self.index].data;
        let start: usize = self.offset;
        let end: usize = if data.len() - start <= DEFAULT_CHUNK_SIZE {
            data.len()
        } else {
            start + DEFAULT_CHUNK_SIZE
        };
        let plain = copy_range(data, start, end);
        let ghost rest = data@.skip(start as int);
        let ghost tail = volume_chunks(data@.skip(end as int));
        let ghost piece = plain@;
        proof {
            assert(data@ == inputs[self.index as int].1);
            if rest.len() <= DEFAULT_CHUNK_SIZE {
                assert(piece =~= rest);
                assert(tail =~= seq![]);
            } else {
                assert(piece =~= rest.take(DEFAULT_CHUNK_SIZE as int));
                assert(rest.skip(DEFAULT_CHUNK_SIZE as int) =~= data@.skip(end as int));
            }
            assert(volume_chunks(rest) =~= seq![piece] + tail);
            assert(todo[0] == piece);
            lemma_inputs_total_monotone(inputs, self.index + 1);
            assert(inputs.take(self.index + 1).drop_last() =~= inputs.take(self.index as int));
            lemma_flatten_take(inputs_chunks(inputs), self.handed_out());
            assert(inputs_chunks(inputs)[self.handed_out()] == piece);
        }
        let len: u64 = plain.len() as u64;
        match seal_chunk(self.key, plain) {
            Ok(put) => {
                let ghost ids = self.chunk_ids.deep_view();
                let ghost n = self.handed_out();
                self.objects = Ghost(self.objects@.push(put));
                self.chunk_ids.push(put.id.to_hex());
                self.offset = end;
                self.grand_done = self.grand_done + len;
                proof {
                    assert(self.chunk_ids.deep_view() =~= ids.push(hex(blake3_digest(piece))));
                    assert(ids_of(seq![piece] + tail) =~= seq![hex(blake3_digest(piece))] + ids_of(
                        tail,
                    ));
                    assert(self.chunk_ids.deep_view() + ids_of(tail) =~= ids + ids_of(
                        volume_chunks(rest),
                    ));
                    assert(self.remaining() =~= todo.skip(1));
                    let pieces = inputs_chunks(inputs);
                    assert(pieces.skip(n).skip(1) =~= pieces.skip(n + 1));
                    assert(pieces.take(n + 1) =~= pieces.take(n).push(piece));
                    assert(self.handed_out() == n + 1);
                }
                let done: u64 = if self.grand_done <= self.grand_total {
                    self.grand_done
                } else {
                    self.grand_total
                };
                Ok(Some(ChunkPut { put, done, total: self.grand_total }))
            },
            Err(e) => Err(e),
        }
    }

    /// The progress to report once the manifest is stored as well: everything.
    pub fn final_report(&self) -> (res: (u64, u64))
        requires
            self.wf(),
        ensures
            (res.0 as nat, res.1 as nat) == reports_of(self.inputs()).last(),
    {
        (self.grand_total, self.grand_total)
    }

    /// The manifest, once every chunk is stored.
    pub fn finish(self) -> (res: SnapshotManifest)
        requires
            self.wf(),
            self.index == self.volumes@.len(),
        ensures
            res.deep_view() == manifest_of(
                self.created_at@,
                self.key is Some,
                volumes_of(self.inputs()),
            ),
    {
        proof {
            assert(self.inputs().take(self.index as int) =~= self.inputs());
            law_total_is_sum_of_payloads(self.inputs());
        }
        assemble_manifest(self.created_at, self.key.is_some(), self.finished)
    }
}

/// Prepares the serialised manifest for the store, keyed by its own content hash.
pub fn seal_snapshot(json: Result<Vec<u8>, String>) -> (res: CoreResult<ObjectPut>)
    ensures
        match (json, res) {
            (Ok(bytes), Ok(put)) => stores_manifest(put, bytes@),
            (Err(m), Err(e)) => e matches CoreError::InvalidArgument(t) && t@
                == "manifest serialize: "@ + m@,
            _ => false,
        },
{
    match json {
        Ok(bytes) => {
            let id = hash_bytes(bytes.as_slice());
            Ok(ObjectPut { id, payload: bytes, skip_if_exists: false })
        },
        Err(m) => Err(
            CoreError::InvalidArgument(
                String::from_str("manifest serialize: ").concat(m.as_str()),
            ),
        ),
    }
}

/// The error text for a manifest of another version.
pub open spec fn version_text(version: nat) -> Seq<char> {
    "unsupported snapshot manifest version "@ + decimal(version) + " (expected "@ + decimal(
        MANIFEST_VERSION as nat,
    ) + ")"@
}

/// Whether `put` stores the serialised manifest `json`: in plain, under its own digest,
/// overwriting what is there.
pub open spec fn stores_manifest(put: ObjectPut, json: Seq<u8>) -> bool {
    &&& put.id@ == blake3_digest(json)
    &&& put.payload@ == json
    &&& !put.skip_if_exists
}

/// What loading a snapshot gives for the parsed manifest object.
pub open spec fn loaded_manifest(
    parsed: Result<SnapshotManifest, String>,
    res: CoreResult<SnapshotManifest>,
) -> bool {
    match parsed {
        Ok(m) => if m.version == MANIFEST_VERSION {
            res == Ok::<SnapshotManifest, CoreError>(m)
        } else {
            res matches Err(CoreError::InvalidArgument(t)) && t@ == version_text(m.version as nat)
        },
        Err(e) => res matches Err(CoreError::InvalidArgument(t)) && t@
            == "manifest deserialize: "@ + e@,
    }
}

/// Accepts a manifest that was read back and parsed, where its version is the supported one.
pub fn load_snapshot(parsed: Result<SnapshotManifest, String>) -> (res: CoreResult<
    SnapshotManifest,
>)
    ensures
        loaded_manifest(parsed, res),
{
    match parsed {
        Ok(m) => {
            if m.version != MANIFEST_VERSION {
                return Err(
                    CoreError::InvalidArgument(
                        String::from_str("unsupported snapshot manifest version ").concat(
                            decimal_text(m.version as u64).as_str(),
                        ).concat(" (expected ").concat(
                            decimal_text(MANIFEST_VERSION as u64).as_str(),
                        ).concat(")"),
                    ),
                );
            }
            Ok(m)
        },
        Err(e) => Err(
            CoreError::InvalidArgument(
                String::from_str("manifest deserialize: ").concat(e.as_str()),
            ),
        ),
    }
}

/// The manifest of a snapshot says when it was made, in which format and whether it is encrypted,
/// holds one volume for each payload, in order and by its name, and the bytes of all of them.
pub proof fn law_manifest_describes_the_payloads(
    created_at: Seq<char>,
    encrypted: bool,
    inputs: Seq<(Seq<char>, Seq<u8>)>,
)
    ensures
        ({
            let m = manifest_of(created_at, encrypted, volumes_of(inputs));
            &&& m.version == 1
            &&& m.created_at == created_at
            &&& m.encrypted == encrypted
            &&& m.volumes.len() == inputs.len()
            &&& forall|i: int|
                0 <= i < inputs.len() ==> (#[trigger] m.volumes[i]).pvc_name == inputs[i].0
                    && m.volumes[i].bytes == inputs[i].1.len()
            &&& m.total_bytes == inputs_total(inputs)
        }),
{
    law_total_is_sum_of_payloads(inputs);
}

/// The bytes of payloads add up one by one.
pub proof fn law_totals_add_up(
    inputs: Seq<(Seq<char>, Seq<u8>)>,
    name: Seq<char>,
    data: Seq<u8>,
)
    ensures
        inputs_total(Seq::<(Seq<char>, Seq<u8>)>::empty()) == 0,
        inputs_total(inputs.push((name, data))) == inputs_total(inputs) + data.len(),
        inputs_chunks(inputs.push((name, data))) == inputs_chunks(inputs) + volume_chunks(data),
        volumes_of(inputs.push((name, data))) == volumes_of(inputs).push(volume_of(name, data)),
{
    assert(inputs.push((name, data)).drop_last() =~= inputs);
    lemma_inputs_chunks_push(inputs, (name, data));
    assert(volumes_of(inputs.push((name, data))) =~= volumes_of(inputs).push(
        volume_of(name, data),
    ));
}

/// The ids of a volume are those of its chunks, one each, in order: the digest of the plaintext, so
/// that equal chunks have equal ids, whatever key they are stored with and whatever volume they are
/// part of.
pub proof fn law_chunk_ids_are_digests_of_the_plaintext(name: Seq<char>, data: Seq<u8>, i: int)
    requires
        0 <= i < volume_chunks(data).len(),
    ensures
        volume_of(name, data).chunk_ids.len() == volume_chunks(data).len(),
        volume_of(name, data).chunk_ids[i] == hex(blake3_digest(volume_chunks(data)[i])),
        volume_chunks(data) == chunks(data, 1024 * 1024),
        volume_of(name, data).pvc_name == name,
        volume_of(name, data).bytes == data.len(),
{
}

/// After each chunk the report grows by its size, starting from nothing.
pub proof fn law_reports_grow_by_each_chunk(inputs: Seq<(Seq<char>, Seq<u8>)>, i: int)
    requires
        0 <= i < inputs_chunks(inputs).len(),
    ensures
        reports_of(inputs)[i].0 == inputs_chunks(inputs)[i].len() + (if i == 0 {
            0
        } else {
            reports_of(inputs)[i - 1].0
        }),
        reports_of(inputs)[i].1 == (if inputs_total(inputs) == 0 {
            1
        } else {
            inputs_total(inputs)
        }),
{
    let pieces = inputs_chunks(inputs);
    lemma_flatten_take(pieces, i);
    if i == 0 {
        assert(pieces.take(0) =~= seq![]);
    }
}

/// A chunk is stored under the digest of its plaintext; without a key its blob is the plaintext,
/// and with a key the blob opens to it.
pub proof fn law_stored_chunk_is_the_chunk(put: ObjectPut, key: Option<Seq<u8>>, plain: Seq<u8>)
    requires
        stores_chunk(put, key, plain),
    ensures
        put.id@ == blake3_digest(plain),
        key is None ==> put.payload@ == plain,
        key matches Some(k) ==> open_blob(k, put.payload@) == Some(plain) && put.payload@ != plain
            && put.payload@.len() == plain.len() + 28,
{
}

/// A stored blob stays where it is a copy of the same content, and gives way where it is not what
/// the key opens to that content; a manifest always takes its place.
pub proof fn law_copies_stay(
    put: ObjectPut,
    other: ObjectPut,
    key: Option<Seq<u8>>,
    plain: Seq<u8>,
    blob: Seq<u8>,
)
    requires
        stores_chunk(put, key, plain),
        stores_chunk(other, key, plain),
    ensures
        !gives_way(put, key, other.payload@),
        key is None ==> !gives_way(put, key, blob),
        key matches Some(k) && open_blob(k, blob) != Some(plain) ==> gives_way(put, key, blob),
        key is Some ==> gives_way(put, key, plain),
        gives_way(ObjectPut { skip_if_exists: false, ..put }, key, blob),
{
}

/// A manifest is accepted exactly where it parses and is of the format that is written, and is then
/// returned as it was parsed.
pub proof fn law_only_known_manifests_load(
    parsed: Result<SnapshotManifest, String>,
    res: CoreResult<SnapshotManifest>,
)
    requires
        loaded_manifest(parsed, res),
    ensures
        res is Ok <==> (parsed matches Ok(m) && m.version == 1),
        res matches Ok(m) ==> parsed == Ok::<SnapshotManifest, String>(m),
        res matches Err(e) ==> e is InvalidArgument,
{
}

/// A refused version is told.
pub proof fn law_refused_version_is_told(version: nat)
    ensures
        ("unsupported snapshot manifest version "@ + decimal(version)).is_prefix_of(
            version_text(version),
        ),
{
    let head = "unsupported snapshot manifest version "@ + decimal(version);
    assert(version_text(version).subrange(0, head.len() as int) =~= head);
}

} // verus!
