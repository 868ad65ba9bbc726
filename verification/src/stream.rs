//! Snapshots of volumes that are read as streams, without the whole payload in memory.
use crate::chunking::{
    chunks, flatten, reads_fit, stream_chunks, stream_step, ReadStep, StreamChunker,
    DEFAULT_CHUNK_SIZE,
};
use crate::crypto::{EncryptionKey, MESSAGE_LIMIT};
use crate::error::CoreError;
use crate::hash::blake3_digest;
use crate::materialize::{
    law_restore_returns_snapshot, materialized, no_collision, store_agrees, stored, stored_all,
};
use crate::pipeline::{
    ids_of, inputs_chunks, inputs_total, key_bytes, law_chunks_hold_all_bytes,
    law_stream_ingest_matches_buffered, lemma_flatten_concat, lemma_flatten_prefix_len,
    lemma_inputs_chunks_push, record_all, record_chunk, seal_chunk, stores_chunk, stores_chunks,
    stores_manifest, volume_chunks, volume_of, volumes_of, ObjectPut, SnapshotWriter,
};
use crate::snapshot::{
    assemble_manifest, manifest_of, volumes_total, SnapshotManifest, VolumeSnapshot, VolumeView,
};
use vstd::prelude::*;

verus! {

/// What a snapshot does with one more piece of a stream.
pub enum StreamAction {
    /// The chunk is not full yet: read on.
    Read,
    /// Store this chunk, report `done` bytes of the snapshot, and read on.
    Put { put: ObjectPut, done: u64 },
    /// The volume has ended.
    VolumeEnd,
}

/// What was read and handed out for storing so far.
pub struct StreamLog {
    /// The names and payloads of the volumes that have ended.
    pub inputs: Seq<(Seq<char>, Seq<u8>)>,
    /// The name of the current volume.
    pub name: Seq<char>,
    /// What was read of the current volume.
    pub data: Seq<u8>,
    /// What was handed out of the current volume.
    pub sent: Seq<u8>,
    /// The chunks that were handed out, of all volumes.
    pub pieces: Seq<Seq<u8>>,
    /// The objects that store those chunks.
    pub objects: Seq<ObjectPut>,
    /// Whether no stream delivered more after it had come to its end.
    pub regular: bool,
}

/// The log at the start.
pub open spec fn empty_log() -> StreamLog {
    StreamLog {
        inputs: seq![],
        name: seq![],
        data: seq![],
        sent: seq![],
        pieces: seq![],
        objects: seq![],
        regular: true,
    }
}

/// The log once a volume has begun.
pub open spec fn log_begin(log: StreamLog, name: Seq<char>) -> StreamLog {
    StreamLog { name, data: seq![], sent: seq![], ..log }
}

/// The log once a piece of the current volume was read.
pub open spec fn log_read(log: StreamLog, piece: Seq<u8>) -> StreamLog {
    StreamLog { data: log.data + piece, ..log }
}

/// The log once a chunk was handed out; after a short chunk the stream has come to its end.
pub open spec fn log_put(log: StreamLog, chunk: Seq<u8>, put: ObjectPut) -> StreamLog {
    StreamLog {
        sent: log.sent + chunk,
        pieces: log.pieces.push(chunk),
        objects: log.objects.push(put),
        regular: log.regular && log.sent.len() % (DEFAULT_CHUNK_SIZE as nat) == 0,
        ..log
    }
}

/// The log once the current volume has ended.
pub open spec fn log_end(log: StreamLog) -> StreamLog {
    StreamLog {
        inputs: log.inputs.push((log.name, log.data)),
        name: seq![],
        data: seq![],
        sent: seq![],
        ..log
    }
}

/// A snapshot of several volumes, read one after the other as streams.
pub struct StreamWriter<'a> {
    pub created_at: String,
    pub key: Option<&'a EncryptionKey>,
    pub chunker: StreamChunker,
    /// The volume that is read.
    pub current: Option<VolumeSnapshot>,
    pub finished: Vec<VolumeSnapshot>,
    pub total_bytes: u64,
    /// What was read and handed out.
    pub log: Ghost<StreamLog>,
}

impl<'a> StreamWriter<'a> {
    /// The sizes of the volumes that have ended add up, nothing is held between volumes, and what
    /// was handed out is what was read but for the bytes held. Short of a stream that went on after
    /// its end, the chunks handed out and the volumes recorded are those of the payloads read.
    pub open spec fn wf(&self) -> bool {
        let log = self.log@;
        &&& self.chunker.wf()
        &&& self.current is None ==> self.chunker.buf@.len() == 0 && log.data.len() == 0
        &&& self.total_bytes == volumes_total(self.finished.deep_view())
        &&& log.data == log.sent + self.chunker.buf@
        &&& stores_chunks(log.objects, key_bytes(self.key), log.pieces)
        &&& flatten(log.pieces).len() == self.total_bytes + log.sent.len()
        &&& self.current is Some ==> self.current->0.bytes == log.sent.len()
        &&& log.regular ==> {
            &&& self.finished.deep_view() == volumes_of(log.inputs)
            &&& log.pieces == inputs_chunks(log.inputs) + volume_chunks(log.sent)
            &&& self.current is Some ==> self.current->0.deep_view() == volume_of(
                log.name,
                log.sent,
            )
        }
    }

    /// The bytes that were read so far.
    pub open spec fn taken(&self) -> int {
        self.total_bytes + self.chunker.buf@.len() + match self.current {
            Some(v) => v.bytes as int,
            None => 0,
        }
    }

    /// A snapshot at its start. `key` is set where the repository is encrypted.
    pub fn new(created_at: String, key: Option<&'a EncryptionKey>) -> (res: Self)
        ensures
            res.wf(),
            res.created_at == created_at,
            res.key == key,
            res.current is None,
            res.finished@.len() == 0,
            res.log@ == empty_log(),
    {
        let res = StreamWriter {
            created_at,
            key,
            chunker: StreamChunker::new(),
            current: None,
            finished: Vec::new(),
            total_bytes: 0,
            log: Ghost(empty_log()),
        };
        proof {
            let log = res.log@;
            assert(log.data =~= log.sent + res.chunker.buf@);
            assert(res.finished.deep_view() =~= volumes_of(log.inputs));
            assert(log.pieces =~= inputs_chunks(log.inputs) + volume_chunks(log.sent));
        }
        res
    }

    /// Begins with the next volume.
    pub fn begin(&mut self, pvc_name: &str)
        requires
            old(self).wf(),
            old(self).current is None,
        ensures
            final(self).wf(),
            *final(self) == (StreamWriter {
                current: final(self).current,
                log: final(self).log,
                ..*old(self)
            }),
            final(self).log@ == log_begin(old(self).log@, pvc_name@),
            final(self).current is Some,
            final(self).current->0.deep_view() == volume_of(pvc_name@, seq![]),
    {
        self.current = Some(VolumeSnapshot::start(pvc_name));
        self.log = Ghost(log_begin(self.log@, pvc_name@));
        proof {
            assert(self.log@.data =~= self.log@.sent + self.chunker.buf@);
            assert(old(self).log@.sent =~= seq![]);
        }
    }

    /// How many bytes the next read may deliver.
    pub fn wanted(&self) -> (res: usize)
        requires
            self.wf(),
        ensures
            res == DEFAULT_CHUNK_SIZE - self.chunker.buf@.len(),
            res > 0,
    {
        self.chunker.wanted()
    }

    /// Takes what a read of the current volume delivered; an empty piece is the end of its stream.
    pub fn read(&mut self, piece: Vec<u8>) -> (res: StreamAction)
        requires
            old(self).wf(),
            old(self).current is Some,
            old(self).chunker.buf@.len() + piece@.len() <= DEFAULT_CHUNK_SIZE,
            old(self).taken() + piece@.len() <= u64::MAX,
        ensures
            final(self).wf(),
            final(self).created_at == old(self).created_at,
            final(self).key == old(self).key,
            final(self).chunker.buf@ == stream_step(old(self).chunker.buf@, piece@).0,
            match stream_step(old(self).chunker.buf@, piece@).1 {
                None => {
                    &&& res is Read
                    &&& final(self).log@ == log_read(old(self).log@, piece@)
                    &&& final(self).current == old(self).current
                    &&& final(self).finished@ == old(self).finished@
                    &&& final(self).total_bytes == old(self).total_bytes
                },
                Some(chunk) => if chunk.len() == 0 {
                    &&& res is VolumeEnd
                    &&& final(self).log@ == log_end(old(self).log@)
                    &&& final(self).current is None
                    &&& final(self).finished@ == old(self).finished@.push(old(self).current->0)
                    &&& final(self).total_bytes == old(self).total_bytes
                        + old(self).current->0.bytes
                } else {
                    &&& res matches StreamAction::Put { put, done }
                    &&& stores_chunk(put, key_bytes(old(self).key), chunk)
                    &&& final(self).log@ == log_put(log_read(old(self).log@, piece@), chunk, put)
                    &&& done == flatten(final(self).log@.pieces).len()
                    &&& final(self).current is Some
                    &&& final(self).current->0.deep_view() == after_read(
                        old(self).current->0.deep_view(),
                        old(self).chunker.buf@,
                        piece@,
                    ).0
                    &&& final(self).finished@ == old(self).finished@
                    &&& final(self).total_bytes == old(self).total_bytes
                    &&& done == old(self).total_bytes + final(self).current->0.bytes
                },
            },
    {
        let ghost buf = self.chunker.buf@;
        let ghost log = log_read(self.log@, piece@);
        assert(log.data =~= self.log@.sent + (buf + piece@));
        self.log = Ghost(log);
        match self.chunker.read(piece) {
            ReadStep::More => StreamAction::Read,
            ReadStep::Ready(chunk) => {
                let ghost plain = chunk@;
                let len: u64 = chunk.len() as u64;
                if let Some(volume) = self.current.take() {
                    if len == 0 {
                        let ghost before = self.finished.deep_view();
                        let bytes: u64 = volume.bytes;
                        self.total_bytes = self.total_bytes + bytes;
                        self.finished.push(volume);
                        proof {
                            assert(self.finished.deep_view() =~= before.push(volume.deep_view()));
                            assert(self.finished.deep_view().drop_last() =~= before);
                            assert(log.data =~= log.sent);
                            assert(log.data =~= old(self).log@.data);
                            lemma_end(log, before, volume.deep_view());
                        }
                        self.log = Ghost(log_end(log));
                        return StreamAction::VolumeEnd;
                    }
                    assert(len <= MESSAGE_LIMIT);
                    if let Ok(put) = seal_chunk(self.key, chunk) {
                        let mut volume = volume;
                        let read: u64 = volume.record(&put.id, len);
                        let done: u64 = self.total_bytes + read;
                        self.current = Some(volume);
                        self.log = Ghost(log_put(log, plain, put));
                        proof {
                            assert(self.log@.data =~= self.log@.sent + self.chunker.buf@);
                            lemma_put(log, plain, put);
                        }
                        return StreamAction::Put { put, done };
                    }
                }
                StreamAction::Read
            },
        }
    }

    /// The manifest, once every volume has ended.
    pub fn finish(self) -> (res: SnapshotManifest)
        requires
            self.wf(),
            self.current is None,
        ensures
            res.deep_view() == manifest_of(
                self.created_at@,
                self.key is Some,
                self.finished.deep_view(),
            ),
            self.log@.regular ==> res.deep_view() == manifest_of(
                self.created_at@,
                self.key is Some,
                volumes_of(self.log@.inputs),
            ),
    {
        assemble_manifest(self.created_at, self.key.is_some(), self.finished)
    }
}

proof fn lemma_end(log: StreamLog, finished: Seq<VolumeView>, volume: VolumeView)
    requires
        log.data == log.sent,
        log.regular ==> finished == volumes_of(log.inputs) && volume == volume_of(
            log.name,
            log.sent,
        ) && log.pieces == inputs_chunks(log.inputs) + volume_chunks(log.sent),
    ensures
        log.regular ==> finished.push(volume) == volumes_of(log_end(log).inputs) && log.pieces
            == inputs_chunks(log_end(log).inputs) + volume_chunks(log_end(log).sent),
{
    if log.regular {
        let last = (log.name, log.data);
        lemma_inputs_chunks_push(log.inputs, last);
        assert(finished.push(volume) =~= volumes_of(log.inputs.push(last)));
        assert(volume_chunks(log_end(log).sent) =~= seq![]);
        assert(log.pieces =~= inputs_chunks(log.inputs.push(last)) + volume_chunks(
            log_end(log).sent,
        ));
    }
}

/// A payload of whole chunks is cut as before where one more chunk follows it.
proof fn lemma_chunks_push(data: Seq<u8>, chunk: Seq<u8>)
    requires
        data.len() % (DEFAULT_CHUNK_SIZE as nat) == 0,
        0 < chunk.len() <= DEFAULT_CHUNK_SIZE,
    ensures
        volume_chunks(data + chunk) == volume_chunks(data).push(chunk),
    decreases data.len(),
{
    let size = DEFAULT_CHUNK_SIZE as nat;
    let all = data + chunk;
    if data.len() == 0 {
        assert(all =~= chunk);
        assert(volume_chunks(data) =~= seq![]);
        assert(volume_chunks(all) =~= seq![chunk]);
    } else {
        assert(data.len() >= size);
        let rest = data.skip(size as int);
        lemma_chunks_push(rest, chunk);
        assert(all.take(size as int) =~= data.take(size as int));
        assert(all.skip(size as int) =~= rest + chunk);
        if data.len() == size {
            assert(data.take(size as int) =~= data);
            assert(chunks(rest, size) =~= seq![]);
        }
        assert(volume_chunks(data) =~= seq![data.take(size as int)] + volume_chunks(rest));
        assert(volume_chunks(all) =~= volume_chunks(data).push(chunk));
    }
}

proof fn lemma_put(log: StreamLog, chunk: Seq<u8>, put: ObjectPut)
    requires
        0 < chunk.len() <= DEFAULT_CHUNK_SIZE,
        log.regular ==> log.pieces == inputs_chunks(log.inputs) + volume_chunks(log.sent),
    ensures
        flatten(log_put(log, chunk, put).pieces).len() == flatten(log.pieces).len() + chunk.len(),
        log_put(log, chunk, put).regular ==> log_put(log, chunk, put).pieces == inputs_chunks(
            log.inputs,
        ) + volume_chunks(log.sent + chunk) && record_chunk(
            volume_of(log.name, log.sent),
            blake3_digest(chunk),
            chunk.len(),
        ) == volume_of(log.name, log.sent + chunk),
{
    let next = log_put(log, chunk, put);
    lemma_flatten_concat(log.pieces, seq![chunk]);
    assert(log.pieces + seq![chunk] =~= next.pieces);
    assert(seq![chunk].skip(1) =~= seq![]);
    assert(flatten(seq![chunk].skip(1)) =~= seq![]);
    if next.regular {
        lemma_chunks_push(log.sent, chunk);
        assert(next.pieces =~= inputs_chunks(log.inputs) + volume_chunks(log.sent + chunk));
        assert(ids_of(volume_chunks(log.sent).push(chunk)) =~= ids_of(
            volume_chunks(log.sent),
        ).push(crate::hash::hex(blake3_digest(chunk))));
    }
}

/// A snapshot read as streams is the snapshot of the same payloads held in memory, where both or
/// neither are encrypted: the manifests are equal, the chunks that are stored are the same, in the
/// same order, and what is reported after each chunk never decreases and ends with the bytes of all
/// payloads.
pub proof fn law_streamed_snapshot_matches_buffered(
    streamed: StreamWriter,
    buffered: SnapshotWriter,
)
    requires
        streamed.wf(),
        streamed.current is None,
        streamed.log@.regular,
        buffered.wf(),
        buffered.index == buffered.volumes@.len(),
        streamed.log@.inputs == buffered.inputs(),
        streamed.created_at@ == buffered.created_at@,
        streamed.key is Some == buffered.key is Some,
    ensures
        manifest_of(
            streamed.created_at@,
            streamed.key is Some,
            streamed.finished.deep_view(),
        ) == manifest_of(
            buffered.created_at@,
            buffered.key is Some,
            volumes_of(buffered.inputs()),
        ),
        streamed.log@.pieces == inputs_chunks(buffered.inputs()),
        stores_chunks(
            streamed.log@.objects,
            key_bytes(streamed.key),
            inputs_chunks(buffered.inputs()),
        ),
        stores_chunks(
            buffered.objects@,
            key_bytes(buffered.key),
            inputs_chunks(buffered.inputs()),
        ),
        forall|i: int, j: int|
            0 <= i <= j <= streamed.log@.pieces.len() ==> flatten(
                #[trigger] streamed.log@.pieces.take(i),
            ).len() <= flatten(#[trigger] streamed.log@.pieces.take(j)).len(),
        flatten(streamed.log@.pieces).len() == inputs_total(buffered.inputs()),
{
    let pieces = streamed.log@.pieces;
    let all = inputs_chunks(buffered.inputs());
    assert(streamed.log@.sent =~= seq![]);
    assert(volume_chunks(streamed.log@.sent) =~= seq![]);
    assert(pieces =~= all);
    law_chunks_hold_all_bytes(buffered.inputs());
    assert(buffered.remaining() =~= seq![]);
    assert(all.take(all.len() as int) =~= all);
    assert forall|i: int, j: int| 0 <= i <= j <= pieces.len() implies flatten(
        #[trigger] pieces.take(i),
    ).len() <= flatten(#[trigger] pieces.take(j)).len() by {
        lemma_flatten_prefix_len(pieces.take(j), i);
        assert(pieces.take(j).take(i) =~= pieces.take(i));
    }
}

/// A snapshot read as streams restores: once the objects handed out are stored and the manifest
/// after them, each volume that the manifest records is one that was read, in order, and reads as
/// the payload that its stream delivered.
pub proof fn law_streamed_snapshot_restores(
    streamed: StreamWriter,
    store: Map<Seq<u8>, Seq<u8>>,
    manifest_put: ObjectPut,
    json: Seq<u8>,
)
    requires
        streamed.wf(),
        streamed.current is None,
        streamed.log@.regular,
        streamed.key is None ==> store_agrees(store, None, streamed.log@.pieces),
        no_collision(streamed.log@.pieces),
        stores_manifest(manifest_put, json),
        forall|i: int|
            0 <= i < streamed.log@.pieces.len() && blake3_digest(
                #[trigger] streamed.log@.pieces[i],
            ) == blake3_digest(json) ==> streamed.key is None && streamed.log@.pieces[i] == json,
    ensures
        ({
            let key = key_bytes(streamed.key);
            let inputs = streamed.log@.inputs;
            let volumes = streamed.finished.deep_view();
            let after = stored(stored_all(store, key, streamed.log@.objects), key, manifest_put);
            &&& volumes.len() == inputs.len()
            &&& forall|i: int|
                0 <= i < inputs.len() ==> (#[trigger] volumes[i]).pvc_name == inputs[i].0
                    && volumes[i].bytes == inputs[i].1.len() && materialized(
                    after,
                    key,
                    volumes[i].chunk_ids,
                ) == Some(inputs[i].1)
        }),
{
    let key = key_bytes(streamed.key);
    let inputs = streamed.log@.inputs;
    let volumes = streamed.finished.deep_view();
    let created_at = streamed.created_at@;
    assert(streamed.log@.sent =~= seq![]);
    assert(volume_chunks(streamed.log@.sent) =~= seq![]);
    assert(streamed.log@.pieces =~= inputs_chunks(inputs));
    law_restore_returns_snapshot(
        store,
        key,
        created_at,
        inputs,
        streamed.log@.objects,
        manifest_put,
        json,
    );
    let manifest = manifest_of(created_at, key is Some, volumes_of(inputs));
    assert forall|i: int| 0 <= i < inputs.len() implies (#[trigger] volumes[i]).pvc_name
        == inputs[i].0 && volumes[i].bytes == inputs[i].1.len() && materialized(
        stored(stored_all(store, key, streamed.log@.objects), key, manifest_put),
        key,
        volumes[i].chunk_ids,
    ) == Some(inputs[i].1) by {
        assert(volumes[i] == manifest.volumes[i]);
    }
}

/// The volume and the collected bytes after one more read.
pub open spec fn after_read(volume: VolumeView, buf: Seq<u8>, piece: Seq<u8>) -> (
    VolumeView,
    Seq<u8>,
) {
    let (rest, chunk) = stream_step(buf, piece);
    match chunk {
        Some(c) if c.len() > 0 => (record_chunk(volume, blake3_digest(c), c.len()), rest),
        _ => (volume, rest),
    }
}

/// The volume after all of `reads`.
pub open spec fn after_reads(volume: VolumeView, buf: Seq<u8>, reads: Seq<Seq<u8>>) -> VolumeView
    decreases reads.len(),
{
    if reads.len() == 0 {
        volume
    } else {
        let (v, b) = after_read(volume, buf, reads[0]);
        after_reads(v, b, reads.skip(1))
    }
}

proof fn lemma_after_reads(volume: VolumeView, buf: Seq<u8>, reads: Seq<Seq<u8>>)
    requires
        reads_fit(buf, reads),
    ensures
        after_reads(volume, buf, reads.push(seq![])) == record_all(
            volume,
            stream_chunks(buf, reads),
        ),
    decreases reads.len(),
{
    let all = reads.push(seq![]);
    let (v, b) = after_read(volume, buf, all[0]);
    if reads.len() == 0 {
        assert(buf + all[0] =~= buf);
        assert(all.skip(1) =~= seq![]);
        assert(after_reads(v, b, all.skip(1)) == v);
        if buf.len() > 0 {
            assert(seq![buf].skip(1) =~= seq![]);
            assert(record_all(v, seq![buf].skip(1)) == v);
        }
    } else {
        let step = stream_step(buf, reads[0]);
        assert(all[0] == reads[0]);
        assert(all.skip(1) =~= reads.skip(1).push(seq![]));
        lemma_after_reads(v, b, reads.skip(1));
        if let Some(c) = step.1 {
            let rest = stream_chunks(step.0, reads.skip(1));
            assert((seq![c] + rest).skip(1) =~= rest);
        }
    }
}

/// A volume that was read to its end is recorded as its whole payload, however its stream was cut
/// into reads.
pub proof fn law_streamed_volume_is_the_payload(pvc_name: Seq<char>, reads: Seq<Seq<u8>>)
    requires
        reads_fit(seq![], reads),
    ensures
        after_reads(volume_of(pvc_name, seq![]), seq![], reads.push(seq![])) == volume_of(
            pvc_name,
            flatten(reads),
        ),
{
    lemma_after_reads(volume_of(pvc_name, seq![]), seq![], reads);
    law_stream_ingest_matches_buffered(pvc_name, reads);
}

/// The error for a stream that could not be read.
pub fn read_failed(source: &str) -> (res: CoreError)
    ensures
        res matches CoreError::InvalidArgument(m) && m@ == "volume stream read failed: "@ + source@,
{
    CoreError::InvalidArgument(String::from_str("volume stream read failed: ").concat(source))
}

/// The error for a stream that could not be written.
pub fn write_failed(source: &str) -> (res: CoreError)
    ensures
        res matches CoreError::InvalidArgument(m) && m@ == "volume stream write failed: "@
            + source@,
{
    CoreError::InvalidArgument(String::from_str("volume stream write failed: ").concat(source))
}

/// The error for a stream that could not be flushed.
pub fn flush_failed(source: &str) -> (res: CoreError)
    ensures
        res matches CoreError::InvalidArgument(m) && m@ == "volume stream flush failed: "@
            + source@,
{
    CoreError::InvalidArgument(String::from_str("volume stream flush failed: ").concat(source))
}

} // verus!
