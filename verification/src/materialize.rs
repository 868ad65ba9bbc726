//! Reading a volume back from the store, and what a restore owes to the backup it reads.
use crate::chunking::{flatten, law_chunks_flatten_to_data, DEFAULT_CHUNK_SIZE};
use crate::crypto::{decrypt, Ciphertext, EncryptionKey, NONCE_LEN, TAG_LEN};
use crate::error::{CoreError, CoreResult};
use crate::hash::{
    blake3_digest, hex, invalid_id_text, is_id_hex, law_hex_round_trip, unhex, ContentId, ID_LEN,
};
use crate::pipeline::{
    gives_way, holds_chunk, ids_of, inputs_chunks, key_bytes, lemma_flatten_take, loaded_manifest,
    read_back, stores_chunk, stores_chunks, stores_manifest, volume_chunks, volume_of, volumes_of,
    ObjectPut,
};
use crate::snapshot::{
    manifest_of, ManifestView, SnapshotManifest, VolumeSnapshot, VolumeView, MANIFEST_VERSION,
};
use crate::text::{decimal, decimal_text};
use vstd::prelude::*;

verus! {

/// The error text for a volume whose chunks do not add up to the recorded size.
pub open spec fn size_mismatch_text(written: nat, volume: VolumeView) -> Seq<char> {
    "materialized "@ + decimal(written) + " bytes for pvc '"@ + volume.pvc_name
        + "', manifest recorded "@ + decimal(volume.bytes)
}

/// Reads the chunks of one volume back, in order.
pub struct VolumeReader {
    pub next: usize,
    pub written: u64,
}

/// Whether the object with the given id is what the reader fetches next.
pub open spec fn fetches(reader: VolumeReader, volume: VolumeView, id: Seq<u8>) -> bool {
    &&& reader.next < volume.chunk_ids.len()
    &&& is_id_hex(volume.chunk_ids[reader.next as int])
    &&& id == unhex(volume.chunk_ids[reader.next as int])
}

/// Whether taking the object `stored` brings the reader from `before` to `after` and gives `plain`.
pub open spec fn accepts(
    before: VolumeReader,
    key: Option<Seq<u8>>,
    stored: Seq<u8>,
    after: VolumeReader,
    plain: Seq<u8>,
) -> bool {
    &&& read_back(key, stored) == Some(plain)
    &&& key is Some ==> stored.len() == plain.len() + NONCE_LEN + TAG_LEN
    &&& after.next == before.next + 1
    &&& after.written == before.written + plain.len()
}

impl VolumeReader {
    /// A reader before the first chunk.
    pub fn new() -> (res: Self)
        ensures
            res.next == 0,
            res.written == 0,
    {
        VolumeReader { next: 0, written: 0 }
    }

    /// The object to fetch next, or nothing once every chunk was fetched.
    pub fn next_id(&self, volume: &VolumeSnapshot) -> (res: CoreResult<Option<ContentId>>)
        ensures
            match res {
                Ok(Some(id)) => fetches(*self, volume.deep_view(), id@),
                Ok(None) => self.next >= volume.chunk_ids@.len(),
                Err(e) => self.next < volume.chunk_ids@.len() && !is_id_hex(
                    volume.chunk_ids@[self.next as int]@,
                ) && (e matches CoreError::InvalidArgument(m) && m@ == invalid_id_text(
                    volume.chunk_ids@[self.next as int]@,
                )),
            },
    {
        if self.next < volume.chunk_ids.len() {
            match ContentId::from_hex(volume.chunk_ids[self.next].as_str()) {
                Ok(id) => Ok(Some(id)),
                Err(e) => Err(e),
            }
        } else {
            Ok(None)
        }
    }

    /// Takes the object that was fetched and returns the plaintext to write.
    pub fn accept(&mut self, key: Option<&EncryptionKey>, stored: Vec<u8>) -> (res: CoreResult<
        Vec<u8>,
    >)
        requires
            old(self).next < usize::MAX,
            old(self).written + stored@.len() <= u64::MAX,
        ensures
            match res {
                Ok(plain) => accepts(*old(self), key_bytes(key), stored@, *final(self), plain@),
                Err(e) => read_back(key_bytes(key), stored@) is None && *final(self) == *old(self)
                    && (e matches CoreError::Crypto(m) && m@ == "decryption failed"@),
            },
    {
        let plain = match key {
            Some(k) => match decrypt(k, &Ciphertext { blob: stored }) {
                Ok(p) => p,
                Err(e) => {
                    return Err(e);
                },
            },
            None => stored,
        };
        self.next = self.next + 1;
        self.written = self.written + plain.len() as u64;
        Ok(plain)
    }

    /// Checks, once everything is written, that the size is the recorded one.
    pub fn finish(&self, volume: &VolumeSnapshot) -> (res: CoreResult<u64>)
        requires
            self.next >= volume.chunk_ids@.len(),
        ensures
            match res {
                Ok(n) => n == self.written && self.written == volume.bytes,
                Err(e) => self.written != volume.bytes && (e matches CoreError::InvalidArgument(m)
                    && m@ == size_mismatch_text(self.written as nat, volume.deep_view())),
            },
    {
        if self.written != volume.bytes {
            return Err(
                CoreError::InvalidArgument(
                    String::from_str("materialized ").concat(
                        decimal_text(self.written).as_str(),
                    ).concat(" bytes for pvc '").concat(volume.pvc_name.as_str()).concat(
                        "', manifest recorded ",
                    ).concat(decimal_text(volume.bytes).as_str()),
                ),
            );
        }
        Ok(self.written)
    }
}

/// What the chunks with the given ids read as, one after the other; nothing where an id is
/// malformed, an object is missing or the key does not open it.
pub open spec fn materialized(
    store: Map<Seq<u8>, Seq<u8>>,
    key: Option<Seq<u8>>,
    ids: Seq<Seq<char>>,
) -> Option<Seq<u8>>
    decreases ids.len(),
{
    if ids.len() == 0 {
        Some(seq![])
    } else if !is_id_hex(ids[0]) || !store.contains_key(unhex(ids[0])) {
        None
    } else {
        match (read_back(key, store[unhex(ids[0])]), materialized(store, key, ids.skip(1))) {
            (Some(plain), Some(rest)) => Some(plain + rest),
            _ => None,
        }
    }
}

/// The store after one put: what is already stored stays unless it gives way.
pub open spec fn stored(
    store: Map<Seq<u8>, Seq<u8>>,
    key: Option<Seq<u8>>,
    put: ObjectPut,
) -> Map<Seq<u8>, Seq<u8>> {
    if store.contains_key(put.id@) && !gives_way(put, key, store[put.id@]) {
        store
    } else {
        store.insert(put.id@, put.payload@)
    }
}

/// The store after all puts, in order.
pub open spec fn stored_all(
    store: Map<Seq<u8>, Seq<u8>>,
    key: Option<Seq<u8>>,
    puts: Seq<ObjectPut>,
) -> Map<Seq<u8>, Seq<u8>>
    decreases puts.len(),
{
    if puts.len() == 0 {
        store
    } else {
        stored(stored_all(store, key, puts.drop_last()), key, puts.last())
    }
}

/// Whether what the store already holds under the ids of `pieces` reads as those pieces.
pub open spec fn store_agrees(
    store: Map<Seq<u8>, Seq<u8>>,
    key: Option<Seq<u8>>,
    pieces: Seq<Seq<u8>>,
) -> bool {
    forall|i: int|
        #![trigger pieces[i]]
        0 <= i < pieces.len() && store.contains_key(blake3_digest(pieces[i])) ==> read_back(
            key,
            store[blake3_digest(pieces[i])],
        ) == Some(pieces[i])
}

/// Whether the store holds every one of `pieces` under its digest, sealed where a key is set.
pub open spec fn chunks_held(
    store: Map<Seq<u8>, Seq<u8>>,
    key: Option<Seq<u8>>,
    pieces: Seq<Seq<u8>>,
) -> bool {
    forall|i: int|
        #![trigger pieces[i]]
        0 <= i < pieces.len() ==> blake3_digest(pieces[i]).len() == ID_LEN && store.contains_key(
            blake3_digest(pieces[i]),
        ) && holds_chunk(key, store[blake3_digest(pieces[i])], pieces[i])
}

/// Whether no two different pieces have the same digest.
pub open spec fn no_collision(pieces: Seq<Seq<u8>>) -> bool {
    forall|i: int, j: int|
        #![trigger pieces[i], pieces[j]]
        0 <= i < pieces.len() && 0 <= j < pieces.len() && blake3_digest(pieces[i])
            == blake3_digest(pieces[j]) ==> pieces[i] == pieces[j]
}

proof fn lemma_stored_all_holds(
    store: Map<Seq<u8>, Seq<u8>>,
    key: Option<Seq<u8>>,
    pieces: Seq<Seq<u8>>,
    puts: Seq<ObjectPut>,
    n: int,
)
    requires
        0 <= n <= puts.len(),
        stores_chunks(puts, key, pieces),
        key is None ==> store_agrees(store, key, pieces),
        no_collision(pieces),
    ensures
        key is None ==> store_agrees(stored_all(store, key, puts.take(n)), key, pieces),
        chunks_held(stored_all(store, key, puts.take(n)), key, pieces.take(n)),
    decreases n,
{
    if n == 0 {
        assert(puts.take(0) =~= seq![]);
    } else {
        lemma_stored_all_holds(store, key, pieces, puts, n - 1);
        let before = stored_all(store, key, puts.take(n - 1));
        assert(puts.take(n).drop_last() =~= puts.take(n - 1));
        assert(puts.take(n).last() == puts[n - 1]);
        assert(stores_chunk(puts[n - 1], key, pieces[n - 1]));
        assert(puts[n - 1].id@.len() == ID_LEN);
        let after = stored_all(store, key, puts.take(n));
        let id = puts[n - 1].id@;
        assert(after.contains_key(id) && holds_chunk(key, after[id], pieces[n - 1]));
        assert forall|i: int|
            #![trigger pieces[i]]
            key is None && 0 <= i < pieces.len() && after.contains_key(
                blake3_digest(pieces[i]),
            ) implies read_back(key, after[blake3_digest(pieces[i])]) == Some(pieces[i]) by {
            if blake3_digest(pieces[i]) == id {
                assert(pieces[i] == pieces[n - 1]);
            }
        }
        assert forall|i: int|
            #![trigger pieces.take(n)[i]]
            0 <= i < n implies blake3_digest(pieces.take(n)[i]).len() == ID_LEN
            && after.contains_key(blake3_digest(pieces.take(n)[i])) && holds_chunk(
            key,
            after[blake3_digest(pieces.take(n)[i])],
            pieces.take(n)[i],
        ) by {
            if blake3_digest(pieces[i]) == id {
                assert(pieces[i] == pieces[n - 1]);
            } else {
                assert(pieces.take(n - 1)[i] == pieces[i]);
            }
        }
    }
}

proof fn lemma_materialized_holds(
    store: Map<Seq<u8>, Seq<u8>>,
    key: Option<Seq<u8>>,
    pieces: Seq<Seq<u8>>,
)
    requires
        chunks_held(store, key, pieces),
    ensures
        materialized(store, key, ids_of(pieces)) == Some(flatten(pieces)),
    decreases pieces.len(),
{
    if pieces.len() > 0 {
        let rest = pieces.skip(1);
        assert forall|i: int|
            #![trigger rest[i]]
            0 <= i < rest.len() implies blake3_digest(rest[i]).len() == ID_LEN
            && store.contains_key(blake3_digest(rest[i])) && holds_chunk(
            key,
            store[blake3_digest(rest[i])],
            rest[i],
        ) by {
            assert(rest[i] == pieces[i + 1]);
        }
        lemma_materialized_holds(store, key, rest);
        assert(ids_of(pieces).skip(1) =~= ids_of(rest));
        assert(blake3_digest(pieces[0]).len() == ID_LEN);
        law_hex_round_trip(blake3_digest(pieces[0]));
    }
}

/// Once chunks are stored, the store holds every one of them. It rests on two things that cannot
/// be checked: no two chunks share a digest, and, where no key is set, a blob that was already
/// there is the chunk it is taken for. Under a key, whatever was there before, every chunk reads
/// back with that key and none lies there in plain.
pub proof fn law_ingest_stores_every_chunk(
    store: Map<Seq<u8>, Seq<u8>>,
    key: Option<Seq<u8>>,
    pieces: Seq<Seq<u8>>,
    puts: Seq<ObjectPut>,
)
    requires
        stores_chunks(puts, key, pieces),
        key is None ==> store_agrees(store, key, pieces),
        no_collision(pieces),
    ensures
        chunks_held(stored_all(store, key, puts), key, pieces),
        key is Some ==> forall|i: int|
            0 <= i < pieces.len() ==> stored_all(store, key, puts)[blake3_digest(
                #[trigger] pieces[i],
            )] != pieces[i],
{
    lemma_stored_all_holds(store, key, pieces, puts, puts.len() as int);
    assert(puts.take(puts.len() as int) =~= puts);
    assert(pieces.take(puts.len() as int) =~= pieces);
}

/// A restore gives back what was backed up: once the chunks of `data` are stored, the recorded
/// ids read as `data` and its size is the recorded one.
pub proof fn law_restore_returns_backup(
    store: Map<Seq<u8>, Seq<u8>>,
    key: Option<Seq<u8>>,
    pvc_name: Seq<char>,
    data: Seq<u8>,
    puts: Seq<ObjectPut>,
)
    requires
        stores_chunks(puts, key, volume_chunks(data)),
        key is None ==> store_agrees(store, key, volume_chunks(data)),
        no_collision(volume_chunks(data)),
    ensures
        materialized(
            stored_all(store, key, puts),
            key,
            volume_of(pvc_name, data).chunk_ids,
        ) == Some(data),
        volume_of(pvc_name, data).bytes == data.len(),
{
    let pieces = volume_chunks(data);
    law_ingest_stores_every_chunk(store, key, pieces, puts);
    lemma_materialized_holds(stored_all(store, key, puts), key, pieces);
    law_chunks_flatten_to_data(data, DEFAULT_CHUNK_SIZE as nat);
}

proof fn lemma_volume_held(
    store: Map<Seq<u8>, Seq<u8>>,
    key: Option<Seq<u8>>,
    inputs: Seq<(Seq<char>, Seq<u8>)>,
    i: int,
)
    requires
        chunks_held(store, key, inputs_chunks(inputs)),
        0 <= i < inputs.len(),
    ensures
        chunks_held(store, key, volume_chunks(inputs[i].1)),
    decreases inputs.len(),
{
    let pieces = inputs_chunks(inputs);
    let first = volume_chunks(inputs[0].1);
    let rest = inputs_chunks(inputs.skip(1));
    if i == 0 {
        assert forall|k: int|
            #![trigger first[k]]
            0 <= k < first.len() implies blake3_digest(first[k]).len() == ID_LEN
            && store.contains_key(blake3_digest(first[k])) && holds_chunk(
            key,
            store[blake3_digest(first[k])],
            first[k],
        ) by {
            assert(pieces[k] == first[k]);
        }
    } else {
        assert forall|k: int|
            #![trigger rest[k]]
            0 <= k < rest.len() implies blake3_digest(rest[k]).len() == ID_LEN
            && store.contains_key(blake3_digest(rest[k])) && holds_chunk(
            key,
            store[blake3_digest(rest[k])],
            rest[k],
        ) by {
            assert(pieces[first.len() + k] == rest[k]);
        }
        lemma_volume_held(store, key, inputs.skip(1), i - 1);
    }
}

/// A snapshot of several volumes restores: once its chunks are stored and its manifest after them,
/// the manifest records every volume under its name and size, in order, and says whether a key was
/// set; and each volume reads, with that key, as its payload. An encrypted chunk must not be the
/// manifest itself, which is stored in plain under the same digest.
pub proof fn law_restore_returns_snapshot(
    store: Map<Seq<u8>, Seq<u8>>,
    key: Option<Seq<u8>>,
    created_at: Seq<char>,
    inputs: Seq<(Seq<char>, Seq<u8>)>,
    puts: Seq<ObjectPut>,
    manifest_put: ObjectPut,
    json: Seq<u8>,
)
    requires
        stores_chunks(puts, key, inputs_chunks(inputs)),
        key is None ==> store_agrees(store, key, inputs_chunks(inputs)),
        no_collision(inputs_chunks(inputs)),
        stores_manifest(manifest_put, json),
        forall|i: int|
            0 <= i < inputs_chunks(inputs).len() && blake3_digest(
                #[trigger] inputs_chunks(inputs)[i],
            ) == blake3_digest(json) ==> key is None && inputs_chunks(inputs)[i] == json,
    ensures
        ({
            let chunked = stored_all(store, key, puts);
            let sealed = stored(chunked, key, manifest_put);
            let manifest = manifest_of(created_at, key is Some, volumes_of(inputs));
            &&& manifest.encrypted == (key is Some)
            &&& manifest.volumes.len() == inputs.len()
            &&& sealed.contains_key(blake3_digest(json)) && sealed[blake3_digest(json)] == json
            &&& forall|i: int|
                0 <= i < inputs.len() ==> {
                    let volume = #[trigger] manifest.volumes[i];
                    &&& volume.pvc_name == inputs[i].0
                    &&& volume.bytes == inputs[i].1.len()
                    &&& materialized(chunked, key, volume.chunk_ids) == Some(inputs[i].1)
                    &&& materialized(sealed, key, volume.chunk_ids) == Some(inputs[i].1)
                }
        }),
{
    let pieces = inputs_chunks(inputs);
    let chunked = stored_all(store, key, puts);
    let sealed = stored(chunked, key, manifest_put);
    let manifest = manifest_of(created_at, key is Some, volumes_of(inputs));
    law_ingest_stores_every_chunk(store, key, pieces, puts);
    assert(chunks_held(sealed, key, pieces));
    assert forall|i: int| 0 <= i < inputs.len() implies {
        let volume = #[trigger] manifest.volumes[i];
        &&& volume.pvc_name == inputs[i].0
        &&& volume.bytes == inputs[i].1.len()
        &&& materialized(chunked, key, volume.chunk_ids) == Some(inputs[i].1)
        &&& materialized(sealed, key, volume.chunk_ids) == Some(inputs[i].1)
    } by {
        let data = inputs[i].1;
        assert(manifest.volumes[i] == volume_of(inputs[i].0, data));
        lemma_volume_held(chunked, key, inputs, i);
        lemma_volume_held(sealed, key, inputs, i);
        lemma_materialized_holds(chunked, key, volume_chunks(data));
        lemma_materialized_holds(sealed, key, volume_chunks(data));
        law_chunks_flatten_to_data(data, DEFAULT_CHUNK_SIZE as nat);
    }
}

/// Whether one step of a restore fetched the next object of `volume` from the store and took it.
pub open spec fn read_step(
    store: Map<Seq<u8>, Seq<u8>>,
    key: Option<Seq<u8>>,
    volume: VolumeView,
    before: VolumeReader,
    after: VolumeReader,
    plain: Seq<u8>,
) -> bool {
    let id = unhex(volume.chunk_ids[before.next as int]);
    &&& fetches(before, volume, id)
    &&& store.contains_key(id)
    &&& accepts(before, key, store[id], after, plain)
}

/// Whether `readers` are the states of a reader of `volume`, from its start, that gave `plains`.
pub open spec fn read_ran(
    store: Map<Seq<u8>, Seq<u8>>,
    key: Option<Seq<u8>>,
    volume: VolumeView,
    readers: Seq<VolumeReader>,
    plains: Seq<Seq<u8>>,
) -> bool {
    &&& readers.len() == plains.len() + 1
    &&& readers[0].next == 0
    &&& readers[0].written == 0
    &&& forall|k: int|
        0 <= k < plains.len() ==> read_step(
            store,
            key,
            volume,
            readers[k],
            readers[k + 1],
            #[trigger] plains[k],
        )
}

proof fn lemma_materialized_push(
    store: Map<Seq<u8>, Seq<u8>>,
    key: Option<Seq<u8>>,
    ids: Seq<Seq<char>>,
    last: Seq<char>,
)
    ensures
        materialized(store, key, ids.push(last)) == match (
            materialized(store, key, ids),
            materialized(store, key, seq![last]),
        ) {
            (Some(a), Some(b)) => Some(a + b),
            _ => None,
        },
    decreases ids.len(),
{
    let all = ids.push(last);
    if ids.len() == 0 {
        assert(all =~= seq![last]);
        if let Some(b) = materialized(store, key, seq![last]) {
            assert(Seq::<u8>::empty() + b =~= b);
        }
    } else {
        lemma_materialized_push(store, key, ids.skip(1), last);
        assert(all.skip(1) =~= ids.skip(1).push(last));
        if let (Some(a), Some(r), Some(b)) = (
            read_back(key, store[unhex(ids[0])]),
            materialized(store, key, ids.skip(1)),
            materialized(store, key, seq![last]),
        ) {
            assert(a + (r + b) =~= (a + r) + b);
        }
    }
}

proof fn lemma_read_ran(
    store: Map<Seq<u8>, Seq<u8>>,
    key: Option<Seq<u8>>,
    volume: VolumeView,
    readers: Seq<VolumeReader>,
    plains: Seq<Seq<u8>>,
    n: int,
)
    requires
        read_ran(store, key, volume, readers, plains),
        0 <= n <= plains.len(),
    ensures
        n <= volume.chunk_ids.len(),
        readers[n].next == n,
        readers[n].written == flatten(plains.take(n)).len(),
        materialized(store, key, volume.chunk_ids.take(n)) == Some(flatten(plains.take(n))),
    decreases n,
{
    if n == 0 {
        assert(plains.take(0) =~= seq![]);
        assert(volume.chunk_ids.take(0) =~= seq![]);
    } else {
        lemma_read_ran(store, key, volume, readers, plains, n - 1);
        let plain = plains[n - 1];
        assert(read_step(store, key, volume, readers[n - 1], readers[n - 1 + 1], plain));
        lemma_flatten_take(plains, n - 1);
        let id = volume.chunk_ids[n - 1];
        assert(volume.chunk_ids.take(n) =~= volume.chunk_ids.take(n - 1).push(id));
        lemma_materialized_push(store, key, volume.chunk_ids.take(n - 1), id);
        assert(seq![id].skip(1) =~= seq![]);
        assert(materialized(store, key, seq![id].skip(1)) == Some(Seq::<u8>::empty()));
        assert(plain + Seq::<u8>::empty() =~= plain);
    }
}

/// What a reader gives, step by step, is what the chunks fetched so far read as, and it counts the
/// bytes; once every chunk was fetched, that is the whole volume.
pub proof fn law_reader_materializes_the_volume(
    store: Map<Seq<u8>, Seq<u8>>,
    key: Option<Seq<u8>>,
    volume: VolumeView,
    readers: Seq<VolumeReader>,
    plains: Seq<Seq<u8>>,
)
    requires
        read_ran(store, key, volume, readers, plains),
    ensures
        plains.len() <= volume.chunk_ids.len(),
        readers.last().next == plains.len(),
        readers.last().written == flatten(plains).len(),
        materialized(store, key, volume.chunk_ids.take(plains.len() as int)) == Some(
            flatten(plains),
        ),
        plains.len() == volume.chunk_ids.len() ==> materialized(store, key, volume.chunk_ids)
            == Some(flatten(plains)),
{
    let n = plains.len() as int;
    lemma_read_ran(store, key, volume, readers, plains, n);
    assert(plains.take(n) =~= plains);
    if n == volume.chunk_ids.len() {
        assert(volume.chunk_ids.take(n) =~= volume.chunk_ids);
    }
}

proof fn lemma_mismatch_shifts_size(
    store: Map<Seq<u8>, Seq<u8>>,
    sealed_with: Option<Seq<u8>>,
    read_with: Option<Seq<u8>>,
    volume: VolumeView,
    pieces: Seq<Seq<u8>>,
    readers: Seq<VolumeReader>,
    plains: Seq<Seq<u8>>,
    n: int,
)
    requires
        sizes_held(store, sealed_with, pieces),
        volume.chunk_ids == ids_of(pieces),
        read_ran(store, read_with, volume, readers, plains),
        sealed_with is Some != read_with is Some,
        0 <= n <= plains.len(),
    ensures
        n <= pieces.len(),
        sealed_with is Some ==> readers[n].written == flatten(pieces.take(n)).len() + n * (NONCE_LEN
            + TAG_LEN),
        read_with is Some ==> readers[n].written == flatten(pieces.take(n)).len() - n * (NONCE_LEN
            + TAG_LEN),
    decreases n,
{
    if n == 0 {
        assert(pieces.take(0) =~= seq![]);
    } else {
        lemma_mismatch_shifts_size(
            store,
            sealed_with,
            read_with,
            volume,
            pieces,
            readers,
            plains,
            n - 1,
        );
        lemma_read_ran(store, read_with, volume, readers, plains, n - 1);
        let plain = plains[n - 1];
        assert(read_step(store, read_with, volume, readers[n - 1], readers[n - 1 + 1], plain));
        let piece = pieces[n - 1];
        let id = blake3_digest(piece);
        assert(volume.chunk_ids[n - 1] == hex(id));
        assert(id.len() == ID_LEN);
        law_hex_round_trip(id);
        assert(store[id].len() == stored_size(sealed_with, piece));
        lemma_flatten_take(pieces, n - 1);
    }
}

/// The size of the blob that holds `piece`: under a key it is longer by a nonce and a tag.
pub open spec fn stored_size(key: Option<Seq<u8>>, piece: Seq<u8>) -> nat {
    match key {
        Some(_) => piece.len() + NONCE_LEN as nat + TAG_LEN as nat,
        None => piece.len(),
    }
}

/// Whether the store holds blobs of the right sizes under the digests of `pieces`.
pub open spec fn sizes_held(
    store: Map<Seq<u8>, Seq<u8>>,
    key: Option<Seq<u8>>,
    pieces: Seq<Seq<u8>>,
) -> bool {
    forall|i: int|
        #![trigger pieces[i]]
        0 <= i < pieces.len() ==> blake3_digest(pieces[i]).len() == ID_LEN && store.contains_key(
            blake3_digest(pieces[i]),
        ) && store[blake3_digest(pieces[i])].len() == stored_size(key, pieces[i])
}

/// Whether what the store already holds under the digests of `pieces` is of their sizes.
pub open spec fn sizes_agree(store: Map<Seq<u8>, Seq<u8>>, pieces: Seq<Seq<u8>>) -> bool {
    forall|i: int|
        #![trigger pieces[i]]
        0 <= i < pieces.len() && store.contains_key(blake3_digest(pieces[i]))
            ==> store[blake3_digest(pieces[i])].len() == pieces[i].len()
}

/// Whether no two pieces of different sizes have the same digest.
pub open spec fn no_size_clash(pieces: Seq<Seq<u8>>) -> bool {
    forall|i: int, j: int|
        #![trigger pieces[i], pieces[j]]
        0 <= i < pieces.len() && 0 <= j < pieces.len() && blake3_digest(pieces[i])
            == blake3_digest(pieces[j]) ==> pieces[i].len() == pieces[j].len()
}

proof fn lemma_sizes_held(
    store: Map<Seq<u8>, Seq<u8>>,
    key: Option<Seq<u8>>,
    pieces: Seq<Seq<u8>>,
    puts: Seq<ObjectPut>,
    n: int,
)
    requires
        0 <= n <= puts.len(),
        stores_chunks(puts, key, pieces),
        key is None ==> sizes_agree(store, pieces),
        no_size_clash(pieces),
    ensures
        key is None ==> sizes_agree(stored_all(store, key, puts.take(n)), pieces),
        sizes_held(stored_all(store, key, puts.take(n)), key, pieces.take(n)),
    decreases n,
{
    if n == 0 {
        assert(puts.take(0) =~= seq![]);
    } else {
        lemma_sizes_held(store, key, pieces, puts, n - 1);
        assert(puts.take(n).drop_last() =~= puts.take(n - 1));
        assert(puts.take(n).last() == puts[n - 1]);
        assert(stores_chunk(puts[n - 1], key, pieces[n - 1]));
        assert(puts[n - 1].id@.len() == ID_LEN);
        let after = stored_all(store, key, puts.take(n));
        let id = puts[n - 1].id@;
        assert(after.contains_key(id) && after[id].len() == stored_size(key, pieces[n - 1]));
        assert forall|i: int|
            #![trigger pieces[i]]
            key is None && 0 <= i < pieces.len() && after.contains_key(
                blake3_digest(pieces[i]),
            ) implies after[blake3_digest(pieces[i])].len() == pieces[i].len() by {
            if blake3_digest(pieces[i]) == id {
                assert(pieces[i].len() == pieces[n - 1].len());
            }
        }
        assert forall|i: int|
            #![trigger pieces.take(n)[i]]
            0 <= i < n implies blake3_digest(pieces.take(n)[i]).len() == ID_LEN
            && after.contains_key(blake3_digest(pieces.take(n)[i])) && after[blake3_digest(
            pieces.take(n)[i],
        )].len() == stored_size(key, pieces.take(n)[i]) by {
            if blake3_digest(pieces[i]) == id {
                assert(pieces[i].len() == pieces[n - 1].len());
            } else {
                assert(pieces.take(n - 1)[i] == pieces[i]);
            }
        }
    }
}

/// A restore that sets a key for a snapshot that was stored in plain, or none for one that was
/// encrypted, never ends well: where a volume has content and the reader got through all of its
/// chunks, the size that it counted is not the recorded one.
pub proof fn law_mismatched_encryption_never_restores(
    store: Map<Seq<u8>, Seq<u8>>,
    sealed_with: Option<Seq<u8>>,
    read_with: Option<Seq<u8>>,
    pvc_name: Seq<char>,
    data: Seq<u8>,
    readers: Seq<VolumeReader>,
    plains: Seq<Seq<u8>>,
)
    requires
        data.len() > 0,
        sizes_held(store, sealed_with, volume_chunks(data)),
        read_ran(store, read_with, volume_of(pvc_name, data), readers, plains),
        plains.len() == volume_of(pvc_name, data).chunk_ids.len(),
        sealed_with is Some != read_with is Some,
    ensures
        readers.last().written != volume_of(pvc_name, data).bytes,
{
    let pieces = volume_chunks(data);
    let n = pieces.len() as int;
    lemma_mismatch_shifts_size(
        store,
        sealed_with,
        read_with,
        volume_of(pvc_name, data),
        pieces,
        readers,
        plains,
        n,
    );
    assert(pieces.take(n) =~= pieces);
    law_chunks_flatten_to_data(data, DEFAULT_CHUNK_SIZE as nat);
    assert(n > 0);
}

/// What was just backed up is never read with the wrong presence of a key: whatever was stored
/// before under a key, and without one where that was of the sizes of the chunks, as in an empty
/// store. The one exception is a payload whose last, shorter chunk shares its digest with another.
pub proof fn law_mismatched_encryption_never_restores_a_backup(
    store: Map<Seq<u8>, Seq<u8>>,
    sealed_with: Option<Seq<u8>>,
    read_with: Option<Seq<u8>>,
    pvc_name: Seq<char>,
    data: Seq<u8>,
    puts: Seq<ObjectPut>,
    readers: Seq<VolumeReader>,
    plains: Seq<Seq<u8>>,
)
    requires
        data.len() > 0,
        stores_chunks(puts, sealed_with, volume_chunks(data)),
        sealed_with is None ==> sizes_agree(store, volume_chunks(data)),
        no_size_clash(volume_chunks(data)),
        read_ran(
            stored_all(store, sealed_with, puts),
            read_with,
            volume_of(pvc_name, data),
            readers,
            plains,
        ),
        plains.len() == volume_of(pvc_name, data).chunk_ids.len(),
        sealed_with is Some != read_with is Some,
    ensures
        readers.last().written != volume_of(pvc_name, data).bytes,
{
    let pieces = volume_chunks(data);
    let after = stored_all(store, sealed_with, puts);
    lemma_sizes_held(store, sealed_with, pieces, puts, puts.len() as int);
    assert(puts.take(puts.len() as int) =~= puts);
    assert(pieces.take(puts.len() as int) =~= pieces);
    law_mismatched_encryption_never_restores(
        after,
        sealed_with,
        read_with,
        pvc_name,
        data,
        readers,
        plains,
    );
}

/// A chunk that the key does not open stops the restore: no reader gets past it, and the volume
/// reads as nothing.
pub proof fn law_unopened_chunk_stops_the_restore(
    store: Map<Seq<u8>, Seq<u8>>,
    key: Option<Seq<u8>>,
    volume: VolumeView,
    readers: Seq<VolumeReader>,
    plains: Seq<Seq<u8>>,
    i: int,
)
    requires
        0 <= i < volume.chunk_ids.len(),
        read_back(key, store[unhex(volume.chunk_ids[i])]) is None,
        read_ran(store, key, volume, readers, plains),
    ensures
        plains.len() <= i,
        materialized(store, key, volume.chunk_ids) is None,
{
    if plains.len() > i {
        lemma_read_ran(store, key, volume, readers, plains, i);
        assert(read_step(store, key, volume, readers[i], readers[i + 1], plains[i]));
    }
    lemma_unread_chunk(store, key, volume.chunk_ids, i);
}

proof fn lemma_unread_chunk(
    store: Map<Seq<u8>, Seq<u8>>,
    key: Option<Seq<u8>>,
    ids: Seq<Seq<char>>,
    i: int,
)
    requires
        0 <= i < ids.len(),
        read_back(key, store[unhex(ids[i])]) is None,
    ensures
        materialized(store, key, ids) is None,
    decreases ids.len(),
{
    if i > 0 {
        lemma_unread_chunk(store, key, ids.skip(1), i - 1);
    }
}

proof fn lemma_gives_way(put: ObjectPut, key: Option<Seq<u8>>, piece: Seq<u8>, blob: Seq<u8>)
    requires
        stores_chunk(put, key, piece),
    ensures
        gives_way(put, key, blob) <==> key is Some && !holds_chunk(key, blob, piece),
{
}

/// Chunk puts add no object but the chunks, and leave what is already stored alone. The one
/// exception is under a key: an object that does not hold, sealed with it, the chunk of that id.
pub proof fn law_ingest_leaves_stored_objects_alone(
    store: Map<Seq<u8>, Seq<u8>>,
    key: Option<Seq<u8>>,
    pieces: Seq<Seq<u8>>,
    puts: Seq<ObjectPut>,
    id: Seq<u8>,
)
    requires
        stores_chunks(puts, key, pieces),
    ensures
        store.contains_key(id) ==> stored_all(store, key, puts).contains_key(id),
        store.contains_key(id) && (key is None || forall|i: int|
            0 <= i < pieces.len() && blake3_digest(#[trigger] pieces[i]) == id ==> holds_chunk(
                key,
                store[id],
                pieces[i],
            )) ==> stored_all(store, key, puts)[id] == store[id],
        stored_all(store, key, puts).contains_key(id) ==> store.contains_key(id) || exists|i: int|
            0 <= i < pieces.len() && blake3_digest(#[trigger] pieces[i]) == id,
    decreases puts.len(),
{
    if puts.len() > 0 {
        let p = puts.drop_last();
        let c = pieces.drop_last();
        assert forall|i: int| 0 <= i < p.len() implies stores_chunk(#[trigger] p[i], key, c[i]) by {
            assert(stores_chunk(puts[i], key, pieces[i]));
        }
        law_ingest_leaves_stored_objects_alone(store, key, c, p, id);
        let n = puts.len() - 1;
        assert(stores_chunk(puts[n], key, pieces[n]));
        let before = stored_all(store, key, p);
        lemma_gives_way(puts[n], key, pieces[n], before[puts[n].id@]);
        if store.contains_key(id) && (key is None || forall|i: int|
            0 <= i < pieces.len() && blake3_digest(#[trigger] pieces[i]) == id ==> holds_chunk(
                key,
                store[id],
                pieces[i],
            )) {
            assert forall|i: int|
                0 <= i < c.len() && blake3_digest(#[trigger] c[i]) == id && key is Some
                implies holds_chunk(key, store[id], c[i]) by {
                assert(c[i] == pieces[i]);
            }
            assert(before[id] == store[id]);
        }
        if stored_all(store, key, puts).contains_key(id) && !store.contains_key(id) {
            if before.contains_key(id) {
                let i = choose|i: int| 0 <= i < c.len() && blake3_digest(#[trigger] c[i]) == id;
                assert(pieces[i] == c[i]);
            } else {
                assert(blake3_digest(pieces[n]) == id);
            }
        }
    }
}

/// Backing the same content up again stores no new object, whatever the keys are. Under the same
/// key no object reads otherwise than before; and none changes at all, unless under a key two
/// different chunks share a digest and so take each other's place.
pub proof fn law_second_ingest_does_not_grow_store(
    store: Map<Seq<u8>, Seq<u8>>,
    first_key: Option<Seq<u8>>,
    second_key: Option<Seq<u8>>,
    pieces: Seq<Seq<u8>>,
    first: Seq<ObjectPut>,
    second: Seq<ObjectPut>,
)
    requires
        stores_chunks(first, first_key, pieces),
        stores_chunks(second, second_key, pieces),
    ensures
        ({
            let once = stored_all(store, first_key, first);
            let twice = stored_all(once, second_key, second);
            &&& twice.dom() == once.dom()
            &&& first_key == second_key ==> forall|id: Seq<u8>|
                once.contains_key(id) ==> read_back(first_key, #[trigger] twice[id]) == read_back(
                    first_key,
                    once[id],
                )
            &&& first_key == second_key && (first_key is None || no_collision(pieces)) ==> twice
                == once
        }),
{
    let once = stored_all(store, first_key, first);
    let twice = stored_all(once, second_key, second);
    assert forall|i: int| 0 <= i < pieces.len() implies once.contains_key(
        blake3_digest(#[trigger] pieces[i]),
    ) by {
        assert(stores_chunk(first[i], first_key, pieces[i]));
        lemma_stored_all_contains(store, first_key, first, i);
    }
    assert forall|id: Seq<u8>| twice.dom().contains(id) <==> once.dom().contains(id) by {
        law_ingest_leaves_stored_objects_alone(once, second_key, pieces, second, id);
    }
    assert(twice.dom() =~= once.dom());
    if first_key == second_key {
        if first_key is None {
            lemma_puts_of_present(once, second_key, pieces, second);
        } else {
            assert forall|id: Seq<u8>| once.contains_key(id) implies read_back(
                first_key,
                #[trigger] twice[id],
            ) == read_back(first_key, once[id]) by {
                lemma_last_chunk_is_held(store, first_key, pieces, first, id);
                lemma_last_chunk_is_held(once, second_key, pieces, second, id);
            }
            if no_collision(pieces) {
                law_ingest_stores_every_chunk(store, first_key, pieces, first);
                lemma_puts_of_present(once, second_key, pieces, second);
            }
        }
    }
}

/// The last of `pieces` with the given digest.
spec fn last_with_digest(pieces: Seq<Seq<u8>>, id: Seq<u8>) -> Option<Seq<u8>>
    decreases pieces.len(),
{
    if pieces.len() == 0 {
        None
    } else if blake3_digest(pieces.last()) == id {
        Some(pieces.last())
    } else {
        last_with_digest(pieces.drop_last(), id)
    }
}

proof fn lemma_last_chunk_is_held(
    store: Map<Seq<u8>, Seq<u8>>,
    key: Option<Seq<u8>>,
    pieces: Seq<Seq<u8>>,
    puts: Seq<ObjectPut>,
    id: Seq<u8>,
)
    requires
        stores_chunks(puts, key, pieces),
        key is Some,
    ensures
        match last_with_digest(pieces, id) {
            Some(piece) => read_back(key, stored_all(store, key, puts)[id]) == Some(piece),
            None => stored_all(store, key, puts)[id] == store[id],
        },
    decreases puts.len(),
{
    if puts.len() > 0 {
        let p = puts.drop_last();
        let c = pieces.drop_last();
        assert forall|i: int| 0 <= i < p.len() implies stores_chunk(#[trigger] p[i], key, c[i]) by {
            assert(stores_chunk(puts[i], key, pieces[i]));
        }
        lemma_last_chunk_is_held(store, key, c, p, id);
        assert(stores_chunk(puts[puts.len() - 1], key, pieces[puts.len() - 1]));
    }
}

proof fn lemma_stored_all_contains(
    store: Map<Seq<u8>, Seq<u8>>,
    key: Option<Seq<u8>>,
    puts: Seq<ObjectPut>,
    i: int,
)
    requires
        0 <= i < puts.len(),
    ensures
        stored_all(store, key, puts).contains_key(puts[i].id@),
    decreases puts.len(),
{
    if i < puts.len() - 1 {
        lemma_stored_all_contains(store, key, puts.drop_last(), i);
    }
}

proof fn lemma_puts_of_present(
    store: Map<Seq<u8>, Seq<u8>>,
    key: Option<Seq<u8>>,
    pieces: Seq<Seq<u8>>,
    puts: Seq<ObjectPut>,
)
    requires
        stores_chunks(puts, key, pieces),
        forall|i: int|
            0 <= i < pieces.len() ==> store.contains_key(blake3_digest(#[trigger] pieces[i])),
        key is Some ==> chunks_held(store, key, pieces),
    ensures
        stored_all(store, key, puts) == store,
    decreases puts.len(),
{
    if puts.len() > 0 {
        let p = puts.drop_last();
        let c = pieces.drop_last();
        assert forall|i: int| 0 <= i < p.len() implies stores_chunk(#[trigger] p[i], key, c[i]) by {
            assert(stores_chunk(puts[i], key, pieces[i]));
        }
        assert forall|i: int| 0 <= i < c.len() implies store.contains_key(
            blake3_digest(#[trigger] c[i]),
        ) && (key is Some ==> blake3_digest(c[i]).len() == ID_LEN && holds_chunk(
            key,
            store[blake3_digest(c[i])],
            c[i],
        )) by {
            assert(c[i] == pieces[i]);
        }
        lemma_puts_of_present(store, key, c, p);
        let n = puts.len() - 1;
        assert(stores_chunk(puts[n], key, pieces[n]));
        lemma_gives_way(puts[n], key, pieces[n], store[puts[n].id@]);
    }
}

/// Loading gives back what was sealed: the store holds the serialised manifest under its id, and
/// where that parses back to the manifest, loading accepts it and returns it.
pub proof fn law_loading_returns_the_sealed_manifest(
    store: Map<Seq<u8>, Seq<u8>>,
    key: Option<Seq<u8>>,
    put: ObjectPut,
    json: Seq<u8>,
    manifest: ManifestView,
    parsed: SnapshotManifest,
    loaded: CoreResult<SnapshotManifest>,
)
    requires
        stores_manifest(put, json),
        manifest.version == MANIFEST_VERSION,
        parsed.deep_view() == manifest,
        loaded_manifest(Ok(parsed), loaded),
    ensures
        stored(store, key, put).contains_key(blake3_digest(json)),
        stored(store, key, put)[blake3_digest(json)] == json,
        loaded is Ok,
        loaded->Ok_0.deep_view() == manifest,
{
}

/// What is fetched is the chunk whose id stands next in the volume.
pub proof fn law_next_chunk_is_fetched(
    reader: VolumeReader,
    volume: VolumeView,
    id: Seq<u8>,
    digest: Seq<u8>,
)
    requires
        fetches(reader, volume, id),
        digest.len() == ID_LEN,
        volume.chunk_ids[reader.next as int] == hex(digest),
    ensures
        id == digest,
        reader.next < volume.chunk_ids.len(),
{
    law_hex_round_trip(digest);
}

/// A reader takes one chunk at a time: it goes on by one, and by the bytes that came out, which are
/// those that were put in.
pub proof fn law_chunks_are_taken_one_by_one(
    before: VolumeReader,
    key: Option<Seq<u8>>,
    stored: Seq<u8>,
    after: VolumeReader,
    plain: Seq<u8>,
)
    requires
        accepts(before, key, stored, after, plain),
    ensures
        after.next == before.next + 1,
        after.written == before.written + plain.len(),
        key is None ==> plain == stored,
        key is Some ==> stored.len() > plain.len(),
{
}

/// A volume that came out with another size is named, with the size that it has and the one that
/// was recorded.
pub proof fn law_size_mismatch_is_told(written: nat, volume: VolumeView)
    ensures
        ("materialized "@ + decimal(written)).is_prefix_of(size_mismatch_text(written, volume)),
        decimal(volume.bytes).is_suffix_of(size_mismatch_text(written, volume)),
{
    let t = size_mismatch_text(written, volume);
    let head = "materialized "@ + decimal(written);
    let tail = decimal(volume.bytes);
    assert(t.subrange(0, head.len() as int) =~= head);
    assert(t.subrange(t.len() - tail.len(), t.len() as int) =~= tail);
}

} // verus!
