//! Snapshots: chunks, encryption, manifests, restore and reclaim, against a store in memory.
use proteus::chunking::{Chunker, DEFAULT_CHUNK_SIZE};
use proteus::crypto::{decrypt, encrypt, encrypt_with_nonce, Ciphertext, EncryptionKey};
use proteus::error::{CoreError, CoreResult};
use proteus::gc::GcMark;
use proteus::hash::{hash_bytes, ContentId};
use proteus::materialize::VolumeReader;
use proteus::pipeline::{
    ingest_volume_backup, ingest_volume_backup_with_progress, load_snapshot, seal_snapshot,
    ObjectPut, SnapshotInput, SnapshotWriter,
};
use proteus::snapshot::{assemble_manifest, SnapshotManifest, VolumeSnapshot};
use proteus::stream::{flush_failed, read_failed, write_failed, StreamAction, StreamWriter};
use serde_json::Value;
use std::collections::BTreeMap;

struct Store {
    objects: BTreeMap<[u8; 32], Vec<u8>>,
}

impl Store {
    fn new() -> Self {
        Store { objects: BTreeMap::new() }
    }

    fn put(&mut self, key: Option<&EncryptionKey>, put: ObjectPut) {
        if let Some(stored) = self.objects.get(&put.id.bytes) {
            if !put.replaces(key, stored) {
                return;
            }
        }
        self.objects.insert(put.id.bytes, put.payload);
    }

    fn get(&self, id: &ContentId) -> CoreResult<Vec<u8>> {
        self.objects.get(&id.bytes).cloned().ok_or_else(|| CoreError::NotFound(id.to_hex()))
    }

    fn list(&self) -> Vec<ContentId> {
        self.objects.keys().map(|k| ContentId { bytes: *k }).collect()
    }

    fn ingest(&mut self, key: Option<&EncryptionKey>, name: &str, data: &[u8]) -> VolumeSnapshot {
        let (volume, puts) = ingest_volume_backup(key, name, data).expect("ingest");
        for put in puts {
            self.put(key, put);
        }
        volume
    }

    fn read_stream(&mut self, writer: &mut StreamWriter, name: &str, data: &[u8], piece: usize) -> u64 {
        let mut off = 0usize;
        let mut reported = 0u64;
        let key = writer.key;
        writer.begin(name);
        loop {
            let end = data.len().min(off + piece.min(writer.wanted()));
            let read = data[off..end].to_vec();
            off = end;
            match writer.read(read) {
                StreamAction::Read => {}
                StreamAction::Put { put, done } => {
                    assert!(done >= reported);
                    reported = done;
                    self.put(key, put);
                }
                StreamAction::VolumeEnd => return reported,
            }
        }
    }

    fn seal(&mut self, manifest: &SnapshotManifest) -> ContentId {
        let put = seal_snapshot(Ok(to_json(manifest))).expect("seal");
        let id = put.id;
        self.put(None, put);
        id
    }

    fn create(
        &mut self,
        key: Option<&EncryptionKey>,
        created_at: &str,
        inputs: Vec<SnapshotInput>,
    ) -> (ContentId, u64) {
        let mut writer = SnapshotWriter::new(created_at.to_string(), key, &inputs);
        while let Some(chunk) = writer.next_put().expect("put") {
            self.put(key, chunk.put);
        }
        let manifest = writer.finish();
        (self.seal(&manifest), manifest.total_bytes)
    }

    fn load(&self, hex: &str) -> CoreResult<SnapshotManifest> {
        let id = ContentId::from_hex(hex)?;
        let bytes = self.get(&id)?;
        load_snapshot(from_json(&bytes))
    }

    fn materialize(
        &self,
        key: Option<&EncryptionKey>,
        volume: &VolumeSnapshot,
    ) -> CoreResult<(Vec<u8>, u64)> {
        let mut reader = VolumeReader::new();
        let mut out = Vec::new();
        while let Some(id) = reader.next_id(volume)? {
            let stored = self.get(&id)?;
            out.extend(reader.accept(key, stored)?);
        }
        let written = reader.finish(volume)?;
        Ok((out, written))
    }

    fn gc(&mut self, keep: &[String]) -> CoreResult<u64> {
        let mut mark = GcMark::new(keep.to_vec());
        while let Some(id) = mark.next_root()? {
            let loaded = self.load(&id.to_hex());
            mark.loaded(loaded)?;
        }
        let dead = mark.gc_unreferenced(&self.list());
        for id in &dead {
            self.objects.remove(&id.bytes);
        }
        Ok(dead.len() as u64)
    }
}

fn to_json(m: &SnapshotManifest) -> Vec<u8> {
    let volumes = m
        .volumes
        .iter()
        .map(|v| {
            let mut o = serde_json::Map::new();
            o.insert("pvc_name".into(), Value::from(v.pvc_name.clone()));
            o.insert("bytes".into(), Value::from(v.bytes));
            o.insert("chunk_ids".into(), Value::from(v.chunk_ids.clone()));
            Value::Object(o)
        })
        .collect::<Vec<Value>>();
    let mut o = serde_json::Map::new();
    o.insert("version".into(), Value::from(m.version));
    o.insert("created_at".into(), Value::from(m.created_at.clone()));
    o.insert("encrypted".into(), Value::from(m.encrypted));
    o.insert("volumes".into(), Value::Array(volumes));
    o.insert("total_bytes".into(), Value::from(m.total_bytes));
    serde_json::to_vec(&Value::Object(o)).expect("json")
}

fn from_json(bytes: &[u8]) -> Result<SnapshotManifest, String> {
    let v: Value = serde_json::from_slice(bytes).map_err(|e| e.to_string())?;
    let volumes = v["volumes"].as_array().ok_or("volumes")?;
    Ok(SnapshotManifest {
        version: v["version"].as_u64().ok_or("version")? as u32,
        created_at: v["created_at"].as_str().ok_or("created_at")?.to_string(),
        encrypted: v["encrypted"].as_bool().ok_or("encrypted")?,
        volumes: volumes
            .iter()
            .map(|v| VolumeSnapshot {
                pvc_name: v["pvc_name"].as_str().expect("name").to_string(),
                bytes: v["bytes"].as_u64().expect("bytes"),
                chunk_ids: v["chunk_ids"]
                    .as_array()
                    .expect("ids")
                    .iter()
                    .map(|i| i.as_str().expect("id").to_string())
                    .collect(),
            })
            .collect(),
        total_bytes: v["total_bytes"].as_u64().ok_or("total_bytes")?,
    })
}

#[test]
fn encrypted_ingest_stores_ciphertext_not_plaintext() {
    let mut store = Store::new();
    let key = EncryptionKey::generate();
    let plaintext = b"very secret pvc contents".repeat(10);

    let snapshot = store.ingest(Some(&key), "data", &plaintext);

    assert_eq!(snapshot.bytes, plaintext.len() as u64);
    assert_eq!(snapshot.chunk_ids.len(), 1);

    let id = ContentId::from_hex(&snapshot.chunk_ids[0]).expect("hex");
    let stored = store.get(&id).expect("get");
    assert_ne!(stored, plaintext);

    let ciphertext = Ciphertext { blob: stored };
    let decrypted = decrypt(&key, &ciphertext).expect("decrypt");
    assert_eq!(decrypted, plaintext);
}

#[test]
fn unencrypted_ingest_stores_plaintext() {
    let mut store = Store::new();
    let plaintext = b"not secret";

    let snapshot = store.ingest(None, "data", plaintext);

    let id = ContentId::from_hex(&snapshot.chunk_ids[0]).expect("hex");
    let stored = store.get(&id).expect("get");
    assert_eq!(stored.as_slice(), plaintext);
}

#[test]
fn second_ingest_identical_chunks_does_not_grow_store() {
    let mut store = Store::new();
    let plaintext = b"dedup-me-across-backups";

    store.ingest(None, "data", plaintext);
    let after_first = store.list();
    assert_eq!(after_first.len(), 1);

    store.ingest(None, "data", plaintext);
    let after_second = store.list();
    assert_eq!(after_second.len(), after_first.len());

    let (restored, _) = store
        .materialize(
            None,
            &VolumeSnapshot {
                pvc_name: "data".into(),
                bytes: plaintext.len() as u64,
                chunk_ids: vec![after_first[0].to_hex()],
            },
        )
        .expect("materialize");
    assert_eq!(restored, plaintext);
}

#[test]
fn create_snapshot_seals_manifest_and_reports_total_bytes() {
    let mut store = Store::new();
    let key = EncryptionKey::generate();

    let a = b"pvc-a-bytes".to_vec();
    let b = b"pvc-b-bytes-longer".to_vec();
    let inputs = vec![
        SnapshotInput { pvc_name: "pvc-a", data: &a },
        SnapshotInput { pvc_name: "pvc-b", data: &b },
    ];

    let (id, total_bytes) = store.create(Some(&key), "2026-07-24T00:00:00Z", inputs);

    assert_eq!(total_bytes, (a.len() + b.len()) as u64);

    let manifest_bytes = store.get(&id).expect("manifest stored");
    let manifest = from_json(&manifest_bytes).expect("manifest json");
    assert!(manifest.encrypted);
    assert_eq!(manifest.volumes.len(), 2);
    assert_eq!(manifest.total_bytes, total_bytes);
}

#[test]
fn load_snapshot_rejects_unknown_id() {
    let store = Store::new();
    let err = store.load(&"ab".repeat(32)).expect_err("unknown id");
    assert!(matches!(err, CoreError::NotFound(_)));
}

#[test]
fn load_snapshot_rejects_bad_json() {
    let mut store = Store::new();
    let garbage = b"not a manifest".to_vec();
    let id = hash_bytes(&garbage);
    store.put(None, ObjectPut { id, payload: garbage, skip_if_exists: false });

    let err = store.load(&id.to_hex()).expect_err("bad json");
    assert!(matches!(err, CoreError::InvalidArgument(_)));
}

#[test]
fn round_trip_create_load_materialize_plaintext() {
    let mut store = Store::new();
    let data = b"plaintext pvc contents, chunked and reassembled".to_vec();

    let (id, _bytes) = store.create(
        None,
        "2026-07-24T00:00:00Z",
        vec![SnapshotInput { pvc_name: "data", data: &data }],
    );

    let manifest = store.load(&id.to_hex()).expect("load snapshot");
    assert!(!manifest.encrypted);
    assert_eq!(manifest.volumes.len(), 1);

    let (restored, _) = store.materialize(None, &manifest.volumes[0]).expect("materialize");
    assert_eq!(restored, data);
}

#[test]
fn gc_empty_keep_removes_snapshot_and_chunks() {
    let mut store = Store::new();
    let data = b"delete-me-contents".to_vec();
    let (id, _bytes) = store.create(
        None,
        "2026-07-24T00:00:00Z",
        vec![SnapshotInput { pvc_name: "data", data: &data }],
    );
    let hex = id.to_hex();
    let manifest = store.load(&hex).expect("load");
    let chunk_hex = manifest.volumes[0].chunk_ids[0].clone();

    let removed = store.gc(&[]).expect("gc");
    assert!(removed >= 2);
    assert!(store.load(&hex).is_err());
    let chunk_id = ContentId::from_hex(&chunk_hex).expect("hex");
    assert!(store.get(&chunk_id).is_err());
    assert_eq!(store.gc(&[]).expect("gc again"), 0);
}

#[test]
fn gc_preserves_shared_chunks_when_sibling_kept() {
    let mut store = Store::new();
    let data = b"shared-cas-payload-for-both-snapshots".to_vec();
    let (id_a, _) = store.create(
        None,
        "2026-07-24T00:00:00Z",
        vec![SnapshotInput { pvc_name: "data", data: &data }],
    );
    let (id_b, _) = store.create(
        None,
        "2026-07-24T01:00:00Z",
        vec![SnapshotInput { pvc_name: "data", data: &data }],
    );

    let chunks_a = store.load(&id_a.to_hex()).expect("load a").volumes[0].chunk_ids.clone();
    let chunks_b = store.load(&id_b.to_hex()).expect("load b").volumes[0].chunk_ids.clone();
    assert_eq!(chunks_a, chunks_b, "dedup must share chunk ids");
    assert_ne!(id_a, id_b, "manifests differ by created_at");

    let removed = store.gc(&[id_b.to_hex()]).expect("gc");
    assert_eq!(removed, 1, "only A's manifest should be reclaimed");
    assert!(store.load(&id_a.to_hex()).is_err());
    let manifest_b = store.load(&id_b.to_hex()).expect("B still present");
    let (restored, _) =
        store.materialize(None, &manifest_b.volumes[0]).expect("B still restorable");
    assert_eq!(restored, data);
}

#[test]
fn stream_ingest_pipelines_multi_chunk_payload() {
    let mut store = Store::new();
    let data = vec![0xABu8; DEFAULT_CHUNK_SIZE + 1234];

    let mut writer = StreamWriter::new("2026-07-24T00:00:00Z".to_string(), None);
    let reported = store.read_stream(&mut writer, "big", &data, 300_000);
    let manifest = writer.finish();
    let snap = &manifest.volumes[0];

    assert_eq!(snap.bytes, data.len() as u64);
    assert_eq!(reported, data.len() as u64);
    assert_eq!(snap.chunk_ids.len(), 2);
    let (restored, _) = store.materialize(None, snap).expect("materialize");
    assert_eq!(restored, data);
}

#[test]
fn stream_ingest_matches_buffered_round_trip() {
    let mut store = Store::new();
    let data = b"streamed-pvc-bytes-for-parity-check-0123456789".repeat(40);

    let (id_buf, bytes_buf) = store.create(
        None,
        "2026-07-24T00:00:00Z",
        vec![SnapshotInput { pvc_name: "data", data: &data }],
    );

    let mut store2 = Store::new();
    let mut writer = StreamWriter::new("2026-07-24T00:00:00Z".to_string(), None);
    store2.read_stream(&mut writer, "data", &data, 7);
    let manifest = writer.finish();
    let bytes_stream = manifest.total_bytes;
    let id_stream = store2.seal(&manifest);

    assert_eq!(bytes_buf, bytes_stream);
    assert_eq!(id_buf, id_stream);
    let loaded = store2.load(&id_stream.to_hex()).expect("load");
    let (restored, _) = store2.materialize(None, &loaded.volumes[0]).expect("materialize");
    assert_eq!(restored, data);
}

#[test]
fn gc_unreferenced_keeps_other_snapshots_drops_orphans() {
    let mut store = Store::new();
    let a = b"snapshot-a-payload".to_vec();
    let b = b"snapshot-b-payload-different".to_vec();
    let (id_a, _) = store.create(
        None,
        "2026-07-24T00:00:00Z",
        vec![SnapshotInput { pvc_name: "a", data: &a }],
    );
    let (id_b, _) = store.create(
        None,
        "2026-07-24T01:00:00Z",
        vec![SnapshotInput { pvc_name: "b", data: &b }],
    );

    let orphan = hash_bytes(b"orphan-blob");
    let payload = b"orphan-blob".to_vec();
    store.put(None, ObjectPut { id: orphan, payload, skip_if_exists: false });

    let removed = store.gc(&[id_a.to_hex()]).expect("gc");
    assert!(removed >= 2);
    assert!(store.load(&id_a.to_hex()).is_ok());
    assert!(store.load(&id_b.to_hex()).is_err());
    assert!(store.get(&orphan).is_err());
}

#[test]
fn round_trip_create_load_materialize_encrypted() {
    let mut store = Store::new();
    let key = EncryptionKey::generate();
    let data = b"encrypted pvc contents, chunked and reassembled".repeat(4);

    let (id, _bytes) = store.create(
        Some(&key),
        "2026-07-24T00:00:00Z",
        vec![SnapshotInput { pvc_name: "data", data: &data }],
    );

    let manifest = store.load(&id.to_hex()).expect("load snapshot");
    assert!(manifest.encrypted);

    let (restored, _) = store.materialize(Some(&key), &manifest.volumes[0]).expect("materialize");
    assert_eq!(restored, data);
}

#[test]
fn round_trip_multi_volume_snapshot() {
    let mut store = Store::new();
    let key = EncryptionKey::generate();
    let a = b"volume-a-bytes".to_vec();
    let b = b"volume-b-bytes-longer-than-a".to_vec();

    let (id, _bytes) = store.create(
        Some(&key),
        "2026-07-24T00:00:00Z",
        vec![
            SnapshotInput { pvc_name: "pvc-a", data: &a },
            SnapshotInput { pvc_name: "pvc-b", data: &b },
        ],
    );

    let manifest = store.load(&id.to_hex()).expect("load snapshot");

    let (restored_a, written) =
        store.materialize(Some(&key), &manifest.volumes[0]).expect("materialize a");
    let (restored_b, _) =
        store.materialize(Some(&key), &manifest.volumes[1]).expect("materialize b");
    assert_eq!(restored_a, a);
    assert_eq!(restored_b, b);
    assert_eq!(written, a.len() as u64);
}

#[test]
fn materialize_volume_rejects_size_mismatch() {
    let mut store = Store::new();
    let mut tampered = store.ingest(None, "data", b"short");
    tampered.bytes += 1;

    let err = store.materialize(None, &tampered).expect_err("size mismatch");
    assert!(matches!(err, CoreError::InvalidArgument(_)));
}

#[test]
fn content_ids_are_blake3_digests() {
    assert_eq!(
        hash_bytes(b"").to_hex(),
        "af1349b9f5f9a1a6a0404dea36dcc9499bcb25c9adc112b7cc9a93cae41f3262"
    );
    assert_ne!(hash_bytes(b"a"), hash_bytes(b"b"));
    assert!(hash_bytes(b"a").same(&hash_bytes(b"a")));
}

#[test]
fn content_id_hex_round_trips() {
    let id = hash_bytes(b"some object");
    let hex = id.to_hex();
    assert_eq!(hex.len(), 64);
    assert_eq!(ContentId::from_hex(&hex).expect("hex"), id);
    assert!(ContentId::from_hex("zz").is_err());
    assert!(matches!(
        ContentId::from_hex(&"zz".repeat(32)),
        Err(CoreError::InvalidArgument(_))
    ));
}

#[test]
fn sealing_depends_on_key_and_nonce() {
    let one = EncryptionKey { bytes: [1; 32] };
    let two = EncryptionKey { bytes: [2; 32] };
    let plain = b"the same plaintext";
    let a = encrypt_with_nonce(&one, [7; 12], plain).expect("seal").blob;
    assert_eq!(&a[..12], [7u8; 12].as_slice());
    assert_eq!(a.len(), 12 + plain.len() + 16);
    assert_eq!(encrypt_with_nonce(&one, [7; 12], plain).expect("seal").blob, a);
    assert_ne!(encrypt_with_nonce(&two, [7; 12], plain).expect("seal").blob, a);
    assert_ne!(encrypt_with_nonce(&one, [8; 12], plain).expect("seal").blob, a);
    assert!(matches!(decrypt(&two, &Ciphertext { blob: a.clone() }), Err(CoreError::Crypto(_))));
    let mut flipped = a.clone();
    flipped[13] ^= 1;
    assert!(decrypt(&one, &Ciphertext { blob: flipped }).is_err());
    assert!(decrypt(&one, &Ciphertext { blob: vec![0; 5] }).is_err());
    assert_eq!(decrypt(&one, &Ciphertext { blob: a }).expect("open"), plain);
}

#[test]
fn random_nonces_and_keys_differ() {
    let key = EncryptionKey::generate();
    assert_ne!(key.bytes, EncryptionKey::generate().bytes);
    let a = encrypt(&key, b"x").expect("seal").blob;
    let b = encrypt(&key, b"x").expect("seal").blob;
    assert_ne!(a, b);
}

#[test]
fn chunks_cover_the_payload() {
    let chunker = Chunker { chunk_size: 4 };
    let chunks = chunker.chunk(b"abcdefghij");
    let parts: Vec<&[u8]> = chunks.iter().map(|c| c.data.as_slice()).collect();
    assert_eq!(parts, vec![b"abcd".as_slice(), b"efgh".as_slice(), b"ij".as_slice()]);
    assert_eq!(chunks[0].id, hash_bytes(b"abcd"));
    assert!(chunker.chunk(b"").is_empty());
    assert_eq!(Chunker::default().chunk_size, DEFAULT_CHUNK_SIZE);
}

#[test]
fn ingest_reports_progress_chunk_by_chunk() {
    let data = vec![1u8; DEFAULT_CHUNK_SIZE + 10];
    let (volume, puts) =
        ingest_volume_backup_with_progress(None, "data", &data).expect("ingest");
    let done: Vec<u64> = puts.iter().map(|p| p.done).collect();
    assert_eq!(done, vec![DEFAULT_CHUNK_SIZE as u64, data.len() as u64]);
    assert!(puts.iter().all(|p| p.total == data.len() as u64));
    assert_eq!(volume.bytes, data.len() as u64);
}

#[test]
fn manifests_of_other_versions_are_refused() {
    let mut m = assemble_manifest("t".into(), false, vec![]);
    assert_eq!(m.version, 1);
    m.version = 2;
    match load_snapshot(Ok(m)) {
        Err(CoreError::InvalidArgument(t)) => {
            assert_eq!(t, "unsupported snapshot manifest version 2 (expected 1)");
        }
        _ => panic!("refusal expected"),
    }
    match seal_snapshot(Err("no".into())) {
        Err(e) => assert_eq!(e.message(), "invalid argument: manifest serialize: no"),
        Ok(_) => panic!("refusal expected"),
    }
}

#[test]
fn missing_roots_do_not_stop_the_sweep() {
    let mut store = Store::new();
    let data = b"kept".to_vec();
    let (id, _) = store.create(
        None,
        "2026-07-24T00:00:00Z",
        vec![SnapshotInput { pvc_name: "data", data: &data }],
    );
    let keep = vec!["ab".repeat(32), "  ".to_string(), id.to_hex()];
    assert_eq!(store.gc(&keep).expect("gc"), 0);
    assert!(store.load(&id.to_hex()).is_ok());
}

#[test]
fn errors_are_reported_with_their_kind() {
    assert_eq!(CoreError::NotFound("x".into()).message(), "not found: x");
    assert_eq!(CoreError::Crypto("x".into()).message(), "crypto error: x");
    assert_eq!(CoreError::Storage("x".into()).message(), "storage error: x");
    assert_eq!(CoreError::InvalidArgument("x".into()).message(), "invalid argument: x");
}

#[test]
fn streams_report_progress_over_all_volumes() {
    let mut store = Store::new();
    let key = EncryptionKey::generate();
    let mut writer = StreamWriter::new("t".to_string(), Some(&key));
    assert_eq!(store.read_stream(&mut writer, "a", b"0123456789", 4), 10);
    assert_eq!(store.read_stream(&mut writer, "b", b"01234", 4), 15);
    assert_eq!(store.read_stream(&mut writer, "empty", b"", 4), 0);
    let manifest = writer.finish();
    assert!(manifest.encrypted);
    assert_eq!(manifest.total_bytes, 15);
    assert!(manifest.volumes[2].chunk_ids.is_empty());
    let (restored, _) = store.materialize(Some(&key), &manifest.volumes[1]).expect("restore");
    assert_eq!(restored, b"01234");
}

#[test]
fn stream_errors_are_named() {
    assert_eq!(
        read_failed("eof").message(),
        "invalid argument: volume stream read failed: eof"
    );
    assert_eq!(
        write_failed("eof").message(),
        "invalid argument: volume stream write failed: eof"
    );
    assert_eq!(
        flush_failed("eof").message(),
        "invalid argument: volume stream flush failed: eof"
    );
}

#[test]
fn encryption_switched_on_later_seals_stored_chunks() {
    let mut store = Store::new();
    let key = EncryptionKey::generate();
    let data = b"stored in plain before the key was set".to_vec();
    store.ingest(None, "data", &data);

    let volume = store.ingest(Some(&key), "data", &data);
    let id = ContentId::from_hex(&volume.chunk_ids[0]).expect("hex");
    let sealed = store.get(&id).expect("get");
    assert_eq!(store.list().len(), 1);
    assert_ne!(sealed, data);
    assert_eq!(sealed.len(), data.len() + 28);
    let (restored, _) = store.materialize(Some(&key), &volume).expect("restore");
    assert_eq!(restored, data);

    store.ingest(Some(&key), "data", &data);
    assert_eq!(store.get(&id).expect("get"), sealed);

    let other = EncryptionKey::generate();
    let volume = store.ingest(Some(&other), "data", &data);
    assert_ne!(store.get(&id).expect("get"), sealed);
    let (restored, _) = store.materialize(Some(&other), &volume).expect("restore");
    assert_eq!(restored, data);
}

#[test]
fn stored_copies_give_way_only_where_they_must() {
    let key = EncryptionKey { bytes: [1; 32] };
    let payload = encrypt_with_nonce(&key, [7; 12], b"chunk").expect("seal").blob;
    let same = encrypt_with_nonce(&key, [8; 12], b"chunk").expect("seal").blob;
    let other = encrypt_with_nonce(&key, [8; 12], b"chonk").expect("seal").blob;
    let id = hash_bytes(b"chunk");
    let put = ObjectPut { id, payload, skip_if_exists: true };
    assert!(!put.replaces(Some(&key), &same));
    assert!(put.replaces(Some(&key), &other));
    assert!(put.replaces(Some(&key), &b"chunk".to_vec()));
    assert!(put.replaces(Some(&key), &vec![0; 33]));
    assert!(!put.replaces(None, &b"chunk".to_vec()));
    let plain = ObjectPut { id, payload: b"chunk".to_vec(), skip_if_exists: false };
    assert!(plain.replaces(None, &b"chunk".to_vec()));
}

#[test]
fn key_must_match_the_snapshot() {
    let mut store = Store::new();
    let key = EncryptionKey::generate();
    let data = vec![5u8; DEFAULT_CHUNK_SIZE + 3];
    let sealed = store.ingest(Some(&key), "data", &data);
    match store.materialize(None, &sealed) {
        Err(CoreError::InvalidArgument(m)) => assert_eq!(
            m,
            format!(
                "materialized {} bytes for pvc 'data', manifest recorded {}",
                data.len() + 56,
                data.len()
            )
        ),
        _ => panic!("refusal expected"),
    }
    let other = EncryptionKey::generate();
    match store.materialize(Some(&other), &sealed) {
        Err(CoreError::Crypto(m)) => assert_eq!(m, "decryption failed"),
        _ => panic!("refusal expected"),
    }
    let mut plain_store = Store::new();
    let plain = plain_store.ingest(None, "data", b"in plain, longer than a nonce and a tag");
    assert!(plain_store.materialize(Some(&key), &plain).is_err());
}

#[test]
fn snapshot_reports_rise_to_the_total() {
    let mut store = Store::new();
    let a = vec![1u8; DEFAULT_CHUNK_SIZE + 10];
    let inputs = vec![
        SnapshotInput { pvc_name: "a", data: &a },
        SnapshotInput { pvc_name: "empty", data: b"" },
        SnapshotInput { pvc_name: "b", data: b"12345" },
    ];
    let mut writer = SnapshotWriter::new("t".to_string(), None, &inputs);
    let mut reports = Vec::new();
    while let Some(chunk) = writer.next_put().expect("put") {
        reports.push((chunk.done, chunk.total));
        store.put(None, chunk.put);
    }
    reports.push(writer.final_report());
    let total = (DEFAULT_CHUNK_SIZE + 15) as u64;
    assert_eq!(
        reports,
        vec![
            (DEFAULT_CHUNK_SIZE as u64, total),
            ((DEFAULT_CHUNK_SIZE + 10) as u64, total),
            (total, total),
            (total, total),
        ]
    );
    let nothing: Vec<SnapshotInput> = vec![];
    assert_eq!(SnapshotWriter::new("t".to_string(), None, &nothing).final_report(), (1, 1));
}

#[test]
fn streamed_snapshot_of_several_volumes_matches_buffered() {
    let mut buffered = Store::new();
    let a = vec![7u8; 2 * DEFAULT_CHUNK_SIZE];
    let b = vec![9u8; DEFAULT_CHUNK_SIZE + 1];
    let inputs = vec![
        SnapshotInput { pvc_name: "a", data: &a },
        SnapshotInput { pvc_name: "none", data: b"" },
        SnapshotInput { pvc_name: "b", data: &b },
    ];
    let (id, total) = buffered.create(None, "t", inputs);
    let mut streamed = Store::new();
    let mut writer = StreamWriter::new("t".to_string(), None);
    streamed.read_stream(&mut writer, "a", &a, 100_000);
    streamed.read_stream(&mut writer, "none", b"", 5);
    let reported = streamed.read_stream(&mut writer, "b", &b, DEFAULT_CHUNK_SIZE);
    assert_eq!(reported, total);
    let manifest = writer.finish();
    assert_eq!(manifest, buffered.load(&id.to_hex()).expect("load"));
    assert_eq!(streamed.seal(&manifest), id);
    assert_eq!(streamed.objects, buffered.objects);
    for (volume, data) in manifest.volumes.iter().zip([a, vec![], b]) {
        let (restored, written) = streamed.materialize(None, volume).expect("restore");
        assert_eq!(restored, data);
        assert_eq!(written, data.len() as u64);
    }
}

#[test]
fn failed_mark_deletes_nothing() {
    let mut store = Store::new();
    let (id, _) = store.create(None, "t", vec![SnapshotInput { pvc_name: "a", data: b"kept" }]);
    let before = store.objects.clone();
    match store.gc(&["not an id".to_string()]) {
        Err(CoreError::InvalidArgument(_)) => {}
        _ => panic!("refusal expected"),
    }
    let garbage = hash_bytes(b"not a manifest");
    store.put(
        None,
        ObjectPut { id: garbage, payload: b"not a manifest".to_vec(), skip_if_exists: false },
    );
    assert!(store.gc(&[id.to_hex(), garbage.to_hex()]).is_err());
    store.objects.remove(&garbage.bytes);
    assert_eq!(store.objects, before);
}

#[test]
fn sealed_manifest_loads_back() {
    let mut store = Store::new();
    let volume = store.ingest(None, "data", b"content");
    let manifest = assemble_manifest("2026-07-24T00:00:00Z".into(), false, vec![volume]);
    let id = store.seal(&manifest);
    assert_eq!(store.load(&id.to_hex()).expect("load"), manifest);
}

#[test]
fn second_ingest_under_another_key_stores_no_new_object() {
    let mut store = Store::new();
    let data = vec![3u8; DEFAULT_CHUNK_SIZE + 1];
    let keys = [None, Some(EncryptionKey::generate()), Some(EncryptionKey::generate()), None];
    let first = store.ingest(None, "data", &data);
    let ids = store.list();
    for key in keys {
        let volume = store.ingest(key.as_ref(), "data", &data);
        assert_eq!(volume, first);
        assert_eq!(store.list(), ids);
    }
}
