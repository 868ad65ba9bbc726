//! Snapshot manifests: what a sealed backup is made of.
use vstd::prelude::*;

verus! {

/// The manifest version that this library writes and reads.
pub const MANIFEST_VERSION: u32 = 1;

/// One volume of a snapshot: its size and the ids of its chunks, in order.
#[derive(Debug, PartialEq, Eq)]
pub struct VolumeSnapshot {
    pub pvc_name: String,
    pub bytes: u64,
    pub chunk_ids: Vec<String>,
}

/// The model of a [`VolumeSnapshot`].
#[verifier::ext_equal]
pub struct VolumeView {
    pub pvc_name: Seq<char>,
    pub bytes: nat,
    pub chunk_ids: Seq<Seq<char>>,
}

impl DeepView for VolumeSnapshot {
    type V = VolumeView;

    open spec fn deep_view(&self) -> VolumeView {
        VolumeView {
            pvc_name: self.pvc_name@,
            bytes: self.bytes as nat,
            chunk_ids: self.chunk_ids.deep_view(),
        }
    }
}

/// A sealed snapshot: every volume, and whether the chunks are encrypted.
#[derive(Debug, PartialEq, Eq)]
pub struct SnapshotManifest {
    pub version: u32,
    pub created_at: String,
    pub encrypted: bool,
    pub volumes: Vec<VolumeSnapshot>,
    pub total_bytes: u64,
}

/// The model of a [`SnapshotManifest`].
#[verifier::ext_equal]
pub struct ManifestView {
    pub version: nat,
    pub created_at: Seq<char>,
    pub encrypted: bool,
    pub volumes: Seq<VolumeView>,
    pub total_bytes: nat,
}

impl DeepView for SnapshotManifest {
    type V = ManifestView;

    open spec fn deep_view(&self) -> ManifestView {
        ManifestView {
            version: self.version as nat,
            created_at: self.created_at@,
            encrypted: self.encrypted,
            volumes: self.volumes.deep_view(),
            total_bytes: self.total_bytes as nat,
        }
    }
}

/// The bytes of all volumes together.
pub open spec fn volumes_total(volumes: Seq<VolumeView>) -> nat
    decreases volumes.len(),
{
    if volumes.len() == 0 {
        0
    } else {
        volumes_total(volumes.drop_last()) + volumes.last().bytes
    }
}

proof fn lemma_total_monotone(volumes: Seq<VolumeView>, n: int)
    requires
        0 <= n <= volumes.len(),
    ensures
        volumes_total(volumes.take(n)) <= volumes_total(volumes),
    decreases volumes.len() - n,
{
    if n == volumes.len() {
        assert(volumes.take(n) =~= volumes);
    } else {
        lemma_total_monotone(volumes, n + 1);
        assert(volumes.take(n + 1).drop_last() =~= volumes.take(n));
    }
}

/// The manifest of a snapshot that holds `volumes`.
pub open spec fn manifest_of(
    created_at: Seq<char>,
    encrypted: bool,
    volumes: Seq<VolumeView>,
) -> ManifestView {
    ManifestView {
        version: MANIFEST_VERSION as nat,
        created_at,
        encrypted,
        volumes,
        total_bytes: volumes_total(volumes),
    }
}

/// Puts the manifest of a snapshot together from its ingested volumes.
pub fn assemble_manifest(
    created_at: String,
    encrypted: bool,
    volumes: Vec<VolumeSnapshot>,
) -> (res: SnapshotManifest)
    requires
        volumes_total(volumes.deep_view()) <= u64::MAX,
    ensures
        res.deep_view() == manifest_of(created_at@, encrypted, volumes.deep_view()),
{
    let mut total: u64 = 0;
    let mut i: usize = 0;
    let ghost all = volumes.deep_view();
    while i < volumes.len()
        invariant
            i <= volumes.len(),
            all == volumes.deep_view(),
            volumes_total(all) <= u64::MAX,
            total == volumes_total(all.take(i as int)),
        decreases volumes.len() - i,
    {
        proof {
            assert(all.take(i + 1).drop_last() =~= all.take(i as int));
            lemma_total_monotone(all, i + 1);
        }
        total += volumes[i].bytes;
        i += 1;
    }
    assert(all.take(i as int) =~= all);
    SnapshotManifest { version: MANIFEST_VERSION, created_at, encrypted, volumes, total_bytes: total }
}

/// The bytes of two lists of volumes together are those of each.
pub proof fn law_totals_of_lists_add_up(a: Seq<VolumeView>, b: Seq<VolumeView>, v: VolumeView)
    ensures
        volumes_total(a + b) == volumes_total(a) + volumes_total(b),
        volumes_total(seq![v]) == v.bytes,
    decreases b.len(),
{
    assert(seq![v].drop_last() =~= seq![]);
    assert(volumes_total(seq![]) == 0);
    if b.len() == 0 {
        assert(a + b =~= a);
    } else {
        assert((a + b).drop_last() =~= a + b.drop_last());
        law_totals_of_lists_add_up(a, b.drop_last(), v);
    }
}

} // verus!
