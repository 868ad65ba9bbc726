//! Reclaiming space: mark what the kept snapshots reference, sweep the rest.
use crate::error::{CoreError, CoreResult};
use crate::hash::{invalid_id_text, is_id_hex, unhex, ContentId};
use crate::materialize::materialized;
use crate::snapshot::{ManifestView, SnapshotManifest, VolumeView};
use crate::text::{blank, is_blank, trim, trimmed};
use vstd::prelude::*;

verus! {

/// The chunk ids of all volumes, in order.
pub open spec fn volume_ids(volumes: Seq<VolumeView>) -> Seq<Seq<char>>
    decreases volumes.len(),
{
    if volumes.len() == 0 {
        seq![]
    } else {
        volume_ids(volumes.drop_last()) + volumes.last().chunk_ids
    }
}

/// Whether every one of `ids` is the hexadecimal form of a content id.
pub open spec fn all_hex(ids: Seq<Seq<char>>) -> bool {
    forall|i: int| 0 <= i < ids.len() ==> is_id_hex(#[trigger] ids[i])
}

/// The content ids that `ids` stand for.
pub open spec fn unhex_all(ids: Seq<Seq<char>>) -> Seq<Seq<u8>> {
    ids.map_values(|id: Seq<char>| unhex(id))
}

/// The digests of `ids`.
pub open spec fn id_views(ids: Seq<ContentId>) -> Seq<Seq<u8>> {
    ids.map_values(|id: ContentId| id@)
}

/// The first entry at or after `from` that is not blank.
pub open spec fn next_named(ids: Seq<Seq<char>>, from: nat) -> nat
    decreases ids.len() - from,
{
    if from >= ids.len() {
        ids.len()
    } else if blank(ids[from as int]) {
        next_named(ids, from + 1)
    } else {
        from
    }
}

/// The content ids of the snapshots that `ids` name; blank entries name none.
pub open spec fn named_ids(ids: Seq<Seq<char>>) -> Seq<Seq<u8>>
    decreases ids.len(),
{
    if ids.len() == 0 {
        seq![]
    } else if blank(ids.last()) {
        named_ids(ids.drop_last())
    } else {
        named_ids(ids.drop_last()).push(unhex(trim(ids.last())))
    }
}

/// The ids of `roots`.
pub open spec fn root_ids(roots: Seq<(Seq<u8>, Option<ManifestView>)>) -> Seq<Seq<u8>> {
    roots.map_values(|r: (Seq<u8>, Option<ManifestView>)| r.0)
}

/// What loading a snapshot came to: its manifest, or nothing where it is missing.
pub open spec fn load_view(result: CoreResult<SnapshotManifest>) -> Option<ManifestView> {
    match result {
        Ok(m) => Some(m.deep_view()),
        Err(_) => None,
    }
}

/// A mark phase: which snapshots are still to be loaded, and what is marked as live.
pub struct GcMark {
    pub ids: Vec<String>,
    pub next: usize,
    pub keep: Vec<ContentId>,
    /// The snapshot whose load is awaited.
    pub pending: Option<ContentId>,
    /// Whether the run has ended with an error.
    pub failed: bool,
    /// The snapshots that were marked, each with the manifest that was loaded.
    pub roots: Ghost<Seq<(Seq<u8>, Option<ManifestView>)>>,
}

impl GcMark {
    /// Short of an error, what is marked is what the snapshots up to the position and their
    /// manifests call for; of a snapshot whose load is awaited, itself alone.
    pub open spec fn wf(&self) -> bool {
        let passed = self.ids.deep_view().take(self.next as int);
        &&& self.next <= self.ids@.len()
        &&& !self.failed ==> match self.pending {
            None => {
                &&& id_views(self.keep@) == mark_all(seq![], self.roots@)
                &&& root_ids(self.roots@) == named_ids(passed)
            },
            Some(id) => {
                &&& id_views(self.keep@) == mark_all(seq![], self.roots@).push(id@)
                &&& root_ids(self.roots@).push(id@) == named_ids(passed)
            },
        }
    }

    /// Whether every snapshot was marked and loaded.
    pub open spec fn finished(&self) -> bool {
        &&& self.wf()
        &&& !self.failed
        &&& self.pending is None
        &&& self.next == self.ids@.len()
    }

    /// A mark phase over the snapshots with the given ids.
    pub fn new(keep_snapshot_ids: Vec<String>) -> (res: Self)
        ensures
            res.wf(),
            res.ids == keep_snapshot_ids,
            res.next == 0,
            res.pending is None,
            !res.failed,
            res.roots@ == Seq::<(Seq<u8>, Option<ManifestView>)>::empty(),
    {
        let res = GcMark {
            ids: keep_snapshot_ids,
            next: 0,
            keep: Vec::new(),
            pending: None,
            failed: false,
            roots: Ghost(Seq::empty()),
        };
        proof {
            assert(id_views(res.keep@) =~= seq![]);
            assert(res.ids.deep_view().take(0) =~= seq![]);
            assert(root_ids(res.roots@) =~= seq![]);
        }
        res
    }

    /// Marks the next snapshot and returns its id, which is to be loaded; blank ids are passed
    /// over. Nothing is returned once every snapshot is marked. A malformed id ends the run.
    pub fn next_root(&mut self) -> (res: CoreResult<Option<ContentId>>)
        requires
            old(self).wf(),
            !old(self).failed,
            old(self).pending is None,
        ensures
            final(self).wf(),
            final(self).ids == old(self).ids,
            final(self).roots == old(self).roots,
            final(self).failed == res is Err,
            ({
                let ids = old(self).ids.deep_view();
                let at = next_named(ids, old(self).next as nat);
                match res {
                    Ok(Some(id)) => {
                        &&& at < ids.len()
                        &&& is_id_hex(trim(ids[at as int]))
                        &&& id@ == unhex(trim(ids[at as int]))
                        &&& final(self).next == at + 1
                        &&& final(self).pending == Some(id)
                        &&& id_views(final(self).keep@) == id_views(old(self).keep@).push(id@)
                    },
                    Ok(None) => {
                        &&& at == ids.len()
                        &&& final(self).finished()
                        &&& final(self).keep == old(self).keep
                    },
                    Err(e) => {
                        &&& at < ids.len()
                        &&& !is_id_hex(trim(ids[at as int]))
                        &&& final(self).keep == old(self).keep
                        &&& e matches CoreError::InvalidArgument(m) && m@ == invalid_id_text(
                            trim(ids[at as int]),
                        )
                    },
                }
            }),
    {
        let ghost ids = self.ids.deep_view();
        while self.next < self.ids.len() && is_blank(self.ids[self.next].as_str())
            invariant
                self.wf(),
                !self.failed,
                self.pending is None,
                self.ids == old(self).ids,
                self.keep == old(self).keep,
                self.roots == old(self).roots,
                ids == self.ids.deep_view(),
                self.next <= self.ids@.len(),
                next_named(ids, self.next as nat) == next_named(ids, old(self).next as nat),
            decreases self.ids@.len() - self.next,
        {
            proof {
                assert(blank(ids[self.next as int]));
                assert(ids.take(self.next + 1).drop_last() =~= ids.take(self.next as int));
            }
            self.next = self.next + 1;
        }
        if self.next >= self.ids.len() {
            return Ok(None);
        }
        assert(ids[self.next as int] == self.ids@[self.next as int]@);
        let id_hex = trimmed(self.ids[self.next].as_str());
        match ContentId::from_hex(id_hex.as_str()) {
            Ok(id) => {
                proof {
                    assert(ids.take(self.next + 1).drop_last() =~= ids.take(self.next as int));
                }
                self.keep.push(id);
                self.next = self.next + 1;
                self.pending = Some(id);
                assert(id_views(self.keep@) =~= id_views(old(self).keep@).push(id@));
                Ok(Some(id))
            },
            Err(e) => {
                self.failed = true;
                Err(e)
            },
        }
    }

    /// Takes the outcome of loading the snapshot that `next_root` returned: its chunks are marked,
    /// a missing snapshot is passed over, any other failure ends the run.
    pub fn loaded(&mut self, result: CoreResult<SnapshotManifest>) -> (res: CoreResult<()>)
        requires
            old(self).wf(),
            !old(self).failed,
            old(self).pending is Some,
        ensures
            final(self).wf(),
            final(self).ids == old(self).ids,
            final(self).next == old(self).next,
            final(self).failed == res is Err,
            res is Ok ==> final(self).pending is None && final(self).roots@
                == old(self).roots@.push((old(self).pending->0@, load_view(result))),
            match result {
                Ok(m) => {
                    let ids = volume_ids(m.volumes.deep_view());
                    match res {
                        Ok(_) => all_hex(ids) && id_views(final(self).keep@) == id_views(
                            old(self).keep@,
                        ) + unhex_all(ids),
                        Err(e) => !all_hex(ids) && e is InvalidArgument,
                    }
                },
                Err(e) => if e is NotFound {
                    res is Ok && final(self).keep == old(self).keep
                } else {
                    res == Err::<(), CoreError>(e) && final(self).keep == old(self).keep
                },
            },
    {
        let ghost view = load_view(result);
        let outcome = match result {
            Ok(m) => self.mark_manifest(&m),
            Err(CoreError::NotFound(_)) => Ok(()),
            Err(e) => Err(e),
        };
        match outcome {
            Ok(_) => {
                let ghost before = self.roots@;
                let ghost id = self.pending->0@;
                self.roots = Ghost(before.push((id, view)));
                self.pending = None;
                proof {
                    assert(self.roots@.drop_last() =~= before);
                    assert(root_ids(self.roots@) =~= root_ids(before).push(id));
                }
            },
            Err(_) => {
                self.failed = true;
            },
        }
        outcome
    }

    fn mark_manifest(&mut self, m: &SnapshotManifest) -> (res: CoreResult<()>)
        ensures
            *final(self) == (GcMark { keep: final(self).keep, ..*old(self) }),
            ({
                let ids = volume_ids(m.volumes.deep_view());
                match res {
                    Ok(_) => all_hex(ids) && id_views(final(self).keep@) == id_views(
                        old(self).keep@,
                    ) + unhex_all(ids),
                    Err(e) => !all_hex(ids) && e is InvalidArgument,
                }
            }),
    {
        let ghost volumes = m.volumes.deep_view();
        let ghost before = id_views(self.keep@);
        let mut i: usize = 0;
        proof {
            assert(volumes.take(0) =~= seq![]);
            assert(before + unhex_all(volume_ids(volumes.take(0))) =~= before);
        }
        while i < m.volumes.len()
            invariant
                i <= m.volumes@.len(),
                volumes == m.volumes.deep_view(),
                before == id_views(old(self).keep@),
                *self == (GcMark { keep: self.keep, ..*old(self) }),
                all_hex(volume_ids(volumes.take(i as int))),
                id_views(self.keep@) == before + unhex_all(volume_ids(volumes.take(i as int))),
            decreases m.volumes@.len() - i,
        {
            let ghost done = volume_ids(volumes.take(i as int));
            let ghost mid = id_views(self.keep@);
            let ghost these = volumes[i as int].chunk_ids;
            proof {
                assert(volumes.take(i + 1).drop_last() =~= volumes.take(i as int));
                assert(volume_ids(volumes.take(i + 1)) == done + these);
            }
            let mut j: usize = 0;
            assert(mid + unhex_all(these.take(0)) =~= mid);
            while j < m.volumes[i as usize].chunk_ids.len()
                invariant
                    i < m.volumes@.len(),
                    j <= these.len(),
                    volumes == m.volumes.deep_view(),
                    these == m.volumes@[i as int].chunk_ids.deep_view(),
                    these == volumes[i as int].chunk_ids,
                    *self == (GcMark { keep: self.keep, ..*old(self) }),
                    forall|k: int| 0 <= k < j ==> is_id_hex(#[trigger] these[k]),
                    id_views(self.keep@) == mid + unhex_all(these.take(j as int)),
                    volume_ids(volumes.take(i + 1)) == done + these,
                decreases these.len() - j,
            {
                let text = &m.volumes[i].chunk_ids[j];
                assert(text@ == these[j as int]);
                match ContentId::from_hex(text.as_str()) {
                    Ok(id) => {
                        let ghost now = id_views(self.keep@);
                        self.keep.push(id);
                        proof {
                            assert(id_views(self.keep@) =~= now.push(id@));
                            assert(unhex_all(these.take(j + 1)) =~= unhex_all(
                                these.take(j as int),
                            ).push(id@));
                        }
                    },
                    Err(e) => {
                        proof {
                            let all = done + these;
                            assert(all[done.len() + j] == these[j as int]);
                            assert(!all_hex(all));
                            lemma_volume_ids_prefix(volumes, i + 1);
                            assert(volume_ids(volumes)[done.len() + j] == all[done.len() + j]);
                            assert(!is_id_hex(volume_ids(volumes)[done.len() + j]));
                        }
                        return Err(e);
                    },
                }
                j += 1;
            }
            proof {
                assert(these.take(j as int) =~= these);
                assert(unhex_all(done + these) =~= unhex_all(done) + unhex_all(these));
                assert(mid + unhex_all(these) =~= before + unhex_all(done + these));
            }
            i += 1;
        }
        assert(volumes.take(i as int) =~= volumes);
        Ok(())
    }

    /// Whether `id` is marked as live.
    pub fn is_live(&self, id: &ContentId) -> (res: bool)
        ensures
            res == id_views(self.keep@).contains(id@),
    {
        let ghost live = id_views(self.keep@);
        let mut i: usize = 0;
        while i < self.keep.len()
            invariant
                i <= self.keep@.len(),
                live == id_views(self.keep@),
                forall|j: int| 0 <= j < i ==> #[trigger] live[j] != id@,
            decreases self.keep@.len() - i,
        {
            if self.keep[i].same(id) {
                assert(live[i as int] == id@);
                return true;
            }
            assert(live[i as int] != id@);
            i += 1;
        }
        false
    }

    /// The listed objects that no marked snapshot references, in the order listed: what a sweep
    /// deletes, once every snapshot was marked and loaded.
    pub fn gc_unreferenced(&self, listed: &Vec<ContentId>) -> (res: Vec<ContentId>)
        requires
            self.finished(),
        ensures
            id_views(res@) == unreferenced(mark_all(seq![], self.roots@), id_views(listed@)),
    {
        let mut out: Vec<ContentId> = Vec::new();
        let mut i: usize = 0;
        let ghost all = id_views(listed@);
        let ghost live = id_views(self.keep@);
        assert(all.take(0) =~= seq![]);
        assert(id_views(out@) =~= seq![]);
        while i < listed.len()
            invariant
                i <= listed@.len(),
                all == id_views(listed@),
                live == id_views(self.keep@),
                id_views(out@) == unreferenced(live, all.take(i as int)),
            decreases listed@.len() - i,
        {
            proof {
                assert(all.take(i + 1).drop_last() =~= all.take(i as int));
            }
            let ghost before = id_views(out@);
            if !self.is_live(&listed[i]) {
                out.push(listed[i]);
                assert(id_views(out@) =~= before.push(listed@[i as int]@));
            }
            i += 1;
        }
        assert(all.take(i as int) =~= all);
        out
    }
}

proof fn lemma_volume_ids_prefix(volumes: Seq<VolumeView>, n: int)
    requires
        0 <= n <= volumes.len(),
    ensures
        volume_ids(volumes.take(n)).len() <= volume_ids(volumes).len(),
        forall|k: int|
            0 <= k < volume_ids(volumes.take(n)).len() ==> #[trigger] volume_ids(
                volumes.take(n),
            )[k] == volume_ids(volumes)[k],
    decreases volumes.len() - n,
{
    if n == volumes.len() {
        assert(volumes.take(n) =~= volumes);
    } else {
        lemma_volume_ids_prefix(volumes, n + 1);
        assert(volumes.take(n + 1).drop_last() =~= volumes.take(n));
        let shorter = volume_ids(volumes.take(n));
        let longer = volume_ids(volumes.take(n + 1));
        assert(longer == shorter + volumes[n].chunk_ids);
        assert forall|k: int| 0 <= k < shorter.len() implies #[trigger] shorter[k] == volume_ids(
            volumes,
        )[k] by {
            assert(longer[k] == shorter[k]);
        }
    }
}

/// The listed ids that are not live, in order.
pub open spec fn unreferenced(live: Seq<Seq<u8>>, listed: Seq<Seq<u8>>) -> Seq<Seq<u8>>
    decreases listed.len(),
{
    if listed.len() == 0 {
        seq![]
    } else {
        let rest = unreferenced(live, listed.drop_last());
        if live.contains(listed.last()) {
            rest
        } else {
            rest.push(listed.last())
        }
    }
}

/// Exactly the listed ids that are not live are deleted.
pub proof fn law_sweep_deletes_exactly_unreferenced(
    live: Seq<Seq<u8>>,
    listed: Seq<Seq<u8>>,
    id: Seq<u8>,
)
    ensures
        unreferenced(live, listed).contains(id) <==> listed.contains(id) && !live.contains(id),
    decreases listed.len(),
{
    if listed.len() > 0 {
        let init = listed.drop_last();
        let rest = unreferenced(live, init);
        law_sweep_deletes_exactly_unreferenced(live, init, id);
        let all = unreferenced(live, listed);
        if listed.contains(id) {
            let i = choose|i: int| 0 <= i < listed.len() && listed[i] == id;
            if i < init.len() {
                assert(init[i] == id);
                if rest.contains(id) {
                    let k = choose|k: int| 0 <= k < rest.len() && rest[k] == id;
                    assert(all[k] == id);
                }
            } else if !live.contains(id) {
                assert(all[all.len() - 1] == id);
            }
        }
        if all.contains(id) {
            let k = choose|k: int| 0 <= k < all.len() && all[k] == id;
            if k < rest.len() {
                assert(rest[k] == id);
                let i = choose|i: int| 0 <= i < init.len() && init[i] == id;
                assert(listed[i] == id);
            } else {
                assert(listed[listed.len() - 1] == id);
            }
        }
    } else {
        assert(!listed.contains(id));
    }
}

/// What is live after one snapshot and its load: the snapshot itself, and its chunks where it was
/// found.
pub open spec fn mark_step(live: Seq<Seq<u8>>, id: Seq<u8>, manifest: Option<ManifestView>) -> Seq<
    Seq<u8>,
> {
    match manifest {
        Some(m) => live.push(id) + unhex_all(volume_ids(m.volumes)),
        None => live.push(id),
    }
}

/// What is live after all of `roots` were marked and loaded.
pub open spec fn mark_all(
    live: Seq<Seq<u8>>,
    roots: Seq<(Seq<u8>, Option<ManifestView>)>,
) -> Seq<Seq<u8>>
    decreases roots.len(),
{
    if roots.len() == 0 {
        live
    } else {
        mark_step(mark_all(live, roots.drop_last()), roots.last().0, roots.last().1)
    }
}

/// The store once everything that is not live is deleted.
pub open spec fn swept(store: Map<Seq<u8>, Seq<u8>>, live: Seq<Seq<u8>>) -> Map<Seq<u8>, Seq<u8>> {
    store.restrict(live.to_set())
}

/// Every kept snapshot and every chunk it references is live.
pub proof fn law_marked_snapshots_are_live(
    live: Seq<Seq<u8>>,
    roots: Seq<(Seq<u8>, Option<ManifestView>)>,
    i: int,
)
    requires
        0 <= i < roots.len(),
    ensures
        mark_all(live, roots).contains(roots[i].0),
        roots[i].1 matches Some(m) ==> forall|k: int|
            0 <= k < volume_ids(m.volumes).len() ==> mark_all(live, roots).contains(
                unhex(#[trigger] volume_ids(m.volumes)[k]),
            ),
    decreases roots.len(),
{
    let n = roots.len() - 1;
    let before = mark_all(live, roots.drop_last());
    let after = mark_all(live, roots);
    if i < n {
        law_marked_snapshots_are_live(live, roots.drop_last(), i);
        lemma_mark_step_keeps(before, roots[n].0, roots[n].1, roots[i].0);
        if let Some(m) = roots[i].1 {
            assert forall|k: int| 0 <= k < volume_ids(m.volumes).len() implies after.contains(
                unhex(#[trigger] volume_ids(m.volumes)[k]),
            ) by {
                lemma_mark_step_keeps(
                    before,
                    roots[n].0,
                    roots[n].1,
                    unhex(volume_ids(m.volumes)[k]),
                );
            }
        }
    } else {
        assert(after[before.len() as int] == roots[n].0);
        if let Some(m) = roots[n].1 {
            let ids = volume_ids(m.volumes);
            assert forall|k: int| 0 <= k < ids.len() implies after.contains(
                unhex(#[trigger] ids[k]),
            ) by {
                assert(unhex_all(ids)[k] == unhex(ids[k]));
                assert(after[before.len() + 1 + k] == unhex(ids[k]));
            }
        }
    }
}

proof fn lemma_mark_step_keeps(
    live: Seq<Seq<u8>>,
    id: Seq<u8>,
    manifest: Option<ManifestView>,
    x: Seq<u8>,
)
    requires
        live.contains(x),
    ensures
        mark_step(live, id, manifest).contains(x),
{
    let k = choose|k: int| 0 <= k < live.len() && live[k] == x;
    assert(mark_step(live, id, manifest)[k] == x);
}

/// A sweep keeps every live object as it is and removes every other one.
pub proof fn law_sweep_keeps_live_objects(
    store: Map<Seq<u8>, Seq<u8>>,
    live: Seq<Seq<u8>>,
    id: Seq<u8>,
)
    ensures
        live.contains(id) && store.contains_key(id) ==> swept(store, live).contains_key(id)
            && swept(store, live)[id] == store[id],
        swept(store, live).contains_key(id) ==> live.contains(id) && store.contains_key(id),
{
}

/// A second sweep finds nothing to delete.
pub proof fn law_sweep_is_idempotent(store: Map<Seq<u8>, Seq<u8>>, live: Seq<Seq<u8>>)
    ensures
        swept(swept(store, live), live) == swept(store, live),
{
    assert(swept(swept(store, live), live) =~= swept(store, live));
}

/// The store once the objects with the given ids are deleted.
pub open spec fn deleted(store: Map<Seq<u8>, Seq<u8>>, ids: Seq<Seq<u8>>) -> Map<
    Seq<u8>,
    Seq<u8>,
> {
    store.remove_keys(ids.to_set())
}

/// Deleting what the sweep hands out, of everything that the store lists, leaves the live objects.
pub proof fn law_deleting_unreferenced_is_the_sweep(
    store: Map<Seq<u8>, Seq<u8>>,
    live: Seq<Seq<u8>>,
    listed: Seq<Seq<u8>>,
)
    requires
        forall|id: Seq<u8>| listed.contains(id) <==> store.contains_key(id),
    ensures
        deleted(store, unreferenced(live, listed)) == swept(store, live),
{
    let gone = unreferenced(live, listed);
    assert forall|id: Seq<u8>|
        deleted(store, gone).contains_key(id) <==> swept(store, live).contains_key(id) by {
        law_sweep_deletes_exactly_unreferenced(live, listed, id);
        assert(gone.to_set().contains(id) <==> gone.contains(id));
        assert(live.to_set().contains(id) <==> live.contains(id));
        assert(listed.contains(id) <==> store.contains_key(id));
    }
    assert(deleted(store, gone) =~= swept(store, live));
}

proof fn lemma_named_contains(ids: Seq<Seq<char>>, i: int)
    requires
        0 <= i < ids.len(),
        !blank(ids[i]),
    ensures
        named_ids(ids).contains(unhex(trim(ids[i]))),
    decreases ids.len(),
{
    let n = ids.len() - 1;
    let rest = named_ids(ids.drop_last());
    if i < n {
        lemma_named_contains(ids.drop_last(), i);
        let k = choose|k: int| 0 <= k < rest.len() && rest[k] == unhex(trim(ids[i]));
        assert(named_ids(ids)[k] == rest[k]);
    } else {
        assert(named_ids(ids)[rest.len() as int] == unhex(trim(ids[n])));
    }
}

/// Once a mark is finished, every snapshot that it was given is among those marked and loaded, and
/// nothing else is.
pub proof fn law_finished_mark_covers_every_snapshot(mark: GcMark)
    requires
        mark.finished(),
    ensures
        root_ids(mark.roots@) == named_ids(mark.ids.deep_view()),
        forall|i: int|
            0 <= i < mark.ids@.len() && !blank(mark.ids@[i]@) ==> root_ids(mark.roots@).contains(
                unhex(trim(#[trigger] mark.ids@[i]@)),
            ),
{
    let ids = mark.ids.deep_view();
    assert(ids.take(mark.next as int) =~= ids);
    assert forall|i: int| 0 <= i < mark.ids@.len() && !blank(mark.ids@[i]@) implies root_ids(
        mark.roots@,
    ).contains(unhex(trim(#[trigger] mark.ids@[i]@))) by {
        assert(ids[i] == mark.ids@[i]@);
        lemma_named_contains(ids, i);
    }
}

/// A sweep after a finished mark deletes neither a kept snapshot nor a chunk of it, and each volume
/// of the snapshot restores afterwards as it did before.
pub proof fn law_kept_snapshot_survives_the_sweep(
    mark: GcMark,
    store: Map<Seq<u8>, Seq<u8>>,
    listed: Seq<Seq<u8>>,
    key: Option<Seq<u8>>,
    i: int,
    v: int,
)
    requires
        mark.finished(),
        0 <= i < mark.roots@.len(),
        mark.roots@[i].1 is Some,
        0 <= v < mark.roots@[i].1->0.volumes.len(),
        forall|id: Seq<u8>| listed.contains(id) <==> store.contains_key(id),
    ensures
        ({
            let gone = unreferenced(mark_all(seq![], mark.roots@), listed);
            let ids = mark.roots@[i].1->0.volumes[v].chunk_ids;
            &&& !gone.contains(mark.roots@[i].0)
            &&& forall|k: int| 0 <= k < ids.len() ==> !gone.contains(unhex(#[trigger] ids[k]))
            &&& materialized(deleted(store, gone), key, ids) == materialized(store, key, ids)
        }),
{
    let live = mark_all(seq![], mark.roots@);
    let gone = unreferenced(live, listed);
    let volumes = mark.roots@[i].1->0.volumes;
    let ids = volumes[v].chunk_ids;
    law_marked_snapshots_are_live(seq![], mark.roots@, i);
    law_sweep_deletes_exactly_unreferenced(live, listed, mark.roots@[i].0);
    assert forall|k: int| 0 <= k < ids.len() implies live.contains(unhex(#[trigger] ids[k])) by {
        lemma_volume_ids_hold(volumes, v, k);
    }
    assert forall|k: int| 0 <= k < ids.len() implies !gone.contains(unhex(#[trigger] ids[k])) by {
        law_sweep_deletes_exactly_unreferenced(live, listed, unhex(ids[k]));
    }
    law_deleting_unreferenced_is_the_sweep(store, live, listed);
    law_sweep_preserves_restore(store, live, key, ids);
}

proof fn lemma_volume_ids_hold(volumes: Seq<VolumeView>, v: int, k: int)
    requires
        0 <= v < volumes.len(),
        0 <= k < volumes[v].chunk_ids.len(),
    ensures
        exists|j: int|
            0 <= j < volume_ids(volumes).len() && #[trigger] volume_ids(volumes)[j]
                == volumes[v].chunk_ids[k],
    decreases volumes.len(),
{
    let front = volume_ids(volumes.drop_last());
    if v < volumes.len() - 1 {
        lemma_volume_ids_hold(volumes.drop_last(), v, k);
        let j = choose|j: int|
            0 <= j < front.len() && #[trigger] front[j] == volumes[v].chunk_ids[k];
        assert(volume_ids(volumes)[j] == front[j]);
    } else {
        assert(volume_ids(volumes)[front.len() + k] == volumes[v].chunk_ids[k]);
    }
}

/// A snapshot whose chunks are live restores after the sweep as it did before, also where it
/// shares chunks with a snapshot that was dropped.
pub proof fn law_sweep_preserves_restore(
    store: Map<Seq<u8>, Seq<u8>>,
    live: Seq<Seq<u8>>,
    key: Option<Seq<u8>>,
    ids: Seq<Seq<char>>,
)
    requires
        forall|k: int| 0 <= k < ids.len() ==> live.contains(unhex(#[trigger] ids[k])),
    ensures
        materialized(swept(store, live), key, ids) == materialized(store, key, ids),
    decreases ids.len(),
{
    if ids.len() > 0 {
        let rest = ids.skip(1);
        assert forall|k: int| 0 <= k < rest.len() implies live.contains(
            unhex(#[trigger] rest[k]),
        ) by {
            assert(rest[k] == ids[k + 1]);
        }
        law_sweep_preserves_restore(store, live, key, rest);
        assert(live.contains(unhex(ids[0])));
    }
}

/// Whether a kept snapshot refers to the object: it is one of them, or a chunk of one.
pub open spec fn refers_to(root: (Seq<u8>, Option<ManifestView>), id: Seq<u8>) -> bool {
    ||| root.0 == id
    ||| root.1 matches Some(m) && exists|v: int, k: int|
        0 <= v < m.volumes.len() && 0 <= k < m.volumes[v].chunk_ids.len() && unhex(
            #[trigger] m.volumes[v].chunk_ids[k],
        ) == id
}

proof fn lemma_volume_ids_come_from(volumes: Seq<VolumeView>, j: int)
    requires
        0 <= j < volume_ids(volumes).len(),
    ensures
        exists|v: int, k: int|
            0 <= v < volumes.len() && 0 <= k < volumes[v].chunk_ids.len()
                && #[trigger] volumes[v].chunk_ids[k] == volume_ids(volumes)[j],
    decreases volumes.len(),
{
    if volumes.len() > 0 {
        let front = volume_ids(volumes.drop_last());
        if j < front.len() {
            lemma_volume_ids_come_from(volumes.drop_last(), j);
            let (v, k) = choose|v: int, k: int|
                0 <= v < volumes.drop_last().len() && 0 <= k < volumes.drop_last()[v].chunk_ids
                    .len() && #[trigger] volumes.drop_last()[v].chunk_ids[k] == front[j];
            assert(volumes[v].chunk_ids[k] == volume_ids(volumes)[j]);
        } else {
            let v = volumes.len() - 1;
            assert(volumes[v].chunk_ids[j - front.len()] == volume_ids(volumes)[j]);
        }
    }
}

/// An object is live exactly where a kept snapshot refers to it: every snapshot and every chunk of
/// one is, and nothing else is.
pub proof fn law_live_is_what_is_referred_to(
    roots: Seq<(Seq<u8>, Option<ManifestView>)>,
    id: Seq<u8>,
)
    ensures
        mark_all(seq![], roots).contains(id) <==> exists|i: int|
            0 <= i < roots.len() && #[trigger] refers_to(roots[i], id),
    decreases roots.len(),
{
    if roots.len() == 0 {
        assert(!mark_all(seq![], roots).contains(id));
    } else {
        let n = roots.len() - 1;
        let init = roots.drop_last();
        law_live_is_what_is_referred_to(init, id);
        let before = mark_all(seq![], init);
        let after = mark_all(seq![], roots);
        let last = roots[n];
        if before.contains(id) {
            lemma_mark_step_keeps(before, last.0, last.1, id);
            let i = choose|i: int| 0 <= i < init.len() && #[trigger] refers_to(init[i], id);
            assert(refers_to(roots[i], id));
        }
        if after.contains(id) && !before.contains(id) {
            let k = choose|k: int| 0 <= k < after.len() && after[k] == id;
            if k < before.len() {
                assert(before[k] == id);
            } else if k == before.len() {
                assert(refers_to(roots[n], id));
            } else {
                let ids = volume_ids(last.1->0.volumes);
                let j = k - before.len() - 1;
                assert(unhex_all(ids)[j] == id);
                lemma_volume_ids_come_from(last.1->0.volumes, j);
                assert(refers_to(roots[n], id));
            }
        }
        if exists|i: int| 0 <= i < roots.len() && #[trigger] refers_to(roots[i], id) {
            let i = choose|i: int| 0 <= i < roots.len() && #[trigger] refers_to(roots[i], id);
            law_marked_snapshots_are_live(seq![], roots, i);
            if roots[i].0 != id {
                let volumes = roots[i].1->0.volumes;
                let (v, k) = choose|v: int, k: int|
                    0 <= v < volumes.len() && 0 <= k < volumes[v].chunk_ids.len() && unhex(
                        #[trigger] volumes[v].chunk_ids[k],
                    ) == id;
                lemma_volume_ids_hold(volumes, v, k);
            }
        }
    }
}

/// A sweep after a finished mark deletes an object exactly where it is listed and no kept snapshot
/// refers to it.
pub proof fn law_sweep_deletes_what_nothing_refers_to(
    mark: GcMark,
    listed: Seq<Seq<u8>>,
    id: Seq<u8>,
)
    requires
        mark.finished(),
    ensures
        unreferenced(mark_all(seq![], mark.roots@), listed).contains(id) <==> listed.contains(id)
            && forall|i: int|
            0 <= i < mark.roots@.len() ==> !(#[trigger] refers_to(mark.roots@[i], id)),
{
    law_live_is_what_is_referred_to(mark.roots@, id);
    law_sweep_deletes_exactly_unreferenced(mark_all(seq![], mark.roots@), listed, id);
}

/// Nothing is deleted that was not listed, and what is deleted is in the order of the list.
pub proof fn law_sweep_follows_the_list(live: Seq<Seq<u8>>, listed: Seq<Seq<u8>>, id: Seq<u8>)
    ensures
        unreferenced(live, listed).len() <= listed.len(),
        unreferenced(live, listed.push(id)) == (if live.contains(id) {
            unreferenced(live, listed)
        } else {
            unreferenced(live, listed).push(id)
        }),
    decreases listed.len(),
{
    assert(listed.push(id).drop_last() =~= listed);
    if listed.len() > 0 {
        law_sweep_follows_the_list(live, listed.drop_last(), id);
    }
}

/// The snapshots are marked one after the other: the next is the first entry from the position on
/// that is not blank.
pub proof fn law_next_root_is_the_next_named(ids: Seq<Seq<char>>, from: nat)
    requires
        from <= ids.len(),
    ensures
        from <= next_named(ids, from) <= ids.len(),
        next_named(ids, from) < ids.len() ==> !blank(ids[next_named(ids, from) as int]),
        forall|i: int| from <= i < next_named(ids, from) ==> blank(#[trigger] ids[i]),
    decreases ids.len() - from,
{
    if from < ids.len() && blank(ids[from as int]) {
        law_next_root_is_the_next_named(ids, from + 1);
    }
}

/// The snapshots that a list names are its entries that are not blank, in order and without the
/// white space round them.
pub proof fn law_named_snapshots_are_the_entries(ids: Seq<Seq<char>>, id: Seq<char>)
    ensures
        named_ids(Seq::<Seq<char>>::empty()) == Seq::<Seq<u8>>::empty(),
        named_ids(ids.push(id)) == (if blank(id) {
            named_ids(ids)
        } else {
            named_ids(ids).push(unhex(trim(id)))
        }),
{
    assert(ids.push(id).drop_last() =~= ids);
}

} // verus!
