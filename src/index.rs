//! The remote index: what is believed to be stored remotely for each
//! timeline, and the index part that publishes one timeline's entry.

use vstd::prelude::*;

use crate::layers::{views_of, LayerSet};
use crate::timeline::{SyncId, TimelineMetadata};

verus! {

/// What is believed to be stored remotely for one timeline.
pub struct RemoteTimeline {
    /// The newest metadata known to be uploaded.
    pub metadata: TimelineMetadata,
    /// Layers believed present in the remote storage.
    pub stored_files: LayerSet,
    /// Layers whose last upload attempt failed.
    pub upload_failed_files: LayerSet,
    /// Whether the remote storage has layers that the local timeline lacks,
    /// so that the timeline cannot be used before a download.
    pub awaits_download: bool,
}

/// The value of a `RemoteTimeline`.
pub struct RemoteTimelineModel {
    pub metadata: TimelineMetadata,
    pub stored_files: Set<Seq<char>>,
    pub upload_failed_files: Set<Seq<char>>,
    pub awaits_download: bool,
}

impl View for RemoteTimeline {
    type V = RemoteTimelineModel;

    open spec fn view(&self) -> RemoteTimelineModel {
        RemoteTimelineModel {
            metadata: self.metadata,
            stored_files: self.stored_files@,
            upload_failed_files: self.upload_failed_files@,
            awaits_download: self.awaits_download,
        }
    }
}

impl RemoteTimeline {
    /// A timeline with `metadata` and no layer.
    pub fn new(metadata: TimelineMetadata) -> (r: RemoteTimeline)
        ensures
            r@ == (RemoteTimelineModel {
                metadata,
                stored_files: Set::empty(),
                upload_failed_files: Set::empty(),
                awaits_download: false,
            }),
    {
        RemoteTimeline {
            metadata,
            stored_files: LayerSet::new(),
            upload_failed_files: LayerSet::new(),
            awaits_download: false,
        }
    }

    /// The layers believed present remotely.
    pub fn stored_files(&self) -> (r: &LayerSet)
        ensures
            r@ == self.stored_files@,
    {
        &self.stored_files
    }

    /// Records `layers` as stored.
    pub fn add_timeline_layers(&mut self, layers: &LayerSet)
        ensures
            final(self)@ == (RemoteTimelineModel {
                stored_files: old(self)@.stored_files.union(layers@),
                ..old(self)@
            }),
    {
        self.stored_files.extend(layers);
    }

    /// Records `layers` as failed uploads.
    pub fn add_upload_failures(&mut self, layers: &LayerSet)
        ensures
            final(self)@ == (RemoteTimelineModel {
                upload_failed_files: old(self)@.upload_failed_files.union(layers@),
                ..old(self)@
            }),
    {
        self.upload_failed_files.extend(layers);
    }

    /// Records `layers` as no longer stored.
    pub fn remove_layers(&mut self, layers: &LayerSet)
        ensures
            final(self)@ == (RemoteTimelineModel {
                stored_files: old(self)@.stored_files.difference(layers@),
                ..old(self)@
            }),
    {
        self.stored_files.remove_all(layers);
    }

    /// Takes `metadata` where it is newer than the one held.
    pub fn update_metadata_if_newer(&mut self, metadata: &TimelineMetadata)
        ensures
            final(self)@ == (RemoteTimelineModel {
                metadata: if old(self).metadata.disk_consistent_lsn
                    < metadata.disk_consistent_lsn {
                    *metadata
                } else {
                    old(self).metadata
                },
                ..old(self)@
            }),
    {
        if self.metadata.disk_consistent_lsn < metadata.disk_consistent_lsn {
            self.metadata = *metadata;
        }
    }

    /// A timeline with the same value.
    pub fn duplicate(&self) -> (r: RemoteTimeline)
        ensures
            r@ == self@,
    {
        RemoteTimeline {
            metadata: self.metadata,
            stored_files: self.stored_files.duplicate(),
            upload_failed_files: self.upload_failed_files.duplicate(),
            awaits_download: self.awaits_download,
        }
    }
}

/// The identifiers of the entries `s`, in order.
pub open spec fn ids_of(s: Seq<(SyncId, RemoteTimeline)>) -> Seq<SyncId> {
    s.map_values(|e: (SyncId, RemoteTimeline)| e.0)
}

/// The map from identifier to timeline that the entries `s` hold.
pub open spec fn entries_map(s: Seq<(SyncId, RemoteTimeline)>) -> Map<SyncId, RemoteTimelineModel> {
    Map::new(|id: SyncId| ids_of(s).contains(id), |id: SyncId| s[ids_of(s).index_of(id)].1@)
}

proof fn lemma_entries_map_at(s: Seq<(SyncId, RemoteTimeline)>, j: int)
    requires
        ids_of(s).no_duplicates(),
        0 <= j < s.len(),
    ensures
        entries_map(s).contains_key(s[j].0),
        entries_map(s)[s[j].0] == s[j].1@,
{
    let ids = ids_of(s);
    assert(ids[j] == s[j].0);
    assert(ids.contains(s[j].0));
    let k = ids.index_of(s[j].0);
    assert(0 <= k < ids.len() && ids[k] == s[j].0);
}

proof fn lemma_entries_map_has(s: Seq<(SyncId, RemoteTimeline)>, id: SyncId)
    requires
        entries_map(s).contains_key(id),
    ensures
        exists|j: int| 0 <= j < s.len() && #[trigger] s[j].0 == id,
{
    let ids = ids_of(s);
    let j = choose|j: int| 0 <= j < ids.len() && ids[j] == id;
    assert(s[j].0 == id);
}

/// The in-memory index of what the remote storage holds, by timeline.
pub struct RemoteTimelineIndex {
    entries: Vec<(SyncId, RemoteTimeline)>,
}

impl View for RemoteTimelineIndex {
    type V = Map<SyncId, RemoteTimelineModel>;

    closed spec fn view(&self) -> Map<SyncId, RemoteTimelineModel> {
        entries_map(self.entries@)
    }
}

/// What the remote index refuses.
#[derive(Clone, Copy, Debug, PartialEq, Eq, Structural)]
pub enum IndexError {
    /// The timeline has no entry.
    NoEntry,
}

impl RemoteTimelineIndex {
    #[verifier::type_invariant]
    closed spec fn unique_ids(&self) -> bool {
        ids_of(self.entries@).no_duplicates()
    }

    /// An index with no entry.
    pub fn empty() -> (r: RemoteTimelineIndex)
        ensures
            r@ == Map::<SyncId, RemoteTimelineModel>::empty(),
    {
        let r = RemoteTimelineIndex { entries: Vec::new() };
        proof {
            assert(ids_of(r.entries@) =~= Seq::<SyncId>::empty());
            assert(r@ =~= Map::<SyncId, RemoteTimelineModel>::empty());
        }
        r
    }

    fn position(&self, id: SyncId) -> (r: Option<usize>)
        ensures
            match r {
                Some(i) => i < self.entries@.len() && self.entries@[i as int].0 == id,
                None => !self@.contains_key(id),
            },
    {
        let mut i: usize = 0;
        while i < self.entries.len()
            invariant
                0 <= i <= self.entries@.len(),
                forall|j: int| 0 <= j < i ==> self.entries@[j].0 != id,
            decreases self.entries@.len() - i,
        {
            if self.entries[i].0 == id {
                return Some(i);
            }
            i = i + 1;
        }
        proof {
            if self@.contains_key(id) {
                lemma_entries_map_has(self.entries@, id);
            }
        }
        None
    }

    /// Whether the timeline has an entry.
    pub fn contains(&self, id: SyncId) -> (r: bool)
        ensures
            r == self@.contains_key(id),
    {
        proof {
            use_type_invariant(self);
        }
        match self.position(id) {
            Some(i) => {
                proof {
                    lemma_entries_map_at(self.entries@, i as int);
                }
                true
            },
            None => false,
        }
    }

    /// The entry of the timeline, if it has one.
    pub fn timeline_entry(&self, id: SyncId) -> (r: Option<&RemoteTimeline>)
        ensures
            match r {
                Some(t) => self@.contains_key(id) && t@ == self@[id],
                None => !self@.contains_key(id),
            },
    {
        proof {
            use_type_invariant(self);
        }
        match self.position(id) {
            Some(i) => {
                proof {
                    lemma_entries_map_at(self.entries@, i as int);
                }
                Some(&self.entries[i].1)
            },
            None => None,
        }
    }

    /// Takes the entry of the timeline out of the index.
    pub fn take_timeline_entry(&mut self, id: SyncId) -> (r: Option<RemoteTimeline>)
        ensures
            final(self)@ == old(self)@.remove(id),
            match r {
                Some(t) => old(self)@.contains_key(id) && t@ == old(self)@[id],
                None => !old(self)@.contains_key(id),
            },
    {
        proof {
            use_type_invariant(&*self);
        }
        match self.position(id) {
            None => {
                proof {
                    assert(self@.remove(id) =~= self@);
                }
                None
            },
            Some(i) => {
                let ghost s = self.entries@;
                proof {
                    lemma_entries_map_at(s, i as int);
                }
                let mut entries = Vec::new();
                std::mem::swap(&mut entries, &mut self.entries);
                let (_, t) = entries.swap_remove(i);
                proof {
                    let s2 = entries@;
                    let ids = ids_of(s);
                    let ids2 = ids_of(s2);
                    assert forall|a: int, b: int|
                        0 <= a < ids2.len() && 0 <= b < ids2.len() && a != b implies ids2[a]
                        != ids2[b] by {
                        let a0 = if a == i && i < s.len() - 1 {
                            s.len() - 1
                        } else {
                            a
                        };
                        let b0 = if b == i && i < s.len() - 1 {
                            s.len() - 1
                        } else {
                            b
                        };
                        assert(ids2[a] == ids[a0]);
                        assert(ids2[b] == ids[b0]);
                    }
                    assert(ids2.no_duplicates());
                    assert forall|k: SyncId| #[trigger]
                        entries_map(s2).contains_key(k) == entries_map(s).remove(
                            id,
                        ).contains_key(k) by {
                        if entries_map(s2).contains_key(k) {
                            lemma_entries_map_has(s2, k);
                            let j = choose|j: int| 0 <= j < s2.len() && #[trigger] s2[j].0 == k;
                            let j0 = if j == i && i < s.len() - 1 {
                                s.len() - 1
                            } else {
                                j
                            };
                            assert(s2[j] == s[j0]);
                            lemma_entries_map_at(s, j0);
                            assert(ids[j0] != ids[i as int]);
                        }
                        if entries_map(s).remove(id).contains_key(k) {
                            lemma_entries_map_has(s, k);
                            let j = choose|j: int| 0 <= j < s.len() && #[trigger] s[j].0 == k;
                            assert(j != i);
                            let j2 = if j == s.len() - 1 {
                                i as int
                            } else {
                                j
                            };
                            assert(s2[j2] == s[j]);
                            lemma_entries_map_at(s2, j2);
                        }
                    }
                    assert forall|k: SyncId| #[trigger]
                        entries_map(s2).contains_key(k) implies entries_map(s2)[k]
                        == entries_map(s)[k] by {
                        lemma_entries_map_has(s2, k);
                        let j = choose|j: int| 0 <= j < s2.len() && #[trigger] s2[j].0 == k;
                        let j0 = if j == i && i < s.len() - 1 {
                            s.len() - 1
                        } else {
                            j
                        };
                        assert(s2[j] == s[j0]);
                        lemma_entries_map_at(s, j0);
                        lemma_entries_map_at(s2, j);
                    }
                    assert(entries_map(s2) =~= entries_map(s).remove(id));
                }
                self.entries = entries;
                Some(t)
            },
        }
    }

    /// Sets the entry of the timeline, replacing any entry it had.
    pub fn add_timeline_entry(&mut self, id: SyncId, entry: RemoteTimeline)
        ensures
            final(self)@ == old(self)@.insert(id, entry@),
    {
        let _ = self.take_timeline_entry(id);
        proof {
            use_type_invariant(&*self);
        }
        let ghost s = self.entries@;
        let ghost e = entry@;
        let mut entries = Vec::new();
        std::mem::swap(&mut entries, &mut self.entries);
        entries.push((id, entry));
        proof {
            let s2 = entries@;
            let ids = ids_of(s);
            let ids2 = ids_of(s2);
            assert(ids2 =~= ids.push(id));
            assert(!entries_map(s).contains_key(id));
            assert(!ids.contains(id));
            assert forall|a: int, b: int|
                0 <= a < ids2.len() && 0 <= b < ids2.len() && a != b implies ids2[a]
                != ids2[b] by {
                if a == ids.len() {
                    assert(ids[b] == ids2[b]);
                } else if b == ids.len() {
                    assert(ids[a] == ids2[a]);
                }
            }
            assert(ids2.no_duplicates());
            lemma_entries_map_at(s2, s.len() as int);
            assert forall|k: SyncId| #[trigger]
                entries_map(s2).contains_key(k) == entries_map(s).insert(id, e).contains_key(
                    k,
                ) by {
                if entries_map(s2).contains_key(k) && k != id {
                    lemma_entries_map_has(s2, k);
                    let j = choose|j: int| 0 <= j < s2.len() && #[trigger] s2[j].0 == k;
                    assert(s2[j] == s[j]);
                    lemma_entries_map_at(s, j);
                }
                if entries_map(s).contains_key(k) {
                    lemma_entries_map_has(s, k);
                    let j = choose|j: int| 0 <= j < s.len() && #[trigger] s[j].0 == k;
                    assert(s2[j] == s[j]);
                    lemma_entries_map_at(s2, j);
                }
            }
            assert forall|k: SyncId| #[trigger]
                entries_map(s2).contains_key(k) implies entries_map(s2)[k] == entries_map(
                s,
            ).insert(id, e)[k] by {
                if k != id {
                    lemma_entries_map_has(s2, k);
                    let j = choose|j: int| 0 <= j < s2.len() && #[trigger] s2[j].0 == k;
                    assert(s2[j] == s[j]);
                    lemma_entries_map_at(s, j);
                    lemma_entries_map_at(s2, j);
                }
            }
            assert(entries_map(s2) =~= entries_map(s).insert(id, e));
        }
        self.entries = entries;
    }

    /// Sets the `awaits_download` flag of the timeline; fails where the
    /// timeline has no entry.
    pub fn set_awaits_download(&mut self, id: SyncId, awaits_download: bool) -> (r: Result<
        (),
        IndexError,
    >)
        ensures
            old(self)@.contains_key(id) ==> r is Ok && final(self)@ == old(self)@.insert(
                id,
                RemoteTimelineModel { awaits_download, ..old(self)@[id] },
            ),
            !old(self)@.contains_key(id) ==> r == Err::<(), IndexError>(IndexError::NoEntry)
                && final(self)@ == old(self)@,
    {
        match self.take_timeline_entry(id) {
            Some(mut entry) => {
                entry.awaits_download = awaits_download;
                self.add_timeline_entry(id, entry);
                proof {
                    assert(old(self)@.remove(id).insert(id, entry@) =~= old(self)@.insert(
                        id,
                        entry@,
                    ));
                }
                Ok(())
            },
            None => {
                proof {
                    assert(old(self)@.remove(id) =~= old(self)@);
                }
                Err(IndexError::NoEntry)
            },
        }
    }
}

/// The version of the index part layout that this library writes and
/// reads.
pub const INDEX_PART_VERSION: u32 = 1;

/// The remote copy of a timeline's index entry: one object per timeline
/// in the remote storage, listing its layers.
pub struct IndexPart {
    pub version: u32,
    pub metadata: TimelineMetadata,
    /// Layers stored remotely.
    pub timeline_layers: Vec<String>,
    /// Layers whose upload failed.
    pub missing_layers: Vec<String>,
}

/// Why an index part was refused.
#[derive(Clone, Copy, Debug, PartialEq, Eq, Structural)]
pub enum IndexPartError {
    /// The part was written in a layout of another version.
    UnknownVersion(u32),
}

/// The remote entry that a readable index part describes.
pub open spec fn timeline_of_part(p: IndexPart) -> RemoteTimelineModel {
    RemoteTimelineModel {
        metadata: p.metadata,
        stored_files: views_of(p.timeline_layers@).to_set(),
        upload_failed_files: views_of(p.missing_layers@).to_set(),
        awaits_download: false,
    }
}

/// Whether `p` is an index part of the current version that describes
/// entry `t`, each layer listed once.
pub open spec fn describes(p: IndexPart, t: RemoteTimelineModel) -> bool {
    &&& p.version == INDEX_PART_VERSION
    &&& p.metadata == t.metadata
    &&& views_of(p.timeline_layers@).to_set() == t.stored_files
    &&& views_of(p.timeline_layers@).no_duplicates()
    &&& views_of(p.missing_layers@).to_set() == t.upload_failed_files
    &&& views_of(p.missing_layers@).no_duplicates()
}

impl IndexPart {
    /// The index part to publish for a remote entry.
    pub fn from_remote_timeline(timeline: &RemoteTimeline) -> (r: IndexPart)
        ensures
            describes(r, timeline@),
    {
        IndexPart {
            version: INDEX_PART_VERSION,
            metadata: timeline.metadata,
            timeline_layers: timeline.stored_files.to_vec(),
            missing_layers: timeline.upload_failed_files.to_vec(),
        }
    }

    /// The remote entry that the part describes; a part of another version
    /// is refused.
    pub fn to_remote_timeline(&self) -> (r: Result<RemoteTimeline, IndexPartError>)
        ensures
            self.version == INDEX_PART_VERSION ==> r is Ok && r.unwrap()@ == timeline_of_part(
                *self,
            ),
            self.version != INDEX_PART_VERSION ==> r == Err::<RemoteTimeline, IndexPartError>(
                IndexPartError::UnknownVersion(self.version),
            ),
    {
        if self.version != INDEX_PART_VERSION {
            return Err(IndexPartError::UnknownVersion(self.version));
        }
        let mut timeline = RemoteTimeline::new(self.metadata);
        timeline.stored_files = LayerSet::from_paths(clone_paths(&self.timeline_layers));
        timeline.upload_failed_files = LayerSet::from_paths(clone_paths(&self.missing_layers));
        Ok(timeline)
    }
}

fn clone_paths(paths: &Vec<String>) -> (r: Vec<String>)
    ensures
        views_of(r@) == views_of(paths@),
{
    let mut r: Vec<String> = Vec::new();
    let mut i: usize = 0;
    while i < paths.len()
        invariant
            0 <= i <= paths@.len(),
            views_of(r@) == views_of(paths@).take(i as int),
        decreases paths@.len() - i,
    {
        let ghost prev = r@;
        r.push(paths[i].clone());
        proof {
            assert(views_of(prev).len() == prev.len());
            assert forall|j: int| 0 <= j < i + 1 implies views_of(r@)[j] == views_of(
                paths@,
            ).take(i + 1)[j] by {
                if j < i {
                    assert(r@[j] == prev[j]);
                    assert(views_of(prev)[j] == views_of(paths@).take(i as int)[j]);
                }
            }
            assert(views_of(r@) =~= views_of(paths@).take(i + 1));
        }
        i = i + 1;
    }
    proof {
        assert(views_of(paths@).take(i as int) =~= views_of(paths@));
    }
    r
}

/// Publishing an entry as an index part and reading the part back gives
/// the entry again, except for the `awaits_download` flag, which is not
/// published and reads as unset.
pub proof fn lemma_index_part_round_trip(p: IndexPart, t: RemoteTimelineModel)
    requires
        describes(p, t),
    ensures
        timeline_of_part(p) == (RemoteTimelineModel { awaits_download: false, ..t }),
{
}

/// The remote index that the readable parts `parts` make: a part of an
/// unknown version counts as no part, and a later part of a timeline
/// replaces an earlier one.
pub open spec fn index_of_parts(parts: Seq<(SyncId, IndexPart)>) -> Map<SyncId, RemoteTimelineModel>
    decreases parts.len(),
{
    if parts.len() == 0 {
        Map::empty()
    } else {
        let (id, p) = parts.last();
        if p.version == INDEX_PART_VERSION {
            index_of_parts(parts.drop_last()).insert(id, timeline_of_part(p))
        } else {
            index_of_parts(parts.drop_last())
        }
    }
}

impl RemoteTimelineIndex {
    /// The index that fetched index parts make; parts that cannot be read
    /// are left out.
    pub fn from_parts(parts: &Vec<(SyncId, IndexPart)>) -> (r: RemoteTimelineIndex)
        ensures
            r@ == index_of_parts(parts@),
    {
        let mut index = RemoteTimelineIndex::empty();
        let mut i: usize = 0;
        proof {
            assert(parts@.take(0) =~= Seq::<(SyncId, IndexPart)>::empty());
        }
        while i < parts.len()
            invariant
                0 <= i <= parts@.len(),
                index@ == index_of_parts(parts@.take(i as int)),
            decreases parts@.len() - i,
        {
            proof {
                assert(parts@.take(i + 1).drop_last() =~= parts@.take(i as int));
                assert(parts@.take(i + 1).last() == parts@[i as int]);
            }
            let id = parts[i].0;
            match parts[i].1.to_remote_timeline() {
                Ok(timeline) => index.add_timeline_entry(id, timeline),
                Err(_) => {},
            }
            i = i + 1;
        }
        proof {
            assert(parts@.take(i as int) =~= parts@);
        }
        index
    }
}

} // verus!
