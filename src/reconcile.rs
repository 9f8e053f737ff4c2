//! Startup reconciliation: local timelines compared with the remote index,
//! giving the first tasks and the status of each timeline.

use vstd::prelude::*;

use crate::index::{RemoteTimeline, RemoteTimelineIndex, RemoteTimelineModel};
use crate::layers::LayerSet;
use crate::queue::SyncQueue;
use crate::task::{
    DataModel, DownloadModel, SyncTask, TaskModel, TimelineDownload, TimelineUpload, UploadModel,
};
use crate::timeline::{SyncId, TimelineMetadata};

verus! {

/// The state of a local timeline after it was compared with the remote
/// storage at startup.
#[derive(Clone, Copy, Debug, PartialEq, Eq, Structural)]
pub enum LocalTimelineInitStatus {
    /// Every remote layer is present locally. Some local layers may still
    /// have to be uploaded, which does not keep the timeline from use.
    LocallyComplete,
    /// Some remote layers are missing locally: the timeline can be used only
    /// after they were downloaded.
    NeedsSync,
}

/// A timeline found on the local disk: its metadata and its layers.
pub struct LocalTimeline {
    pub sync_id: SyncId,
    pub metadata: TimelineMetadata,
    pub files: LayerSet,
}

/// Whether the remote storage holds layers that are not local.
pub open spec fn needs_download(local: Set<Seq<char>>, remote: Set<Seq<char>>) -> bool {
    remote.difference(local) != Set::<Seq<char>>::empty()
}

/// Whether local layers are missing from the remote storage.
pub open spec fn needs_upload(local: Set<Seq<char>>, remote: Set<Seq<char>>) -> bool {
    local.difference(remote) != Set::<Seq<char>>::empty()
}

/// The status of a local timeline, given the layers of its remote entry,
/// if it has one.
pub open spec fn first_status(local: Set<Seq<char>>, remote: Option<Set<Seq<char>>>) -> LocalTimelineInitStatus {
    match remote {
        Some(r) => if needs_download(local, r) {
            LocalTimelineInitStatus::NeedsSync
        } else {
            LocalTimelineInitStatus::LocallyComplete
        },
        None => LocalTimelineInitStatus::LocallyComplete,
    }
}

/// A fresh upload of `layers` with `metadata`.
pub open spec fn fresh_upload(layers: Set<Seq<char>>, metadata: TimelineMetadata) -> TaskModel {
    TaskModel::Upload(
        DataModel {
            retries: 0,
            data: UploadModel {
                layers_to_upload: layers,
                uploaded_layers: Set::empty(),
                metadata: Some(metadata),
            },
        },
    )
}

/// The tasks that startup schedules for a local timeline, given the layers
/// of its remote entry, if it has one: without an entry, an upload of every
/// local layer; with one, a download skipping the local layers where remote
/// layers are missing locally, then an upload of the local layers missing
/// remotely, if any.
pub open spec fn first_tasks(
    id: SyncId,
    metadata: TimelineMetadata,
    local: Set<Seq<char>>,
    remote: Option<Set<Seq<char>>>,
) -> Seq<(SyncId, TaskModel)> {
    match remote {
        None => seq![(id, fresh_upload(local, metadata))],
        Some(r) => {
            let download = if needs_download(local, r) {
                seq![
                    (id, TaskModel::Download(
                        DataModel { retries: 0, data: DownloadModel { layers_to_skip: local } },
                    )),
                ]
            } else {
                Seq::empty()
            };
            let upload = if needs_upload(local, r) {
                seq![(id, fresh_upload(local.difference(r), metadata))]
            } else {
                Seq::empty()
            };
            download + upload
        },
    }
}

/// The layers of the remote entry of `id`, if there is one.
pub open spec fn remote_layers(index: Map<SyncId, RemoteTimelineModel>, id: SyncId) -> Option<
    Set<Seq<char>>,
> {
    if index.contains_key(id) {
        Some(index[id].stored_files)
    } else {
        None
    }
}

/// The value of a local timeline.
pub open spec fn local_view(t: LocalTimeline) -> (SyncId, TimelineMetadata, Set<Seq<char>>) {
    (t.sync_id, t.metadata, t.files@)
}

/// The tasks that startup schedules for the local timelines `locals`, in
/// order.
pub open spec fn all_first_tasks(
    locals: Seq<(SyncId, TimelineMetadata, Set<Seq<char>>)>,
    index: Map<SyncId, RemoteTimelineModel>,
) -> Seq<(SyncId, TaskModel)>
    decreases locals.len(),
{
    if locals.len() == 0 {
        Seq::empty()
    } else {
        let l = locals.last();
        all_first_tasks(locals.drop_last(), index) + first_tasks(
            l.0,
            l.1,
            l.2,
            remote_layers(index, l.0),
        )
    }
}

/// Compares a local timeline with its remote entry: queues in `new_tasks`
/// the tasks of `first_tasks`, and returns the timeline's status and
/// whether it awaits a download.
pub fn compare_local_and_remote_timeline(
    new_tasks: &mut Vec<(SyncId, SyncTask)>,
    sync_id: SyncId,
    local_metadata: TimelineMetadata,
    local_files: LayerSet,
    remote_entry: &RemoteTimeline,
) -> (r: (LocalTimelineInitStatus, bool))
    ensures
        tasks_view(final(new_tasks)@) == tasks_view(old(new_tasks)@) + first_tasks(
            sync_id,
            local_metadata,
            local_files@,
            Some(remote_entry.stored_files@),
        ),
        r.0 == first_status(local_files@, Some(remote_entry.stored_files@)),
        r.1 == needs_download(local_files@, remote_entry.stored_files@),
{
    let ghost before = tasks_view(old(new_tasks)@);
    let ghost local = local_files@;
    let ghost remote = remote_entry.stored_files@;
    let remote_files = remote_entry.stored_files();
    let missing_locally = remote_files.difference(&local_files);
    let download_needed = !missing_locally.is_empty();
    if download_needed {
        let skip = local_files.duplicate();
        let t = SyncTask::download(TimelineDownload { layers_to_skip: skip });
        let ghost tv = t@;
        new_tasks.push((sync_id, t));
        proof {
            assert(tasks_view(new_tasks@) =~= before.push((sync_id, tv)));
        }
    }
    let layers_to_upload = local_files.difference(remote_files);
    let upload_needed = !layers_to_upload.is_empty();
    let ghost up = layers_to_upload@;
    if upload_needed {
        let t = SyncTask::upload(
            TimelineUpload {
                layers_to_upload,
                uploaded_layers: LayerSet::new(),
                metadata: Some(local_metadata),
            },
        );
        let ghost tv = t@;
        let ghost mid = tasks_view(new_tasks@);
        new_tasks.push((sync_id, t));
        proof {
            assert(tasks_view(new_tasks@) =~= mid.push(
                (sync_id, tv),
            ));
        }
    }
    proof {
        let d = if needs_download(local, remote) {
            seq![
                (sync_id, TaskModel::Download(
                    DataModel { retries: 0, data: DownloadModel { layers_to_skip: local } },
                )),
            ]
        } else {
            Seq::empty()
        };
        let u = if needs_upload(local, remote) {
            seq![(sync_id, fresh_upload(local.difference(remote), local_metadata))]
        } else {
            Seq::empty()
        };
        assert(first_tasks(sync_id, local_metadata, local, Some(remote)) == d + u);
        assert(tasks_view(new_tasks@) =~= before + d + u);
    }
    if download_needed {
        (LocalTimelineInitStatus::NeedsSync, true)
    } else {
        (LocalTimelineInitStatus::LocallyComplete, false)
    }
}

/// The values of queued tasks.
pub open spec fn tasks_view(s: Seq<(SyncId, SyncTask)>) -> Seq<(SyncId, TaskModel)> {
    s.map_values(|e: (SyncId, SyncTask)| (e.0, e.1@))
}

/// The values of local timelines.
pub open spec fn locals_view(s: Seq<LocalTimeline>) -> Seq<(SyncId, TimelineMetadata, Set<Seq<char>>)> {
    s.map_values(|t: LocalTimeline| local_view(t))
}

/// The remote index after startup compared it with the local timelines
/// `locals`: each remote entry of a local timeline awaits a download exactly
/// where remote layers are missing locally.
pub open spec fn index_after_startup(
    index: Map<SyncId, RemoteTimelineModel>,
    locals: Seq<(SyncId, TimelineMetadata, Set<Seq<char>>)>,
) -> Map<SyncId, RemoteTimelineModel>
    decreases locals.len(),
{
    if locals.len() == 0 {
        index
    } else {
        let l = locals.last();
        let m = index_after_startup(index, locals.drop_last());
        if m.contains_key(l.0) {
            m.insert(
                l.0,
                RemoteTimelineModel {
                    awaits_download: needs_download(l.2, m[l.0].stored_files),
                    ..m[l.0]
                },
            )
        } else {
            m
        }
    }
}

/// The status that startup gives each local timeline.
pub open spec fn statuses_of(
    locals: Seq<(SyncId, TimelineMetadata, Set<Seq<char>>)>,
    index: Map<SyncId, RemoteTimelineModel>,
) -> Seq<(SyncId, LocalTimelineInitStatus)> {
    locals.map_values(
        |l: (SyncId, TimelineMetadata, Set<Seq<char>>)|
            (l.0, first_status(l.2, remote_layers(index, l.0))),
    )
}

/// The statuses of the local timelines where no remote storage is
/// configured: every timeline is locally complete.
pub fn statuses_without_remote(locals: &Vec<LocalTimeline>) -> (r: Vec<(SyncId, LocalTimelineInitStatus)>)
    ensures
        r@ == locals_view(locals@).map_values(
            |l: (SyncId, TimelineMetadata, Set<Seq<char>>)|
                (l.0, LocalTimelineInitStatus::LocallyComplete),
        ),
{
    let mut r: Vec<(SyncId, LocalTimelineInitStatus)> = Vec::new();
    let mut i: usize = 0;
    while i < locals.len()
        invariant
            0 <= i <= locals@.len(),
            r@ == locals_view(locals@).take(i as int).map_values(
                |l: (SyncId, TimelineMetadata, Set<Seq<char>>)|
                    (l.0, LocalTimelineInitStatus::LocallyComplete),
            ),
        decreases locals@.len() - i,
    {
        r.push((locals[i].sync_id, LocalTimelineInitStatus::LocallyComplete));
        proof {
            assert(r@ =~= locals_view(locals@).take(i + 1).map_values(
                |l: (SyncId, TimelineMetadata, Set<Seq<char>>)|
                    (l.0, LocalTimelineInitStatus::LocallyComplete),
            ));
        }
        i = i + 1;
    }
    proof {
        assert(locals_view(locals@).take(i as int) =~= locals_view(locals@));
    }
    r
}

/// Compares each local timeline with its remote entry: queues the tasks of
/// `all_first_tasks`, marks the remote entries that await a download, and
/// returns the status of each local timeline.
pub fn schedule_first_sync_tasks(
    index: &mut RemoteTimelineIndex,
    queue: &mut SyncQueue,
    local_timeline_files: Vec<LocalTimeline>,
) -> (r: Vec<(SyncId, LocalTimelineInitStatus)>)
    ensures
        final(index)@ == index_after_startup(old(index)@, locals_view(local_timeline_files@)),
        r@ == statuses_of(locals_view(local_timeline_files@), old(index)@),
        final(queue).is_closed() == old(queue).is_closed(),
        !old(queue).is_closed() ==> final(queue).pending() == old(queue).pending()
            + all_first_tasks(locals_view(local_timeline_files@), old(index)@),
        old(queue).is_closed() ==> final(queue).pending() == old(queue).pending(),
{
    let ghost locals = locals_view(local_timeline_files@);
    let ghost start = old(index)@;
    let mut statuses: Vec<(SyncId, LocalTimelineInitStatus)> = Vec::new();
    let mut new_tasks: Vec<(SyncId, SyncTask)> = Vec::new();
    let mut i: usize = 0;
    proof {
        assert(locals.take(0) =~= Seq::<(SyncId, TimelineMetadata, Set<Seq<char>>)>::empty());
        assert(tasks_view(new_tasks@) =~= Seq::<(SyncId, TaskModel)>::empty());
    }
    while i < local_timeline_files.len()
        invariant
            0 <= i <= local_timeline_files@.len(),
            locals == locals_view(local_timeline_files@),
            start == old(index)@,
            index@ == index_after_startup(start, locals.take(i as int)),
            forall|k: SyncId| #[trigger]
                index@.contains_key(k) == start.contains_key(k),
            forall|k: SyncId| #[trigger]
                index@.contains_key(k) ==> index@[k].stored_files == start[k].stored_files,
            tasks_view(new_tasks@) == all_first_tasks(locals.take(i as int), start),
            statuses@ == statuses_of(locals.take(i as int), start),
        decreases local_timeline_files@.len() - i,
    {
        let local = &local_timeline_files[i];
        let sync_id = local.sync_id;
        let ghost l = locals[i as int];
        let ghost tasks_before = tasks_view(new_tasks@);
        let ghost index_before = index@;
        proof {
            assert(locals.take(i + 1).drop_last() =~= locals.take(i as int));
            assert(locals.take(i + 1).last() == l);
            assert(l == local_view(*local));
        }
        let status = match index.timeline_entry(sync_id) {
            Some(remote_timeline) => {
                let (timeline_status, awaits_download) = compare_local_and_remote_timeline(
                    &mut new_tasks,
                    sync_id,
                    local.metadata,
                    local.files.duplicate(),
                    remote_timeline,
                );
                let _ = index.set_awaits_download(sync_id, awaits_download);
                proof {
                    assert(index@ =~= index_before.insert(
                        sync_id,
                        RemoteTimelineModel {
                            awaits_download: needs_download(l.2, index_before[sync_id].stored_files),
                            ..index_before[sync_id]
                        },
                    ));
                }
                timeline_status
            },
            None => {
                let t = SyncTask::upload(
                    TimelineUpload {
                        layers_to_upload: local.files.duplicate(),
                        uploaded_layers: LayerSet::new(),
                        metadata: Some(local.metadata),
                    },
                );
                let ghost tv = t@;
                new_tasks.push((sync_id, t));
                proof {
                    assert(tasks_view(new_tasks@) =~= tasks_before.push((sync_id, tv)));
                    assert(tasks_before.push((sync_id, tv)) =~= tasks_before + seq![(sync_id, tv)]);
                }
                LocalTimelineInitStatus::LocallyComplete
            },
        };
        statuses.push((sync_id, status));
        proof {
            assert(remote_layers(start, sync_id) == remote_layers(index_before, sync_id));
            assert(tasks_view(new_tasks@) =~= all_first_tasks(locals.take(i + 1), start));
            assert(statuses@ =~= statuses_of(locals.take(i + 1), start));
        }
        i = i + 1;
    }
    proof {
        assert(locals.take(i as int) =~= locals);
    }
    let ghost all = tasks_view(new_tasks@);
    let total = new_tasks.len();
    proof {
        assert(all.len() == total);
    }
    let mut j: usize = 0;
    while new_tasks.len() > 0
        invariant
            0 <= j <= all.len(),
            all.len() == total,
            tasks_view(new_tasks@) == all.skip(j as int),
            queue.is_closed() == old(queue).is_closed(),
            !old(queue).is_closed() ==> queue.pending() == old(queue).pending() + all.take(
                j as int,
            ),
            old(queue).is_closed() ==> queue.pending() == old(queue).pending(),
        decreases new_tasks@.len(),
    {
        proof {
            assert(tasks_view(new_tasks@).len() == new_tasks@.len());
            assert(j < all.len());
            assert(all.take(j + 1) =~= all.take(j as int).push(all[j as int]));
            assert(tasks_view(new_tasks@)[0] == all[j as int]);
        }
        let ghost prev = new_tasks@;
        let (entry_id, task) = new_tasks.remove(0);
        queue.push(entry_id, task);
        proof {
            assert forall|x: int| 0 <= x < new_tasks@.len() implies tasks_view(new_tasks@)[x]
                == all.skip(j + 1)[x] by {
                assert(new_tasks@[x] == prev[x + 1]);
                assert(tasks_view(prev)[x + 1] == all.skip(j as int)[x + 1]);
            }
            assert(tasks_view(new_tasks@) =~= all.skip(j + 1));
        }
        j = j + 1;
    }
    proof {
        assert(tasks_view(new_tasks@).len() == new_tasks@.len());
        assert(all.skip(j as int).len() == 0);
        assert(all.take(j as int) =~= all);
    }
    statuses
}

} // verus!
