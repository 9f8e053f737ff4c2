//! The decisions of the upload, download and delete protocols between
//! their transfers, and the retry gate applied to a timeline's batch.

use vstd::prelude::*;

use crate::index::RemoteTimeline;
use crate::layers::LayerSet;
use crate::retry::{attempt_allowed, backoff_seconds, validate_task_retries, RetryDecision};
use crate::task::{
    DataModel, DeleteModel, DownloadModel, SyncData, SyncTaskBatch, TimelineDelete,
    TimelineDownload, TimelineUpload, UploadModel,
};
use crate::timeline::TimelineMetadata;
use crate::update::{RemoteDataUpdate, UpdateModel};

verus! {

/// Where an attempt of a task leads.
pub enum Outcome<T> {
    /// Every step succeeded: go on with the task as it now stands.
    Complete(SyncData<T>),
    /// A step failed: queue the task again, with one more failure.
    Reschedule(SyncData<T>),
}

/// The layers of an upload that still have to be copied.
pub fn layers_left_to_upload(upload: &TimelineUpload) -> (r: LayerSet)
    ensures
        r@ == upload.layers_to_upload@.difference(upload.uploaded_layers@),
{
    upload.layers_to_upload.difference(&upload.uploaded_layers)
}

/// An upload after layer copies of which `copied` succeeded: those move
/// from the layers to upload to the uploaded ones.
pub open spec fn upload_after_copies(u: UploadModel, copied: Set<Seq<char>>) -> UploadModel {
    UploadModel {
        layers_to_upload: u.layers_to_upload.difference(copied),
        uploaded_layers: u.uploaded_layers.union(copied),
        metadata: u.metadata,
    }
}

/// Records the layer copies of an upload attempt: `copied` succeeded, and
/// `all_copied` tells whether every copy did. The upload goes on to the
/// index update where all did, and is queued again where any failed.
pub fn after_layer_uploads(
    task: SyncData<TimelineUpload>,
    copied: &LayerSet,
    all_copied: bool,
) -> (r: Outcome<TimelineUpload>)
    requires
        task.retries < u32::MAX,
    ensures
        all_copied ==> (r matches Outcome::Complete(t) && t@ == (DataModel {
            retries: task.retries,
            data: upload_after_copies(task.data@, copied@),
        })),
        !all_copied ==> (r matches Outcome::Reschedule(t) && t@ == (DataModel {
            retries: (task.retries + 1) as u32,
            data: upload_after_copies(task.data@, copied@),
        })),
{
    let mut task = task;
    task.data.layers_to_upload.remove_all(copied);
    task.data.uploaded_layers.extend(copied);
    if all_copied {
        Outcome::Complete(task)
    } else {
        Outcome::Reschedule(task.retried())
    }
}

/// Whether the local metadata moved past the metadata of an upload while
/// its layers were copied.
pub open spec fn metadata_lags(u: UploadModel, local_lsn: u64) -> bool {
    match u.metadata {
        Some(m) => m.disk_consistent_lsn < local_lsn,
        None => false,
    }
}

/// Decides `metadata_lags`.
pub fn upload_metadata_lags(upload: &TimelineUpload, local_lsn: u64) -> (r: bool)
    ensures
        r == metadata_lags(upload@, local_lsn),
{
    match &upload.metadata {
        Some(m) => m.disk_consistent_lsn < local_lsn,
        None => false,
    }
}

/// Replaces the metadata of an upload by the newer local metadata.
pub fn refresh_upload_metadata(
    task: SyncData<TimelineUpload>,
    local: TimelineMetadata,
) -> (r: SyncData<TimelineUpload>)
    ensures
        r@ == (DataModel {
            retries: task.retries,
            data: UploadModel {
                metadata: if metadata_lags(task.data@, local.disk_consistent_lsn) {
                    Some(local)
                } else {
                    task.data.metadata
                },
                ..task.data@
            },
        }),
{
    let mut task = task;
    if upload_metadata_lags(&task.data, local.disk_consistent_lsn) {
        task.data.metadata = Some(local);
    }
    task
}

/// The layers that a download fetches: those the remote index stores and
/// the download does not skip. Nothing where the timeline has no remote
/// entry: the download is then aborted.
pub fn layers_to_download(remote: Option<&RemoteTimeline>, download: &TimelineDownload) -> (r:
    Option<LayerSet>)
    ensures
        match remote {
            Some(t) => r is Some && r.unwrap()@ == t.stored_files@.difference(
                download.layers_to_skip@,
            ),
            None => r is None,
        },
{
    match remote {
        Some(t) => Some(t.stored_files().difference(&download.layers_to_skip)),
        None => None,
    }
}

/// Records the layer fetches of a download attempt: `fetched` succeeded,
/// and `all_fetched` tells whether every fetch did. Where any failed, the
/// download is queued again and skips what was fetched.
pub fn after_layer_downloads(
    task: SyncData<TimelineDownload>,
    fetched: &LayerSet,
    all_fetched: bool,
) -> (r: Outcome<TimelineDownload>)
    requires
        task.retries < u32::MAX,
    ensures
        all_fetched ==> (r matches Outcome::Complete(t) && t@ == task@),
        !all_fetched ==> (r matches Outcome::Reschedule(t) && t@ == (DataModel {
            retries: (task.retries + 1) as u32,
            data: DownloadModel { layers_to_skip: task.data.layers_to_skip@.union(fetched@) },
        })),
{
    if all_fetched {
        return Outcome::Complete(task);
    }
    let mut task = task;
    task.data.layers_to_skip.extend(fetched);
    Outcome::Reschedule(task.retried())
}

/// Whether the local metadata, if any, is older than the remote one, so
/// that the remote metadata has to be written locally.
pub open spec fn local_metadata_behind(local_lsn: Option<u64>, remote_lsn: u64) -> bool {
    match local_lsn {
        Some(l) => l < remote_lsn,
        None => true,
    }
}

/// Decides `local_metadata_behind`.
pub fn local_metadata_outdated(local_lsn: Option<u64>, remote_lsn: u64) -> (r: bool)
    ensures
        r == local_metadata_behind(local_lsn, remote_lsn),
{
    match local_lsn {
        Some(l) => l < remote_lsn,
        None => true,
    }
}

/// The layers of a deletion that are still in the storage.
pub fn layers_left_to_delete(delete: &TimelineDelete) -> (r: LayerSet)
    ensures
        r@ == delete.layers_to_delete@.difference(delete.deleted_layers@),
{
    delete.layers_to_delete.difference(&delete.deleted_layers)
}

/// A deletion whose layers were taken out of the remote index.
pub fn registered_deletion(task: SyncData<TimelineDelete>) -> (r: SyncData<TimelineDelete>)
    ensures
        r@ == (DataModel {
            retries: task.retries,
            data: DeleteModel { deletion_registered: true, ..task.data@ },
        }),
{
    let mut task = task;
    task.data.deletion_registered = true;
    task
}

/// Where a deletion goes once the index part without its layers was, or
/// was not, `published`: on to removing the layers from the storage,
/// registered, or back to the queue with one more failure and nothing
/// removed.
pub fn after_deletion_registration(task: SyncData<TimelineDelete>, published: bool) -> (r: Outcome<
    TimelineDelete,
>)
    requires
        task.retries < u32::MAX,
    ensures
        published ==> (r matches Outcome::Complete(t) && t@ == (DataModel {
            retries: task.retries,
            data: DeleteModel { deletion_registered: true, ..task.data@ },
        })),
        !published ==> (r matches Outcome::Reschedule(t) && t@ == (DataModel {
            retries: (task.retries + 1) as u32,
            data: task.data@,
        })),
{
    if published {
        Outcome::Complete(registered_deletion(task))
    } else {
        Outcome::Reschedule(task.retried())
    }
}

/// The index update that records a given-up upload: its layers to upload
/// become failed uploads, and nothing else changes.
pub fn upload_given_up(task: SyncData<TimelineUpload>) -> (r: RemoteDataUpdate)
    ensures
        r@ == (UpdateModel::Upload { data: task.data@, upload_failed: true }),
{
    RemoteDataUpdate::Upload { uploaded_data: task.data, upload_failed: true }
}

/// The index update that records a given-up deletion: the layers it
/// already removed from the storage are no longer listed.
pub fn delete_given_up(task: SyncData<TimelineDelete>) -> (r: RemoteDataUpdate)
    ensures
        r@ == UpdateModel::Delete(task.data.deleted_layers@),
{
    RemoteDataUpdate::Delete(task.data.deleted_layers)
}

/// Records the removals of a deletion attempt: `removed` succeeded, and
/// `all_removed` tells whether every removal did. Where any failed, the
/// deletion is queued again, still registered, so that the index is not
/// rewritten a second time.
pub fn after_layer_deletes(
    task: SyncData<TimelineDelete>,
    removed: &LayerSet,
    all_removed: bool,
) -> (r: Outcome<TimelineDelete>)
    requires
        task.retries < u32::MAX,
        task.data.deletion_registered,
    ensures
        all_removed ==> (r matches Outcome::Complete(t) && t@ == (DataModel {
            retries: task.retries,
            data: DeleteModel {
                deleted_layers: task.data.deleted_layers@.union(removed@),
                ..task.data@
            },
        })),
        !all_removed ==> (r matches Outcome::Reschedule(t) && t@ == (DataModel {
            retries: (task.retries + 1) as u32,
            data: DeleteModel {
                deleted_layers: task.data.deleted_layers@.union(removed@),
                ..task.data@
            },
        }) && t.data.deletion_registered),
{
    let mut task = task;
    task.data.deleted_layers.extend(removed);
    if all_removed {
        Outcome::Complete(task)
    } else {
        Outcome::Reschedule(task.retried())
    }
}

/// The retry gate's decisions on the tasks of one timeline's batch.
pub struct BatchPlan {
    pub upload: Option<RetryDecision<TimelineUpload>>,
    pub download: Option<RetryDecision<TimelineDownload>>,
    pub delete: Option<RetryDecision<TimelineDelete>>,
}

/// What the retry gate decides on an optional task.
pub open spec fn gate_decision<T>(task: Option<SyncData<T>>, max_sync_errors: u32) -> Option<
    RetryDecision<T>,
> {
    match task {
        None => None,
        Some(t) => Some(
            if attempt_allowed(t.retries as nat, max_sync_errors as nat) {
                RetryDecision::Proceed {
                    wait_seconds: backoff_seconds(t.retries as nat) as u64,
                    task: t,
                }
            } else {
                RetryDecision::GiveUp(t)
            },
        ),
    }
}

fn gate<T>(task: Option<SyncData<T>>, max_sync_errors: u32) -> (r: Option<RetryDecision<T>>)
    requires
        max_sync_errors > 0,
    ensures
        r == gate_decision(task, max_sync_errors),
{
    match task {
        None => None,
        Some(t) => Some(validate_task_retries(t, max_sync_errors)),
    }
}

/// Passes each task of a timeline's batch through the retry gate.
pub fn plan_batch(batch: SyncTaskBatch, max_sync_errors: u32) -> (r: BatchPlan)
    requires
        max_sync_errors > 0,
    ensures
        r.upload == gate_decision(batch.upload, max_sync_errors),
        r.download == gate_decision(batch.download, max_sync_errors),
        r.delete == gate_decision(batch.delete, max_sync_errors),
{
    BatchPlan {
        upload: gate(batch.upload, max_sync_errors),
        download: gate(batch.download, max_sync_errors),
        delete: gate(batch.delete, max_sync_errors),
    }
}

/// A download that commits leaves the local timeline with metadata at
/// least as new as the remote metadata it started from, and with every
/// remote layer that was not local before, where it skipped only local
/// layers.
pub proof fn lemma_download_commit(
    local_files: Set<Seq<char>>,
    local_lsn: Option<u64>,
    remote_files: Set<Seq<char>>,
    remote_lsn: u64,
    skip: Set<Seq<char>>,
)
    requires
        skip.subset_of(local_files),
    ensures
        ({
            let files_after = local_files.union(remote_files.difference(skip));
            let lsn_after = if local_metadata_behind(local_lsn, remote_lsn) {
                Some(remote_lsn)
            } else {
                local_lsn
            };
            &&& lsn_after is Some
            &&& lsn_after.unwrap() >= remote_lsn
            &&& remote_files.difference(local_files).subset_of(files_after)
        }),
{
}

} // verus!
