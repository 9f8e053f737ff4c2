//! Changes to the remote index after uploads and deletions, and what they
//! keep true of the index.

use vstd::prelude::*;

use crate::index::{RemoteTimeline, RemoteTimelineIndex, RemoteTimelineModel};
use crate::layers::LayerSet;
use crate::task::{TimelineUpload, UploadModel};
use crate::timeline::{SyncId, TimelineMetadata};

verus! {

/// A change to the remote index entry of one timeline.
pub enum RemoteDataUpdate {
    /// The outcome of an upload: its layers were stored, or, where
    /// `upload_failed`, the upload was given up.
    Upload { uploaded_data: TimelineUpload, upload_failed: bool },
    /// Layers to forget.
    Delete(LayerSet),
}

/// Why the remote index was left as it was.
#[derive(Clone, Copy, Debug, PartialEq, Eq, Structural)]
pub enum RemoteUpdateError {
    /// An upload for a timeline without an entry carried no metadata to
    /// create the entry from.
    NoMetadataForNewEntry,
}

/// `entry` after an upload's outcome. A committed upload adds its uploaded
/// layers to the stored ones and takes its metadata where it is newer; a
/// given-up upload only records its layers to upload as failed.
pub open spec fn entry_after_upload(
    entry: RemoteTimelineModel,
    data: UploadModel,
    upload_failed: bool,
) -> RemoteTimelineModel {
    if upload_failed {
        RemoteTimelineModel {
            upload_failed_files: entry.upload_failed_files.union(data.layers_to_upload),
            ..entry
        }
    } else {
        RemoteTimelineModel {
            metadata: match data.metadata {
                Some(m) => if entry.metadata.disk_consistent_lsn < m.disk_consistent_lsn {
                    m
                } else {
                    entry.metadata
                },
                None => entry.metadata,
            },
            stored_files: entry.stored_files.union(data.uploaded_layers),
            ..entry
        }
    }
}

/// `entry` with the layers `layers` no longer stored.
pub open spec fn entry_after_delete(entry: RemoteTimelineModel, layers: Set<Seq<char>>) -> RemoteTimelineModel {
    RemoteTimelineModel { stored_files: entry.stored_files.difference(layers), ..entry }
}

/// A fresh entry holding `metadata` and no layer.
pub open spec fn fresh_entry(metadata: TimelineMetadata) -> RemoteTimelineModel {
    RemoteTimelineModel {
        metadata,
        stored_files: Set::empty(),
        upload_failed_files: Set::empty(),
        awaits_download: false,
    }
}

/// The value of a `RemoteDataUpdate`.
pub enum UpdateModel {
    Upload { data: UploadModel, upload_failed: bool },
    Delete(Set<Seq<char>>),
}

impl View for RemoteDataUpdate {
    type V = UpdateModel;

    open spec fn view(&self) -> UpdateModel {
        match self {
            RemoteDataUpdate::Upload { uploaded_data, upload_failed } => UpdateModel::Upload {
                data: uploaded_data@,
                upload_failed: *upload_failed,
            },
            RemoteDataUpdate::Delete(layers) => UpdateModel::Delete(layers@),
        }
    }
}

/// The entry of `id` in `index`, if it has one.
pub open spec fn entry_in(index: Map<SyncId, RemoteTimelineModel>, id: SyncId) -> Option<
    RemoteTimelineModel,
> {
    if index.contains_key(id) {
        Some(index[id])
    } else {
        None
    }
}

/// The entry that `update` makes of `entry`: for an upload, the entry after
/// its outcome, created from the upload's metadata where there was none
/// (an error where the upload has no metadata either); for a deletion, the
/// entry without the deleted layers, or nothing where there was no entry.
pub open spec fn updated_entry(entry: Option<RemoteTimelineModel>, update: UpdateModel) -> Result<
    Option<RemoteTimelineModel>,
    RemoteUpdateError,
> {
    match update {
        UpdateModel::Upload { data, upload_failed } => match entry {
            Some(e) => Ok(Some(entry_after_upload(e, data, upload_failed))),
            None => match data.metadata {
                Some(m) => Ok(Some(entry_after_upload(fresh_entry(m), data, upload_failed))),
                None => Err(RemoteUpdateError::NoMetadataForNewEntry),
            },
        },
        UpdateModel::Delete(layers) => match entry {
            Some(e) => Ok(Some(entry_after_delete(e, layers))),
            None => Ok(None),
        },
    }
}

/// `index` after `update` of the entry of `id` was committed.
pub open spec fn index_after_update(
    index: Map<SyncId, RemoteTimelineModel>,
    id: SyncId,
    update: UpdateModel,
) -> Map<SyncId, RemoteTimelineModel> {
    match updated_entry(entry_in(index, id), update) {
        Ok(Some(e)) => index.insert(id, e),
        _ => index,
    }
}

/// The value of an update's result.
pub open spec fn result_view(r: Result<Option<RemoteTimeline>, RemoteUpdateError>) -> Result<
    Option<RemoteTimelineModel>,
    RemoteUpdateError,
> {
    match r {
        Ok(Some(t)) => Ok(Some(t@)),
        Ok(None) => Ok(None),
        Err(e) => Err(e),
    }
}

/// The entry that an upload's outcome makes of `existing`: see
/// `entry_after_upload`.
pub fn upload_entry(
    existing: Option<&RemoteTimeline>,
    uploaded_data: &TimelineUpload,
    upload_failed: bool,
) -> (r: Result<RemoteTimeline, RemoteUpdateError>)
    ensures
        match updated_entry(
            match existing {
                Some(e) => Some(e@),
                None => None,
            },
            UpdateModel::Upload { data: uploaded_data@, upload_failed },
        ) {
            Ok(Some(e)) => r is Ok && r.unwrap()@ == e,
            _ => r == Err::<RemoteTimeline, RemoteUpdateError>(
                RemoteUpdateError::NoMetadataForNewEntry,
            ),
        },
{
    let mut entry = match existing {
        Some(e) => e.duplicate(),
        None => match uploaded_data.metadata {
            Some(new_metadata) => RemoteTimeline::new(new_metadata),
            None => {
                return Err(RemoteUpdateError::NoMetadataForNewEntry);
            },
        },
    };
    if upload_failed {
        entry.add_upload_failures(&uploaded_data.layers_to_upload);
    } else {
        if let Some(new_metadata) = &uploaded_data.metadata {
            entry.update_metadata_if_newer(new_metadata);
        }
        entry.add_timeline_layers(&uploaded_data.uploaded_layers);
    }
    Ok(entry)
}

/// The entry that a deletion of `layers` makes of `existing`: see
/// `entry_after_delete`.
pub fn delete_entry(existing: Option<&RemoteTimeline>, layers: &LayerSet) -> (r: Option<
    RemoteTimeline,
>)
    ensures
        match existing {
            Some(e) => r is Some && r.unwrap()@ == entry_after_delete(e@, layers@),
            None => r is None,
        },
{
    match existing {
        Some(e) => {
            let mut entry = e.duplicate();
            entry.remove_layers(layers);
            Some(entry)
        },
        None => None,
    }
}

/// The entry that `update` would make of the entry of `sync_id`, to be
/// published as the timeline's index part before it is committed. The index
/// is left as it is.
pub fn plan_remote_update(
    index: &RemoteTimelineIndex,
    sync_id: SyncId,
    update: &RemoteDataUpdate,
) -> (r: Result<Option<RemoteTimeline>, RemoteUpdateError>)
    ensures
        result_view(r) == updated_entry(entry_in(index@, sync_id), update@),
{
    let existing = index.timeline_entry(sync_id);
    let ghost old_entry = entry_in(index@, sync_id);
    proof {
        assert(match existing {
            Some(e) => Some(e@),
            None => None,
        } == old_entry);
    }
    match update {
        RemoteDataUpdate::Upload { uploaded_data, upload_failed } => {
            match upload_entry(existing, uploaded_data, *upload_failed) {
                Ok(t) => Ok(Some(t)),
                Err(e) => Err(e),
            }
        },
        RemoteDataUpdate::Delete(layers) => Ok(delete_entry(existing, layers)),
    }
}

/// Applies `update` to the entry of `sync_id`: see `updated_entry`.
/// Returns the entry as it now stands, if any.
pub fn update_remote_data(
    index: &mut RemoteTimelineIndex,
    sync_id: SyncId,
    update: RemoteDataUpdate,
) -> (r: Result<Option<RemoteTimeline>, RemoteUpdateError>)
    ensures
        result_view(r) == updated_entry(entry_in(old(index)@, sync_id), update@),
        final(index)@ == index_after_update(old(index)@, sync_id, update@),
{
    let planned = plan_remote_update(index, sync_id, &update);
    match planned {
        Ok(Some(entry)) => {
            let committed = entry.duplicate();
            index.add_timeline_entry(sync_id, committed);
            Ok(Some(entry))
        },
        other => other,
    }
}

/// Commits `update` to the entry of `sync_id` once its index part was
/// published: where `published`, as `update_remote_data` does; otherwise
/// the index is left as it is, so that a layer is listed only after the
/// index part listing it reached the storage.
pub fn commit_remote_update(
    index: &mut RemoteTimelineIndex,
    sync_id: SyncId,
    update: RemoteDataUpdate,
    published: bool,
)
    ensures
        published ==> final(index)@ == index_after_update(old(index)@, sync_id, update@),
        !published ==> final(index)@ == old(index)@,
{
    if published {
        let _ = update_remote_data(index, sync_id, update);
    }
}

/// Applies an upload's outcome to the entry of `sync_id`: see
/// `updated_entry`. Returns the entry as it now stands.
pub fn update_remote_upload(
    index: &mut RemoteTimelineIndex,
    sync_id: SyncId,
    uploaded_data: TimelineUpload,
    upload_failed: bool,
) -> (r: Result<RemoteTimeline, RemoteUpdateError>)
    ensures
        match updated_entry(
            entry_in(old(index)@, sync_id),
            UpdateModel::Upload { data: uploaded_data@, upload_failed },
        ) {
            Ok(Some(e)) => r is Ok && r.unwrap()@ == e && final(index)@ == old(index)@.insert(
                sync_id,
                e,
            ),
            _ => r == Err::<RemoteTimeline, RemoteUpdateError>(
                RemoteUpdateError::NoMetadataForNewEntry,
            ) && final(index)@ == old(index)@,
        },
        r is Ok && !upload_failed && uploaded_data.metadata is Some
            ==> final(index)@[sync_id].metadata.disk_consistent_lsn
            >= uploaded_data.metadata.unwrap().disk_consistent_lsn,
{
    let update = RemoteDataUpdate::Upload { uploaded_data, upload_failed };
    match update_remote_data(index, sync_id, update) {
        Ok(Some(t)) => Ok(t),
        _ => Err(RemoteUpdateError::NoMetadataForNewEntry),
    }
}

/// Records `layers` as no longer stored in the entry of `sync_id`. Returns
/// the entry as it now stands, or nothing where the timeline has no entry.
pub fn update_remote_delete(
    index: &mut RemoteTimelineIndex,
    sync_id: SyncId,
    layers: &LayerSet,
) -> (r: Option<RemoteTimeline>)
    ensures
        old(index)@.contains_key(sync_id) ==> r is Some && final(index)@ == old(index)@.insert(
            sync_id,
            entry_after_delete(old(index)@[sync_id], layers@),
        ) && r.unwrap()@ == final(index)@[sync_id],
        !old(index)@.contains_key(sync_id) ==> r is None && final(index)@ == old(index)@,
        final(index)@.contains_key(sync_id) ==> final(index)@[sync_id].stored_files.disjoint(
            layers@,
        ),
{
    let entry = delete_entry(index.timeline_entry(sync_id), layers);
    match entry {
        Some(e) => {
            index.add_timeline_entry(sync_id, e.duplicate());
            Some(e)
        },
        None => None,
    }
}

/// The metadata of an entry never goes back: an upload's outcome leaves it
/// at least as new as before, and at least as new as the upload's.
pub proof fn lemma_upload_metadata_monotone(
    entry: RemoteTimelineModel,
    data: UploadModel,
    upload_failed: bool,
)
    ensures
        entry_after_upload(entry, data, upload_failed).metadata.disk_consistent_lsn
            >= entry.metadata.disk_consistent_lsn,
        !upload_failed && data.metadata is Some ==> entry_after_upload(
            entry,
            data,
            upload_failed,
        ).metadata.disk_consistent_lsn >= data.metadata.unwrap().disk_consistent_lsn,
{
}

/// Every layer that the remote index lists stays backed by a stored blob:
/// an upload lists only layers whose copies succeeded, a given-up upload
/// lists nothing new, and a deletion unlists its layers before any of them
/// is removed from the storage. `blobs` are the layers present in the
/// storage, `copied` those an upload attempt has just stored, `removed` those
/// a deletion has then removed.
pub proof fn lemma_listed_layers_have_blobs(
    entry: RemoteTimelineModel,
    upload: UploadModel,
    copied: Set<Seq<char>>,
    layers_to_delete: Set<Seq<char>>,
    removed: Set<Seq<char>>,
    blobs: Set<Seq<char>>,
)
    requires
        entry.stored_files.subset_of(blobs),
        upload.uploaded_layers.subset_of(blobs),
        copied.subset_of(blobs),
        removed.subset_of(layers_to_delete),
    ensures
        ({
            let after_copies = crate::protocol::upload_after_copies(upload, copied);
            &&& after_copies.uploaded_layers.subset_of(blobs)
            &&& entry_after_upload(entry, after_copies, false).stored_files.subset_of(blobs)
        }),
        entry_after_upload(entry, upload, true).stored_files.subset_of(blobs),
        entry_after_delete(entry, layers_to_delete).stored_files.subset_of(
            blobs.difference(removed),
        ),
{
}

} // verus!
