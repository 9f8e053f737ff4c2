//! Queueing of uploads, downloads and deletions requested by the server.

use vstd::prelude::*;

use crate::layers::LayerSet;
use crate::queue::SyncQueue;
use crate::task::{
    DataModel, DeleteModel, DownloadModel, SyncTask, TaskModel, TimelineDelete, TimelineDownload,
    TimelineUpload, UploadModel,
};
use crate::timeline::{SyncId, TenantId, TimelineId, TimelineMetadata};

verus! {

/// Queues an upload of `layers_to_upload`, new layers of a checkpoint, with
/// the timeline's metadata. Returns whether the queue took it.
pub fn schedule_layer_upload(
    queue: &mut SyncQueue,
    tenant_id: TenantId,
    timeline_id: TimelineId,
    layers_to_upload: LayerSet,
    metadata: Option<TimelineMetadata>,
) -> (r: bool)
    ensures
        r == !old(queue).is_closed(),
        final(queue).is_closed() == old(queue).is_closed(),
        r ==> final(queue).pending() == old(queue).pending().push(
            (
                SyncId { tenant_id, timeline_id },
                TaskModel::Upload(
                    DataModel {
                        retries: 0,
                        data: UploadModel {
                            layers_to_upload: layers_to_upload@,
                            uploaded_layers: Set::empty(),
                            metadata,
                        },
                    },
                ),
            ),
        ),
        !r ==> final(queue).pending() == old(queue).pending(),
{
    queue.push(
        SyncId { tenant_id, timeline_id },
        SyncTask::upload(
            TimelineUpload { layers_to_upload, uploaded_layers: LayerSet::new(), metadata },
        ),
    )
}

/// Queues a deletion of `layers_to_delete`. Returns whether the queue took
/// it.
pub fn schedule_layer_delete(
    queue: &mut SyncQueue,
    tenant_id: TenantId,
    timeline_id: TimelineId,
    layers_to_delete: LayerSet,
) -> (r: bool)
    ensures
        r == !old(queue).is_closed(),
        final(queue).is_closed() == old(queue).is_closed(),
        r ==> final(queue).pending() == old(queue).pending().push(
            (
                SyncId { tenant_id, timeline_id },
                TaskModel::Delete(
                    DataModel {
                        retries: 0,
                        data: DeleteModel {
                            layers_to_delete: layers_to_delete@,
                            deleted_layers: Set::empty(),
                            deletion_registered: false,
                        },
                    },
                ),
            ),
        ),
        !r ==> final(queue).pending() == old(queue).pending(),
{
    queue.push(
        SyncId { tenant_id, timeline_id },
        SyncTask::delete(
            TimelineDelete {
                layers_to_delete,
                deleted_layers: LayerSet::new(),
                deletion_registered: false,
            },
        ),
    )
}

/// Queues a download of every remote layer of the timeline. Returns whether
/// the queue took it.
pub fn schedule_layer_download(
    queue: &mut SyncQueue,
    tenant_id: TenantId,
    timeline_id: TimelineId,
) -> (r: bool)
    ensures
        r == !old(queue).is_closed(),
        final(queue).is_closed() == old(queue).is_closed(),
        r ==> final(queue).pending() == old(queue).pending().push(
            (
                SyncId { tenant_id, timeline_id },
                TaskModel::Download(
                    DataModel { retries: 0, data: DownloadModel { layers_to_skip: Set::empty() } },
                ),
            ),
        ),
        !r ==> final(queue).pending() == old(queue).pending(),
{
    queue.push(
        SyncId { tenant_id, timeline_id },
        SyncTask::download(TimelineDownload { layers_to_skip: LayerSet::new() }),
    )
}

} // verus!
