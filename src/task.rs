//! Sync tasks, their values, and their merging into per-timeline batches.

use vstd::prelude::*;

use crate::layers::LayerSet;
use crate::timeline::{lsn_not_newer, metadata_not_newer, TimelineMetadata};

verus! {

/// The layers of a timeline that a checkpoint added locally, to be copied to
/// the remote storage.
pub struct TimelineUpload {
    /// Layers to copy.
    pub layers_to_upload: LayerSet,
    /// Layers already copied by earlier attempts of the task.
    pub uploaded_layers: LayerSet,
    /// Metadata to publish with the layers.
    pub metadata: Option<TimelineMetadata>,
}

/// A download of every remote layer of a timeline that is not present
/// locally.
pub struct TimelineDownload {
    /// Layers not to fetch.
    pub layers_to_skip: LayerSet,
}

/// A removal of remote layers: first from the remote index, then from the
/// storage.
pub struct TimelineDelete {
    /// Layers to remove.
    pub layers_to_delete: LayerSet,
    /// Layers already removed from the storage.
    pub deleted_layers: LayerSet,
    /// Whether the layers were already taken out of the remote index.
    pub deletion_registered: bool,
}

/// A task and the number of its failed attempts.
pub struct SyncData<T> {
    pub retries: u32,
    pub data: T,
}

/// A task of the sync loop.
pub enum SyncTask {
    Download(SyncData<TimelineDownload>),
    Upload(SyncData<TimelineUpload>),
    Delete(SyncData<TimelineDelete>),
}

/// The tasks of one timeline that are run together: at most one of each
/// kind.
pub struct SyncTaskBatch {
    pub upload: Option<SyncData<TimelineUpload>>,
    pub download: Option<SyncData<TimelineDownload>>,
    pub delete: Option<SyncData<TimelineDelete>>,
}

/// The value of a `TimelineUpload`.
pub struct UploadModel {
    pub layers_to_upload: Set<Seq<char>>,
    pub uploaded_layers: Set<Seq<char>>,
    pub metadata: Option<TimelineMetadata>,
}

/// The value of a `TimelineDownload`.
pub struct DownloadModel {
    pub layers_to_skip: Set<Seq<char>>,
}

/// The value of a `TimelineDelete`.
pub struct DeleteModel {
    pub layers_to_delete: Set<Seq<char>>,
    pub deleted_layers: Set<Seq<char>>,
    pub deletion_registered: bool,
}

/// The value of a `SyncData`.
pub struct DataModel<M> {
    pub retries: u32,
    pub data: M,
}

/// The value of a `SyncTask`.
pub enum TaskModel {
    Download(DataModel<DownloadModel>),
    Upload(DataModel<UploadModel>),
    Delete(DataModel<DeleteModel>),
}

/// The value of a `SyncTaskBatch`.
pub struct BatchModel {
    pub upload: Option<DataModel<UploadModel>>,
    pub download: Option<DataModel<DownloadModel>>,
    pub delete: Option<DataModel<DeleteModel>>,
}

impl View for TimelineUpload {
    type V = UploadModel;

    open spec fn view(&self) -> UploadModel {
        UploadModel {
            layers_to_upload: self.layers_to_upload@,
            uploaded_layers: self.uploaded_layers@,
            metadata: self.metadata,
        }
    }
}

impl View for TimelineDownload {
    type V = DownloadModel;

    open spec fn view(&self) -> DownloadModel {
        DownloadModel { layers_to_skip: self.layers_to_skip@ }
    }
}

impl View for TimelineDelete {
    type V = DeleteModel;

    open spec fn view(&self) -> DeleteModel {
        DeleteModel {
            layers_to_delete: self.layers_to_delete@,
            deleted_layers: self.deleted_layers@,
            deletion_registered: self.deletion_registered,
        }
    }
}

impl<T: View> View for SyncData<T> {
    type V = DataModel<T::V>;

    open spec fn view(&self) -> DataModel<T::V> {
        DataModel { retries: self.retries, data: self.data@ }
    }
}

impl View for SyncTask {
    type V = TaskModel;

    open spec fn view(&self) -> TaskModel {
        match self {
            SyncTask::Download(d) => TaskModel::Download(d@),
            SyncTask::Upload(u) => TaskModel::Upload(u@),
            SyncTask::Delete(d) => TaskModel::Delete(d@),
        }
    }
}

/// The value of an optional `SyncData`.
pub open spec fn opt_view<T: View>(o: Option<SyncData<T>>) -> Option<DataModel<T::V>> {
    match o {
        Some(d) => Some(d@),
        None => None,
    }
}

impl View for SyncTaskBatch {
    type V = BatchModel;

    open spec fn view(&self) -> BatchModel {
        BatchModel {
            upload: opt_view(self.upload),
            download: opt_view(self.download),
            delete: opt_view(self.delete),
        }
    }
}

pub open spec fn min_u32(a: u32, b: u32) -> u32 {
    if a <= b {
        a
    } else {
        b
    }
}

/// Two uploads of one timeline merged: the layer sets are joined, the newer
/// metadata is kept (the second on a tie) and the smaller retry count.
pub open spec fn merge_upload(a: DataModel<UploadModel>, b: DataModel<UploadModel>) -> DataModel<
    UploadModel,
> {
    DataModel {
        retries: min_u32(a.retries, b.retries),
        data: UploadModel {
            layers_to_upload: a.data.layers_to_upload.union(b.data.layers_to_upload),
            uploaded_layers: a.data.uploaded_layers.union(b.data.uploaded_layers),
            metadata: if lsn_not_newer(a.data.metadata, b.data.metadata) {
                b.data.metadata
            } else {
                a.data.metadata
            },
        },
    }
}

/// Two downloads of one timeline merged: the skipped layers are joined and
/// the smaller retry count is kept.
pub open spec fn merge_download(
    a: DataModel<DownloadModel>,
    b: DataModel<DownloadModel>,
) -> DataModel<DownloadModel> {
    DataModel {
        retries: min_u32(a.retries, b.retries),
        data: DownloadModel { layers_to_skip: a.data.layers_to_skip.union(b.data.layers_to_skip) },
    }
}

/// Two deletions of one timeline merged: the layer sets are joined, the
/// smaller retry count is kept, and the deletion stays registered where
/// either was.
pub open spec fn merge_delete(a: DataModel<DeleteModel>, b: DataModel<DeleteModel>) -> DataModel<
    DeleteModel,
> {
    DataModel {
        retries: min_u32(a.retries, b.retries),
        data: DeleteModel {
            layers_to_delete: a.data.layers_to_delete.union(b.data.layers_to_delete),
            deleted_layers: a.data.deleted_layers.union(b.data.deleted_layers),
            deletion_registered: a.data.deletion_registered || b.data.deletion_registered,
        },
    }
}

/// A batch with no task.
pub open spec fn empty_batch() -> BatchModel {
    BatchModel { upload: None, download: None, delete: None }
}

/// `b` with task `t` added: `t` fills the slot of its kind, or is merged
/// into the task already there.
pub open spec fn add_task(b: BatchModel, t: TaskModel) -> BatchModel {
    match t {
        TaskModel::Download(d) => BatchModel {
            download: Some(
                match b.download {
                    Some(old) => merge_download(old, d),
                    None => d,
                },
            ),
            ..b
        },
        TaskModel::Upload(u) => BatchModel {
            upload: Some(
                match b.upload {
                    Some(old) => merge_upload(old, u),
                    None => u,
                },
            ),
            ..b
        },
        TaskModel::Delete(d) => BatchModel {
            delete: Some(
                match b.delete {
                    Some(old) => merge_delete(old, d),
                    None => d,
                },
            ),
            ..b
        },
    }
}

/// Whether the slot of `t`'s kind in `b` holds `t` already.
pub open spec fn holds_task(b: BatchModel, t: TaskModel) -> bool {
    match t {
        TaskModel::Download(d) => b.download == Some(d),
        TaskModel::Upload(u) => b.upload == Some(u),
        TaskModel::Delete(d) => b.delete == Some(d),
    }
}

impl<T> SyncData<T> {
    /// A task with `retries` failed attempts.
    pub fn new(retries: u32, data: T) -> (r: SyncData<T>)
        ensures
            r.retries == retries,
            r.data == data,
    {
        SyncData { retries, data }
    }
}

impl<T> SyncData<T> {
    /// The task after one more failed attempt.
    pub fn retried(self) -> (r: SyncData<T>)
        requires
            self.retries < u32::MAX,
        ensures
            r.retries == self.retries + 1,
            r.data == self.data,
    {
        SyncData { retries: self.retries + 1, data: self.data }
    }
}

impl TimelineUpload {
    /// An upload with the same value.
    pub fn duplicate(&self) -> (r: TimelineUpload)
        ensures
            r@ == self@,
    {
        TimelineUpload {
            layers_to_upload: self.layers_to_upload.duplicate(),
            uploaded_layers: self.uploaded_layers.duplicate(),
            metadata: self.metadata,
        }
    }
}

impl TimelineDownload {
    /// A download with the same value.
    pub fn duplicate(&self) -> (r: TimelineDownload)
        ensures
            r@ == self@,
    {
        TimelineDownload { layers_to_skip: self.layers_to_skip.duplicate() }
    }
}

impl TimelineDelete {
    /// A deletion with the same value.
    pub fn duplicate(&self) -> (r: TimelineDelete)
        ensures
            r@ == self@,
    {
        TimelineDelete {
            layers_to_delete: self.layers_to_delete.duplicate(),
            deleted_layers: self.deleted_layers.duplicate(),
            deletion_registered: self.deletion_registered,
        }
    }
}

impl SyncTask {
    /// A download that was not attempted yet.
    pub fn download(download_task: TimelineDownload) -> (r: SyncTask)
        ensures
            r@ == TaskModel::Download(DataModel { retries: 0, data: download_task@ }),
    {
        SyncTask::Download(SyncData::new(0, download_task))
    }

    /// An upload that was not attempted yet.
    pub fn upload(upload_task: TimelineUpload) -> (r: SyncTask)
        ensures
            r@ == TaskModel::Upload(DataModel { retries: 0, data: upload_task@ }),
    {
        SyncTask::Upload(SyncData::new(0, upload_task))
    }

    /// A deletion that was not attempted yet.
    pub fn delete(delete_task: TimelineDelete) -> (r: SyncTask)
        ensures
            r@ == TaskModel::Delete(DataModel { retries: 0, data: delete_task@ }),
    {
        SyncTask::Delete(SyncData::new(0, delete_task))
    }
}

fn min_retries(a: u32, b: u32) -> (r: u32)
    ensures
        r == min_u32(a, b),
{
    if a <= b {
        a
    } else {
        b
    }
}

impl SyncTaskBatch {
    /// A batch with no task.
    pub fn empty() -> (r: SyncTaskBatch)
        ensures
            r@ == empty_batch(),
    {
        SyncTaskBatch { upload: None, download: None, delete: None }
    }

    /// A batch that holds `task` alone.
    pub fn new(task: SyncTask) -> (r: SyncTaskBatch)
        ensures
            r@ == add_task(empty_batch(), task@),
    {
        let mut new_self = SyncTaskBatch::empty();
        new_self.add(task);
        new_self
    }

    /// Adds `task`, merging it with the task of its kind already held.
    pub fn add(&mut self, task: SyncTask)
        ensures
            final(self)@ == add_task(old(self)@, task@),
    {
        match task {
            SyncTask::Download(new_download) => {
                let merged = match self.download.take() {
                    Some(mut batch_download) => {
                        batch_download.retries = min_retries(
                            batch_download.retries,
                            new_download.retries,
                        );
                        batch_download.data.layers_to_skip.extend(
                            &new_download.data.layers_to_skip,
                        );
                        batch_download
                    },
                    None => new_download,
                };
                self.download = Some(merged);
            },
            SyncTask::Upload(new_upload) => {
                let merged = match self.upload.take() {
                    Some(mut batch_upload) => {
                        batch_upload.retries = min_retries(
                            batch_upload.retries,
                            new_upload.retries,
                        );
                        let new_data = new_upload.data;
                        batch_upload.data.layers_to_upload.extend(&new_data.layers_to_upload);
                        batch_upload.data.uploaded_layers.extend(&new_data.uploaded_layers);
                        if metadata_not_newer(&batch_upload.data.metadata, &new_data.metadata) {
                            batch_upload.data.metadata = new_data.metadata;
                        }
                        batch_upload
                    },
                    None => new_upload,
                };
                self.upload = Some(merged);
            },
            SyncTask::Delete(new_delete) => {
                let merged = match self.delete.take() {
                    Some(mut batch_delete) => {
                        batch_delete.retries = min_retries(
                            batch_delete.retries,
                            new_delete.retries,
                        );
                        batch_delete.data.layers_to_delete.extend(
                            &new_delete.data.layers_to_delete,
                        );
                        batch_delete.data.deleted_layers.extend(&new_delete.data.deleted_layers);
                        batch_delete.data.deletion_registered = batch_delete.data.deletion_registered
                            || new_delete.data.deletion_registered;
                        batch_delete
                    },
                    None => new_delete,
                };
                self.delete = Some(merged);
            },
        }
    }
}

/// Merging into a batch a task that the batch already holds leaves the
/// batch as it was.
pub proof fn lemma_merge_of_held_task_is_noop(b: BatchModel, t: TaskModel)
    requires
        holds_task(b, t),
    ensures
        add_task(b, t) == b,
{
    match t {
        TaskModel::Download(d) => {
            assert(d.data.layers_to_skip.union(d.data.layers_to_skip) =~= d.data.layers_to_skip);
        },
        TaskModel::Upload(u) => {
            assert(u.data.layers_to_upload.union(u.data.layers_to_upload)
                =~= u.data.layers_to_upload);
            assert(u.data.uploaded_layers.union(u.data.uploaded_layers) =~= u.data.uploaded_layers);
        },
        TaskModel::Delete(d) => {
            assert(d.data.layers_to_delete.union(d.data.layers_to_delete)
                =~= d.data.layers_to_delete);
            assert(d.data.deleted_layers.union(d.data.deleted_layers) =~= d.data.deleted_layers);
        },
    }
}

/// Adding the same task twice gives the batch that adding it once gives.
pub proof fn lemma_merge_is_idempotent(b: BatchModel, t: TaskModel)
    ensures
        add_task(add_task(b, t), t) == add_task(b, t),
{
    match t {
        TaskModel::Download(d) => {
            let m = add_task(b, t).download.unwrap();
            assert(m.data.layers_to_skip.union(d.data.layers_to_skip) =~= m.data.layers_to_skip);
        },
        TaskModel::Upload(u) => {
            let m = add_task(b, t).upload.unwrap();
            assert(m.data.layers_to_upload.union(u.data.layers_to_upload)
                =~= m.data.layers_to_upload);
            assert(m.data.uploaded_layers.union(u.data.uploaded_layers) =~= m.data.uploaded_layers);
        },
        TaskModel::Delete(d) => {
            let m = add_task(b, t).delete.unwrap();
            assert(m.data.layers_to_delete.union(d.data.layers_to_delete)
                =~= m.data.layers_to_delete);
            assert(m.data.deleted_layers.union(d.data.deleted_layers) =~= m.data.deleted_layers);
        },
    }
}

} // verus!
