use std::ops::ControlFlow;

use pageserver::index::{IndexPartError, INDEX_PART_VERSION};
use pageserver::protocol::{
    after_layer_deletes, after_layer_downloads, after_layer_uploads, layers_left_to_delete,
    layers_left_to_upload, layers_to_download, local_metadata_outdated, plan_batch,
    refresh_upload_metadata, registered_deletion, upload_metadata_lags, Outcome,
};
use pageserver::reconcile::{
    compare_local_and_remote_timeline, schedule_first_sync_tasks, statuses_without_remote,
};
use pageserver::retry::{backoff_for, validate_task_retries, RetryDecision};
use pageserver::schedule::{schedule_layer_delete, schedule_layer_download, schedule_layer_upload};
use pageserver::protocol::{after_deletion_registration, delete_given_up, upload_given_up};
use pageserver::update::{
    commit_remote_update, plan_remote_update, update_remote_data, update_remote_delete,
    update_remote_upload, RemoteDataUpdate, RemoteUpdateError,
};
use pageserver::{
    IndexPart, LayerSet, LocalTimeline, LocalTimelineInitStatus, RemoteTimeline,
    RemoteTimelineIndex, SyncData, SyncId, SyncQueue, SyncTask, SyncTaskBatch, TenantId,
    TimelineDelete, TimelineDownload, TimelineId, TimelineMetadata, TimelineUpload,
};

fn layers(names: &[&str]) -> LayerSet {
    LayerSet::from_paths(names.iter().map(|n| n.to_string()).collect())
}

fn sorted(set: &LayerSet) -> Vec<String> {
    let mut v = set.to_vec();
    v.sort();
    v
}

fn names(list: &[&str]) -> Vec<String> {
    list.iter().map(|n| n.to_string()).collect()
}

fn meta(lsn: u64) -> TimelineMetadata {
    TimelineMetadata::new(lsn, None, None, 0, 0, 0)
}

fn sync_id(tenant: u128, timeline: u128) -> SyncId {
    SyncId { tenant_id: TenantId(tenant), timeline_id: TimelineId(timeline) }
}

fn upload(to_upload: &[&str], uploaded: &[&str], lsn: Option<u64>) -> TimelineUpload {
    TimelineUpload {
        layers_to_upload: layers(to_upload),
        uploaded_layers: layers(uploaded),
        metadata: lsn.map(meta),
    }
}

fn remote_entry(stored: &[&str], lsn: u64) -> RemoteTimeline {
    let mut t = RemoteTimeline::new(meta(lsn));
    t.add_timeline_layers(&layers(stored));
    t
}

fn batches(queue: &mut SyncQueue, max: usize) -> Vec<(SyncId, SyncTaskBatch)> {
    match queue.next_task_batch(max) {
        ControlFlow::Continue(b) => b,
        ControlFlow::Break(()) => panic!("queue closed"),
    }
}

#[test]
fn batching_tests() {
    let mut queue = SyncQueue::new();
    let a = sync_id(1, 1);
    let b = sync_id(1, 2);
    let c = sync_id(2, 3);
    assert!(queue.push(a, SyncTask::upload(upload(&["l1"], &[], Some(100)))));
    assert!(queue.push(b, SyncTask::download(TimelineDownload { layers_to_skip: layers(&["x"]) })));
    assert!(queue.push(
        a,
        SyncTask::Upload(SyncData::new(2, upload(&["l2"], &["l0"], Some(50))))
    ));
    assert!(queue.push(c, SyncTask::upload(upload(&["l9"], &[], None))));
    assert!(queue.push(a, SyncTask::download(TimelineDownload { layers_to_skip: layers(&[]) })));
    assert_eq!(queue.len(), 5);

    // Three distinct timelines at most: the download of `a` stays.
    let batch = batches(&mut queue, 3);
    assert_eq!(queue.len(), 1);
    assert_eq!(batch.len(), 3);
    assert_eq!(batch[0].0, a);
    assert_eq!(batch[1].0, b);
    assert_eq!(batch[2].0, c);
    let up = batch[0].1.upload.as_ref().unwrap();
    assert_eq!(up.retries, 0);
    assert_eq!(sorted(&up.data.layers_to_upload), names(&["l1", "l2"]));
    assert_eq!(sorted(&up.data.uploaded_layers), names(&["l0"]));
    assert_eq!(up.data.metadata.unwrap().disk_consistent_lsn, 100);
    assert!(batch[0].1.download.is_none());
    assert!(batch[1].1.download.is_some());
    assert!(batch[2].1.upload.as_ref().unwrap().data.metadata.is_none());

    let rest = batches(&mut queue, 10);
    assert_eq!(rest.len(), 1);
    assert_eq!(rest[0].0, a);
    assert!(rest[0].1.download.is_some());
    assert_eq!(queue.len(), 0);

    // One timeline at most: a single task is taken.
    assert!(queue.push(b, SyncTask::download(TimelineDownload { layers_to_skip: layers(&[]) })));
    assert!(queue.push(b, SyncTask::download(TimelineDownload { layers_to_skip: layers(&["y"]) })));
    let one = batches(&mut queue, 1);
    assert_eq!(one.len(), 1);
    assert_eq!(queue.len(), 1);
    let _ = batches(&mut queue, 1);

    let empty = batches(&mut queue, 3);
    assert!(empty.is_empty());
    queue.close();
    assert!(matches!(queue.next_task_batch(3), ControlFlow::Break(())));
    assert!(!queue.push(a, SyncTask::download(TimelineDownload { layers_to_skip: layers(&[]) })));
}

#[test]
fn merge_keeps_newer_metadata_and_lower_retries() {
    let mut batch = SyncTaskBatch::new(SyncTask::Upload(SyncData::new(
        3,
        upload(&["a"], &[], Some(200)),
    )));
    batch.add(SyncTask::Upload(SyncData::new(1, upload(&["b"], &["a"], Some(100)))));
    let up = batch.upload.as_ref().unwrap();
    assert_eq!(up.retries, 1);
    assert_eq!(up.data.metadata.unwrap().disk_consistent_lsn, 200);
    assert_eq!(sorted(&up.data.layers_to_upload), names(&["a", "b"]));
    // A tie: the newer task's metadata wins.
    let tied = TimelineMetadata::new(200, Some(7), None, 0, 0, 0);
    batch.add(SyncTask::Upload(SyncData::new(5, TimelineUpload {
        layers_to_upload: layers(&[]),
        uploaded_layers: layers(&[]),
        metadata: Some(tied),
    })));
    assert_eq!(batch.upload.as_ref().unwrap().data.metadata, Some(tied));
    assert_eq!(batch.upload.as_ref().unwrap().retries, 1);
    // No metadata never replaces metadata.
    batch.add(SyncTask::upload(upload(&[], &[], None)));
    assert_eq!(batch.upload.as_ref().unwrap().data.metadata, Some(tied));
}

#[test]
fn merge_of_deletions_keeps_registration() {
    let mut batch = SyncTaskBatch::new(SyncTask::Delete(SyncData::new(2, TimelineDelete {
        layers_to_delete: layers(&["a"]),
        deleted_layers: layers(&[]),
        deletion_registered: true,
    })));
    batch.add(SyncTask::delete(TimelineDelete {
        layers_to_delete: layers(&["b"]),
        deleted_layers: layers(&["z"]),
        deletion_registered: false,
    }));
    let d = batch.delete.as_ref().unwrap();
    assert!(d.data.deletion_registered);
    assert_eq!(d.retries, 0);
    assert_eq!(sorted(&d.data.layers_to_delete), names(&["a", "b"]));
    assert_eq!(sorted(&d.data.deleted_layers), names(&["z"]));
}

#[test]
fn merging_a_held_task_changes_nothing() {
    let mut batch = SyncTaskBatch::new(SyncTask::download(TimelineDownload {
        layers_to_skip: layers(&["a", "b"]),
    }));
    batch.add(SyncTask::download(TimelineDownload { layers_to_skip: layers(&["a", "b"]) }));
    let d = batch.download.as_ref().unwrap();
    assert_eq!(d.retries, 0);
    assert_eq!(sorted(&d.data.layers_to_skip), names(&["a", "b"]));
    assert!(batch.upload.is_none() && batch.delete.is_none());
}

#[test]
fn backoff_doubles_up_to_thirty_seconds() {
    assert_eq!(backoff_for(0), 0);
    assert_eq!(backoff_for(1), 1);
    assert_eq!(backoff_for(2), 2);
    assert_eq!(backoff_for(3), 4);
    assert_eq!(backoff_for(5), 16);
    assert_eq!(backoff_for(6), 30);
    assert_eq!(backoff_for(u32::MAX), 30);
    let total: u64 = (0..4).map(backoff_for).sum();
    assert_eq!(total, 0 + 1 + 2 + 4);
}

#[test]
fn retry_gate_allows_max_sync_errors_attempts() {
    let mut attempts = 0;
    for retries in 0..10u32 {
        match validate_task_retries(SyncData::new(retries, ()), 3) {
            RetryDecision::Proceed { wait_seconds, task } => {
                attempts += 1;
                assert_eq!(task.retries, retries);
                assert_eq!(wait_seconds, backoff_for(retries));
            }
            RetryDecision::GiveUp(task) => assert_eq!(task.retries, retries),
        }
    }
    assert_eq!(attempts, 3);
}

#[test]
fn fresh_upload_creates_entry() {
    let id = sync_id(1, 1);
    let mut queue = SyncQueue::new();
    let mut index = RemoteTimelineIndex::empty();
    assert!(schedule_layer_upload(&mut queue, id.tenant_id, id.timeline_id, layers(&["L1", "L2"]), Some(meta(100))));
    let mut batch = batches(&mut queue, 4);
    assert_eq!(batch.len(), 1);
    let plan = plan_batch(batch.remove(0).1, 3);
    assert!(plan.download.is_none() && plan.delete.is_none());
    let task = match plan.upload {
        Some(RetryDecision::Proceed { wait_seconds: 0, task }) => task,
        _ => panic!("the upload should proceed at once"),
    };
    let to_put = layers_left_to_upload(&task.data);
    assert_eq!(sorted(&to_put), names(&["L1", "L2"]));
    let task = match after_layer_uploads(task, &to_put, true) {
        Outcome::Complete(t) => t,
        Outcome::Reschedule(_) => panic!("all copies succeeded"),
    };
    assert!(task.data.layers_to_upload.is_empty());
    let entry = update_remote_upload(&mut index, id, task.data, false).unwrap();
    let part = IndexPart::from_remote_timeline(&entry);
    let mut listed = part.timeline_layers.clone();
    listed.sort();
    assert_eq!(listed, names(&["L1", "L2"]));
    assert_eq!(part.metadata.disk_consistent_lsn, 100);
    assert_eq!(part.version, INDEX_PART_VERSION);
    assert!(index.contains(id));
    assert!(!index.timeline_entry(id).unwrap().awaits_download);
}

#[test]
fn incremental_upload_extends_entry() {
    let id = sync_id(1, 1);
    let mut index = RemoteTimelineIndex::empty();
    index.add_timeline_entry(id, remote_entry(&["L1"], 100));
    let task = SyncData::new(0, upload(&["L2"], &[], Some(200)));
    let to_put = layers_left_to_upload(&task.data);
    assert_eq!(sorted(&to_put), names(&["L2"]));
    let task = match after_layer_uploads(task, &to_put, true) {
        Outcome::Complete(t) => t,
        Outcome::Reschedule(_) => panic!("all copies succeeded"),
    };
    let entry = update_remote_upload(&mut index, id, task.data, false).unwrap();
    assert_eq!(sorted(&entry.stored_files), names(&["L1", "L2"]));
    assert_eq!(entry.metadata.disk_consistent_lsn, 200);
    // An older upload does not take the metadata back.
    let older = upload(&["L0"], &["L0"], Some(150));
    let entry = update_remote_upload(&mut index, id, older, false).unwrap();
    assert_eq!(entry.metadata.disk_consistent_lsn, 200);
    assert_eq!(sorted(&entry.stored_files), names(&["L0", "L1", "L2"]));
}

#[test]
fn upload_without_metadata_needs_entry() {
    let id = sync_id(3, 3);
    let mut index = RemoteTimelineIndex::empty();
    let r = update_remote_upload(&mut index, id, upload(&["a"], &["a"], None), false);
    assert!(matches!(r, Err(RemoteUpdateError::NoMetadataForNewEntry)));
    assert!(!index.contains(id));
}

#[test]
fn startup_schedules_download() {
    let id = sync_id(5, 6);
    let mut index = RemoteTimelineIndex::empty();
    index.add_timeline_entry(id, remote_entry(&["L1", "L2", "L3"], 300));
    let mut queue = SyncQueue::new();
    let statuses = schedule_first_sync_tasks(
        &mut index,
        &mut queue,
        vec![LocalTimeline { sync_id: id, metadata: meta(100), files: layers(&["L1"]) }],
    );
    assert_eq!(statuses, vec![(id, LocalTimelineInitStatus::NeedsSync)]);
    assert!(index.timeline_entry(id).unwrap().awaits_download);
    assert_eq!(queue.len(), 1);
    let mut batch = batches(&mut queue, 1);
    let download = batch.remove(0).1.download.unwrap();
    assert_eq!(sorted(&download.data.layers_to_skip), names(&["L1"]));

    let fetch = layers_to_download(index.timeline_entry(id), &download.data).unwrap();
    assert_eq!(sorted(&fetch), names(&["L2", "L3"]));
    match after_layer_downloads(download, &fetch, true) {
        Outcome::Complete(_) => {}
        Outcome::Reschedule(_) => panic!("all fetches succeeded"),
    }
    let remote_lsn = index.timeline_entry(id).unwrap().metadata.disk_consistent_lsn;
    assert!(local_metadata_outdated(Some(100), remote_lsn));
    assert!(index.set_awaits_download(id, false).is_ok());
    assert!(!index.timeline_entry(id).unwrap().awaits_download);
}

#[test]
fn startup_without_remote_entry_uploads_everything() {
    let id = sync_id(5, 7);
    let mut index = RemoteTimelineIndex::empty();
    let mut queue = SyncQueue::new();
    let statuses = schedule_first_sync_tasks(
        &mut index,
        &mut queue,
        vec![LocalTimeline { sync_id: id, metadata: meta(10), files: layers(&["a", "b"]) }],
    );
    assert_eq!(statuses, vec![(id, LocalTimelineInitStatus::LocallyComplete)]);
    let mut batch = batches(&mut queue, 1);
    let up = batch.remove(0).1.upload.unwrap();
    assert_eq!(sorted(&up.data.layers_to_upload), names(&["a", "b"]));
    assert_eq!(up.data.metadata.unwrap().disk_consistent_lsn, 10);
    assert!(!index.contains(id));
}

#[test]
fn compare_schedules_both_directions() {
    let id = sync_id(1, 9);
    let mut tasks = Vec::new();
    let (status, awaits) = compare_local_and_remote_timeline(
        &mut tasks,
        id,
        meta(40),
        layers(&["a", "b"]),
        &remote_entry(&["b", "c"], 30),
    );
    assert_eq!(status, LocalTimelineInitStatus::NeedsSync);
    assert!(awaits);
    assert_eq!(tasks.len(), 2);
    match &tasks[0].1 {
        SyncTask::Download(d) => assert_eq!(sorted(&d.data.layers_to_skip), names(&["a", "b"])),
        _ => panic!("a download comes first"),
    }
    match &tasks[1].1 {
        SyncTask::Upload(u) => assert_eq!(sorted(&u.data.layers_to_upload), names(&["a"])),
        _ => panic!("then an upload"),
    }

    let mut none = Vec::new();
    let (status, awaits) = compare_local_and_remote_timeline(
        &mut none,
        id,
        meta(40),
        layers(&["a"]),
        &remote_entry(&["a"], 30),
    );
    assert_eq!(status, LocalTimelineInitStatus::LocallyComplete);
    assert!(!awaits);
    assert!(none.is_empty());
}

#[test]
fn failing_upload_is_given_up_after_max_errors() {
    let id = sync_id(2, 2);
    let mut index = RemoteTimelineIndex::empty();
    index.add_timeline_entry(id, remote_entry(&["L0"], 50));
    let mut task = SyncData::new(0, upload(&["L1", "L2"], &[], Some(60)));
    let mut waits = Vec::new();
    let given_up = loop {
        match validate_task_retries(task, 3) {
            RetryDecision::Proceed { wait_seconds, task: t } => {
                waits.push(wait_seconds);
                task = match after_layer_uploads(t, &layers(&[]), false) {
                    Outcome::Reschedule(t) => t,
                    Outcome::Complete(_) => panic!("every copy failed"),
                };
            }
            RetryDecision::GiveUp(t) => break t,
        }
    };
    assert_eq!(waits, vec![0, 1, 2]);
    assert_eq!(given_up.retries, 3);
    let entry = update_remote_upload(&mut index, id, given_up.data, true).unwrap();
    assert_eq!(sorted(&entry.upload_failed_files), names(&["L1", "L2"]));
    assert_eq!(sorted(&entry.stored_files), names(&["L0"]));
    assert_eq!(entry.metadata.disk_consistent_lsn, 50);
}

#[test]
fn delete_registers_before_removing_blobs() {
    let id = sync_id(4, 4);
    let mut index = RemoteTimelineIndex::empty();
    index.add_timeline_entry(id, remote_entry(&["L1", "L2", "L3"], 10));
    let mut queue = SyncQueue::new();
    assert!(schedule_layer_delete(&mut queue, id.tenant_id, id.timeline_id, layers(&["L2"])));
    let task = batches(&mut queue, 1).remove(0).1.delete.unwrap();
    assert!(!task.data.deletion_registered);

    let published = update_remote_delete(&mut index, id, &task.data.layers_to_delete).unwrap();
    assert_eq!(sorted(&published.stored_files), names(&["L1", "L3"]));
    let task = registered_deletion(task);
    let blobs = layers_left_to_delete(&task.data);
    assert_eq!(sorted(&blobs), names(&["L2"]));
    let retry = match after_layer_deletes(task, &layers(&[]), false) {
        Outcome::Reschedule(t) => t,
        Outcome::Complete(_) => panic!("the removal failed"),
    };
    assert!(retry.data.deletion_registered);
    assert_eq!(retry.retries, 1);
    match after_layer_deletes(retry, &blobs, true) {
        Outcome::Complete(t) => assert_eq!(sorted(&t.data.deleted_layers), names(&["L2"])),
        Outcome::Reschedule(_) => panic!("the removal succeeded"),
    }
}

#[test]
fn delete_of_unknown_timeline_publishes_nothing() {
    let mut index = RemoteTimelineIndex::empty();
    let r = update_remote_data(&mut index, sync_id(9, 9), RemoteDataUpdate::Delete(layers(&["a"])));
    assert!(matches!(r, Ok(None)));
}

#[test]
fn upload_and_download_share_one_batch() {
    let id = sync_id(7, 7);
    let mut queue = SyncQueue::new();
    assert!(schedule_layer_upload(&mut queue, id.tenant_id, id.timeline_id, layers(&["L4"]), Some(meta(400))));
    assert!(queue.push(id, SyncTask::download(TimelineDownload { layers_to_skip: layers(&["L1"]) })));
    let mut batch = batches(&mut queue, 4);
    assert_eq!(batch.len(), 1);
    let (got, b) = batch.remove(0);
    assert_eq!(got, id);
    assert!(b.delete.is_none());
    assert_eq!(sorted(&b.upload.as_ref().unwrap().data.layers_to_upload), names(&["L4"]));
    assert_eq!(sorted(&b.download.as_ref().unwrap().data.layers_to_skip), names(&["L1"]));

    let mut index = RemoteTimelineIndex::empty();
    index.add_timeline_entry(id, remote_entry(&["L1", "L2"], 300));
    let plan = plan_batch(b, 3);
    if let Some(RetryDecision::Proceed { task, .. }) = plan.upload {
        let entry = update_remote_upload(&mut index, id, task.data, false).unwrap();
        assert_eq!(entry.metadata.disk_consistent_lsn, 400);
    } else {
        panic!("the upload should proceed");
    }
    let entry = index.timeline_entry(id).unwrap();
    assert_eq!(sorted(&entry.stored_files), names(&["L1", "L2"]));
}

#[test]
fn download_reschedule_skips_fetched_layers() {
    let task = SyncData::new(1, TimelineDownload { layers_to_skip: layers(&["a"]) });
    match after_layer_downloads(task, &layers(&["b"]), false) {
        Outcome::Reschedule(t) => {
            assert_eq!(t.retries, 2);
            assert_eq!(sorted(&t.data.layers_to_skip), names(&["a", "b"]));
        }
        Outcome::Complete(_) => panic!("a fetch failed"),
    }
    assert!(layers_to_download(None, &TimelineDownload { layers_to_skip: layers(&[]) }).is_none());
}

#[test]
fn local_metadata_is_replaced_only_when_older() {
    assert!(local_metadata_outdated(None, 5));
    assert!(local_metadata_outdated(Some(4), 5));
    assert!(!local_metadata_outdated(Some(5), 5));
    assert!(!local_metadata_outdated(Some(6), 5));
}

#[test]
fn upload_metadata_refreshed_from_newer_local() {
    let task = SyncData::new(0, upload(&["a"], &[], Some(10)));
    assert!(upload_metadata_lags(&task.data, 20));
    let task = refresh_upload_metadata(task, meta(20));
    assert_eq!(task.data.metadata.unwrap().disk_consistent_lsn, 20);
    let task = refresh_upload_metadata(task, meta(15));
    assert_eq!(task.data.metadata.unwrap().disk_consistent_lsn, 20);
    let bare = refresh_upload_metadata(SyncData::new(0, upload(&[], &[], None)), meta(30));
    assert!(bare.data.metadata.is_none());
}

#[test]
fn index_part_round_trip() {
    let mut t = remote_entry(&["x", "y"], 77);
    t.add_upload_failures(&layers(&["z"]));
    t.awaits_download = true;
    let part = IndexPart::from_remote_timeline(&t);
    let back = part.to_remote_timeline().unwrap();
    assert_eq!(sorted(&back.stored_files), names(&["x", "y"]));
    assert_eq!(sorted(&back.upload_failed_files), names(&["z"]));
    assert_eq!(back.metadata, t.metadata);
    assert!(!back.awaits_download);
}

#[test]
fn index_part_of_unknown_version_is_refused() {
    let mut part = IndexPart::from_remote_timeline(&remote_entry(&["x"], 1));
    part.version = INDEX_PART_VERSION + 1;
    assert!(matches!(
        part.to_remote_timeline(),
        Err(IndexPartError::UnknownVersion(v)) if v == INDEX_PART_VERSION + 1
    ));
    let good = IndexPart::from_remote_timeline(&remote_entry(&["y"], 2));
    let index = RemoteTimelineIndex::from_parts(&vec![(sync_id(1, 1), part), (sync_id(1, 2), good)]);
    assert!(!index.contains(sync_id(1, 1)));
    assert!(index.contains(sync_id(1, 2)));
}

#[test]
fn awaits_download_needs_entry() {
    let mut index = RemoteTimelineIndex::empty();
    assert!(index.set_awaits_download(sync_id(1, 1), true).is_err());
    assert!(schedule_layer_download(&mut SyncQueue::new(), TenantId(1), TimelineId(1)));
}

#[test]
fn layer_set_operations() {
    let mut s = layers(&["a", "b", "a"]);
    assert_eq!(s.len(), 2);
    assert!(!s.insert("b".to_string()));
    assert!(s.insert("c".to_string()));
    assert!(s.contains(&"c".to_string()));
    s.remove_all(&layers(&["a", "q"]));
    assert_eq!(sorted(&s), names(&["b", "c"]));
    assert!(s.same_paths(&layers(&["c", "b"])));
    assert!(!s.same_paths(&layers(&["c"])));
    assert!(LayerSet::new().is_empty());
}

#[test]
fn index_lists_only_copied_layers() {
    let id = sync_id(8, 8);
    let mut index = RemoteTimelineIndex::empty();
    index.add_timeline_entry(id, remote_entry(&["L0"], 10));
    let task = SyncData::new(0, upload(&["L1", "L2"], &[], Some(20)));
    // The copy of L2 fails: nothing reaches the index, L1 is remembered.
    let retry = match after_layer_uploads(task, &layers(&["L1"]), false) {
        Outcome::Reschedule(t) => t,
        Outcome::Complete(_) => panic!("a copy failed"),
    };
    assert_eq!(sorted(&retry.data.uploaded_layers), names(&["L1"]));
    assert_eq!(sorted(&layers_left_to_upload(&retry.data)), names(&["L2"]));
    assert_eq!(sorted(&index.timeline_entry(id).unwrap().stored_files), names(&["L0"]));
    let done = match after_layer_uploads(retry, &layers(&["L2"]), true) {
        Outcome::Complete(t) => t,
        Outcome::Reschedule(_) => panic!("the copy succeeded"),
    };
    let entry = update_remote_upload(&mut index, id, done.data, false).unwrap();
    assert_eq!(sorted(&entry.stored_files), names(&["L0", "L1", "L2"]));
}

#[test]
fn without_remote_storage_every_timeline_is_complete() {
    let locals = vec![
        LocalTimeline { sync_id: sync_id(1, 1), metadata: meta(1), files: layers(&["a"]) },
        LocalTimeline { sync_id: sync_id(1, 2), metadata: meta(2), files: layers(&[]) },
    ];
    assert_eq!(
        statuses_without_remote(&locals),
        vec![
            (sync_id(1, 1), LocalTimelineInitStatus::LocallyComplete),
            (sync_id(1, 2), LocalTimelineInitStatus::LocallyComplete),
        ]
    );
}

#[test]
fn delete_keeps_failed_uploads_and_metadata() {
    let id = sync_id(6, 1);
    let mut index = RemoteTimelineIndex::empty();
    let mut entry = remote_entry(&["L1", "L2"], 70);
    entry.add_upload_failures(&layers(&["L2", "L9"]));
    entry.awaits_download = true;
    index.add_timeline_entry(id, entry);
    let after = update_remote_delete(&mut index, id, &layers(&["L2"])).unwrap();
    assert_eq!(sorted(&after.stored_files), names(&["L1"]));
    assert_eq!(sorted(&after.upload_failed_files), names(&["L2", "L9"]));
    assert_eq!(after.metadata.disk_consistent_lsn, 70);
    assert!(after.awaits_download);
}

#[test]
fn successful_upload_leaves_failed_set() {
    let id = sync_id(6, 2);
    let mut index = RemoteTimelineIndex::empty();
    let mut entry = remote_entry(&[], 10);
    entry.add_upload_failures(&layers(&["a"]));
    index.add_timeline_entry(id, entry);
    let after = update_remote_upload(&mut index, id, upload(&[], &["a"], Some(20)), false).unwrap();
    assert_eq!(sorted(&after.stored_files), names(&["a"]));
    assert_eq!(sorted(&after.upload_failed_files), names(&["a"]));
    assert_eq!(after.metadata.disk_consistent_lsn, 20);
}

#[test]
fn given_up_tasks_record_only_failures() {
    let id = sync_id(6, 3);
    let mut index = RemoteTimelineIndex::empty();
    index.add_timeline_entry(id, remote_entry(&["a", "b"], 10));
    let up = upload_given_up(SyncData::new(3, upload(&["c"], &[], Some(99))));
    update_remote_data(&mut index, id, up).unwrap();
    let e = index.timeline_entry(id).unwrap();
    assert_eq!(e.metadata.disk_consistent_lsn, 10);
    assert_eq!(sorted(&e.stored_files), names(&["a", "b"]));
    assert_eq!(sorted(&e.upload_failed_files), names(&["c"]));
    let del = delete_given_up(SyncData::new(3, TimelineDelete {
        layers_to_delete: layers(&["a", "b"]),
        deleted_layers: layers(&["a"]),
        deletion_registered: true,
    }));
    update_remote_data(&mut index, id, del).unwrap();
    assert_eq!(sorted(&index.timeline_entry(id).unwrap().stored_files), names(&["b"]));
}

#[test]
fn index_commits_only_after_publication() {
    let id = sync_id(6, 4);
    let mut index = RemoteTimelineIndex::empty();
    index.add_timeline_entry(id, remote_entry(&["a"], 10));
    let update = RemoteDataUpdate::Upload { uploaded_data: upload(&[], &["b"], Some(20)), upload_failed: false };
    let planned = plan_remote_update(&index, id, &update).unwrap().unwrap();
    assert_eq!(sorted(&planned.stored_files), names(&["a", "b"]));
    assert_eq!(sorted(&index.timeline_entry(id).unwrap().stored_files), names(&["a"]));
    commit_remote_update(&mut index, id, update, false);
    assert_eq!(sorted(&index.timeline_entry(id).unwrap().stored_files), names(&["a"]));
    let update = RemoteDataUpdate::Upload { uploaded_data: upload(&[], &["b"], Some(20)), upload_failed: false };
    commit_remote_update(&mut index, id, update, true);
    assert_eq!(sorted(&index.timeline_entry(id).unwrap().stored_files), names(&["a", "b"]));
    assert_eq!(index.timeline_entry(id).unwrap().metadata.disk_consistent_lsn, 20);
}

#[test]
fn unpublished_registration_reschedules_deletion() {
    let task = SyncData::new(0, TimelineDelete {
        layers_to_delete: layers(&["x"]),
        deleted_layers: layers(&[]),
        deletion_registered: false,
    });
    match after_deletion_registration(task, false) {
        Outcome::Reschedule(t) => {
            assert_eq!(t.retries, 1);
            assert!(!t.data.deletion_registered);
        }
        Outcome::Complete(_) => panic!("the index part was not published"),
    }
    let task = SyncData::new(0, TimelineDelete {
        layers_to_delete: layers(&["x"]),
        deleted_layers: layers(&[]),
        deletion_registered: false,
    });
    match after_deletion_registration(task, true) {
        Outcome::Complete(t) => assert!(t.data.deletion_registered),
        Outcome::Reschedule(_) => panic!("the index part was published"),
    }
}
