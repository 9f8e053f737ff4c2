//! Logic of the page server's remote storage synchronisation: the layer sets
//! and the remote index that mirror what the object store holds, the sync
//! tasks and their per-timeline merging, the task queue, the retry policy,
//! the decisions of the upload, download and delete protocols and the startup
//! reconciliation of local and remote timelines. Next to it, the page
//! server's key space accumulator and partitioning, and its billing metric
//! records.

pub mod billing;
pub mod index;
pub mod keyspace;
pub mod layers;
pub mod protocol;
pub mod queue;
pub mod reconcile;
pub mod retry;
pub mod scan;
pub mod schedule;
pub mod task;
pub mod timeline;
pub mod update;

pub use billing::{BillingMetric, BillingMetricKind, BillingMetricsKey};
pub use index::{IndexPart, RemoteTimeline, RemoteTimelineIndex};
pub use keyspace::{Key, KeyPartitioning, KeySpace, KeySpaceAccum};
pub use layers::LayerSet;
pub use queue::SyncQueue;
pub use reconcile::{LocalTimeline, LocalTimelineInitStatus};
pub use task::{SyncData, SyncTask, SyncTaskBatch, TimelineDelete, TimelineDownload, TimelineUpload};
pub use timeline::{SyncId, TenantId, TimelineId, TimelineMetadata};
