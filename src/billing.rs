//! Billing metric records, the names of their kinds, and the cache that
//! keeps unchanged values from being sent twice.

use vstd::prelude::*;

use crate::timeline::{TenantId, TimelineId};

verus! {

/// What a billing metric measures.
#[derive(Clone, Copy, Debug, PartialEq, Eq, Hash, Structural)]
pub enum BillingMetricKind {
    /// Amount of WAL written by a timeline: an absolute, per-timeline metric.
    WrittenSize,
    /// Size of all branches of a tenant, WAL included: an absolute,
    /// per-tenant metric.
    SyntheticStorageSize,
    /// Size of the files of a tenant on the page server's disk: an absolute,
    /// per-tenant metric.
    PhysicalSize,
    /// Size of a tenant in the remote storage: an absolute, per-tenant
    /// metric.
    S3StorageSize,
}

/// The name of a metric kind.
pub open spec fn kind_name(kind: BillingMetricKind) -> Seq<char> {
    match kind {
        BillingMetricKind::WrittenSize => "written_size"@,
        BillingMetricKind::SyntheticStorageSize => "synthetic_storage_size"@,
        BillingMetricKind::PhysicalSize => "physical_size"@,
        BillingMetricKind::S3StorageSize => "s3_storage_size"@,
    }
}

/// A name that is not the name of a metric kind.
#[derive(Clone, Debug, PartialEq, Eq)]
pub struct UnknownMetricKind {
    pub name: String,
}

impl BillingMetricKind {
    /// The name of the kind.
    pub fn as_str(&self) -> (r: &'static str)
        ensures
            r@ == kind_name(*self),
    {
        match self {
            BillingMetricKind::WrittenSize => "written_size",
            BillingMetricKind::SyntheticStorageSize => "synthetic_storage_size",
            BillingMetricKind::PhysicalSize => "physical_size",
            BillingMetricKind::S3StorageSize => "s3_storage_size",
        }
    }

    /// The kind named `s`.
    pub fn parse(s: &str) -> (r: Result<BillingMetricKind, UnknownMetricKind>)
        ensures
            match r {
                Ok(kind) => kind_name(kind) == s@,
                Err(e) => e.name@ == s@ && forall|kind: BillingMetricKind|
                    kind_name(kind) != s@,
            },
    {
        let name: String = s.to_owned();
        let kinds = [
            BillingMetricKind::WrittenSize,
            BillingMetricKind::SyntheticStorageSize,
            BillingMetricKind::PhysicalSize,
            BillingMetricKind::S3StorageSize,
        ];
        let mut i: usize = 0;
        while i < 4
            invariant
                0 <= i <= 4,
                name@ == s@,
                kinds@ == seq![
                    BillingMetricKind::WrittenSize,
                    BillingMetricKind::SyntheticStorageSize,
                    BillingMetricKind::PhysicalSize,
                    BillingMetricKind::S3StorageSize,
                ],
                forall|j: int| 0 <= j < i ==> kind_name(#[trigger] kinds@[j]) != s@,
            decreases 4 - i,
        {
            let kind = kinds[i];
            let candidate: String = kind.as_str().to_owned();
            if candidate == name {
                return Ok(kind);
            }
            i = i + 1;
        }
        proof {
            assert forall|kind: BillingMetricKind| kind_name(kind) != s@ by {
                match kind {
                    BillingMetricKind::WrittenSize => assert(kinds@[0] == kind),
                    BillingMetricKind::SyntheticStorageSize => assert(kinds@[1] == kind),
                    BillingMetricKind::PhysicalSize => assert(kinds@[2] == kind),
                    BillingMetricKind::S3StorageSize => assert(kinds@[3] == kind),
                }
            }
        }
        Err(UnknownMetricKind { name })
    }
}

/// What identifies a metric: its tenant, its timeline for per-timeline
/// metrics, and its kind.
#[derive(Clone, Copy, Debug, PartialEq, Eq, Hash, Structural)]
pub struct BillingMetricsKey {
    pub tenant_id: TenantId,
    pub timeline_id: Option<TimelineId>,
    pub metric: BillingMetricKind,
}

/// One value of a metric, as sent to the billing service.
pub struct BillingMetric {
    pub metric: BillingMetricKind,
    pub metric_type: String,
    pub tenant_id: TenantId,
    pub timeline_id: Option<TimelineId>,
    /// When the value was taken, in microseconds since the Unix epoch; none
    /// where the clock could not be read.
    pub time: Option<i64>,
    pub value: u64,
}

/// Relies on chrono::DateTime::from_timestamp and
/// DateTime::timestamp_micros, fed by std's SystemTime::now: the current
/// time in microseconds since the Unix epoch, or nothing where the clock
/// reads before the epoch or beyond chrono's range. Nothing is promised of
/// the value, and none of these calls panics.
#[verifier::external_body]
fn now_micros() -> (r: Option<i64>) {
    let since_epoch = std::time::SystemTime::now().duration_since(std::time::UNIX_EPOCH).ok()?;
    let secs = i64::try_from(since_epoch.as_secs()).ok()?;
    chrono::DateTime::from_timestamp(secs, since_epoch.subsec_nanos()).map(|t| t.timestamp_micros())
}

impl BillingMetric {
    /// An absolute value of a metric, taken now.
    pub fn new_absolute(
        metric: BillingMetricKind,
        tenant_id: TenantId,
        timeline_id: Option<TimelineId>,
        value: u64,
    ) -> (r: BillingMetric)
        ensures
            r.metric == metric,
            r.metric_type@ == "absolute"@,
            r.tenant_id == tenant_id,
            r.timeline_id == timeline_id,
            r.value == value,
    {
        let metric_type: String = "absolute".to_owned();
        BillingMetric { metric, metric_type, tenant_id, timeline_id, time: now_micros(), value }
    }
}

impl std::str::FromStr for BillingMetricKind {
    type Err = UnknownMetricKind;

    fn from_str(s: &str) -> Result<BillingMetricKind, UnknownMetricKind> {
        BillingMetricKind::parse(s)
    }
}

/// The keys of cached metric values, in order.
pub open spec fn cache_keys(s: Seq<(BillingMetricsKey, u64)>) -> Seq<BillingMetricsKey> {
    s.map_values(|e: (BillingMetricsKey, u64)| e.0)
}

/// The last value sent of each metric.
pub struct MetricsCache {
    entries: Vec<(BillingMetricsKey, u64)>,
}

impl View for MetricsCache {
    type V = Map<BillingMetricsKey, u64>;

    closed spec fn view(&self) -> Map<BillingMetricsKey, u64> {
        Map::new(
            |k: BillingMetricsKey| cache_keys(self.entries@).contains(k),
            |k: BillingMetricsKey| self.entries@[cache_keys(self.entries@).index_of(k)].1,
        )
    }
}

/// `current` without the values that `cache` holds already, in order;
/// `cache` takes each value as it is met.
pub open spec fn new_metrics(
    cache: Map<BillingMetricsKey, u64>,
    current: Seq<(BillingMetricsKey, u64)>,
) -> (Map<BillingMetricsKey, u64>, Seq<(BillingMetricsKey, u64)>)
    decreases current.len(),
{
    if current.len() == 0 {
        (cache, Seq::empty())
    } else {
        let (c, sent) = new_metrics(cache, current.drop_last());
        let (k, v) = current.last();
        (
            c.insert(k, v),
            if c.contains_key(k) && c[k] == v {
                sent
            } else {
                sent.push((k, v))
            },
        )
    }
}

impl MetricsCache {
    #[verifier::type_invariant]
    closed spec fn unique_keys(&self) -> bool {
        cache_keys(self.entries@).no_duplicates()
    }

    /// A cache with no value.
    pub fn new() -> (r: MetricsCache)
        ensures
            r@ == Map::<BillingMetricsKey, u64>::empty(),
    {
        let r = MetricsCache { entries: Vec::new() };
        proof {
            assert(cache_keys(r.entries@) =~= Seq::<BillingMetricsKey>::empty());
            assert(r@ =~= Map::<BillingMetricsKey, u64>::empty());
        }
        r
    }

    /// Records `value` for `key`; returns the value held before, if any.
    pub fn insert(&mut self, key: BillingMetricsKey, value: u64) -> (r: Option<u64>)
        ensures
            final(self)@ == old(self)@.insert(key, value),
            r == (if old(self)@.contains_key(key) {
                Some(old(self)@[key])
            } else {
                None
            }),
    {
        proof {
            use_type_invariant(&*self);
        }
        let ghost s = self.entries@;
        let ghost ks = cache_keys(s);
        let mut i: usize = 0;
        while i < self.entries.len()
            invariant
                0 <= i <= self.entries@.len(),
                s == self.entries@,
                s == old(self).entries@,
                ks == cache_keys(s),
                ks.no_duplicates(),
                forall|j: int| 0 <= j < i ==> s[j].0 != key,
            decreases self.entries@.len() - i,
        {
            if self.entries[i].0 == key {
                let previous = self.entries[i].1;
                proof {
                    assert(ks[i as int] == key);
                    assert(ks.contains(key));
                    let k = ks.index_of(key);
                    assert(ks[k] == key);
                    assert(k == i);
                }
                let mut entries = Vec::new();
                std::mem::swap(&mut entries, &mut self.entries);
                entries.set(i, (key, value));
                proof {
                    let s2 = entries@;
                    assert(cache_keys(s2) =~= ks);
                    assert forall|k: BillingMetricsKey| #[trigger] cache_keys(s2).contains(k)
                        implies s2[cache_keys(s2).index_of(k)].1 == old(self)@.insert(
                        key,
                        value,
                    )[k] by {
                        let j = cache_keys(s2).index_of(k);
                        assert(ks[j] == k);
                        assert(ks.contains(k));
                        assert(ks.index_of(k) == j);
                        if k != key {
                            assert(s2[j] == s[j]);
                        } else {
                            assert(j == i);
                        }
                    }
                }
                self.entries = entries;
                proof {
                    assert(self@ =~= old(self)@.insert(key, value));
                }
                return Some(previous);
            }
            i = i + 1;
        }
        proof {
            if ks.contains(key) {
                let k = ks.index_of(key);
                assert(s[k].0 == key);
            }
        }
        let mut entries = Vec::new();
        std::mem::swap(&mut entries, &mut self.entries);
        entries.push((key, value));
        proof {
            let s2 = entries@;
            let ks2 = cache_keys(s2);
            assert(ks2 =~= ks.push(key));
            assert forall|a: int, b: int|
                0 <= a < ks2.len() && 0 <= b < ks2.len() && a != b implies ks2[a] != ks2[b] by {
                if a == ks.len() {
                    assert(ks2[b] == ks[b]);
                } else if b == ks.len() {
                    assert(ks2[a] == ks[a]);
                }
            }
            assert(ks2[ks.len() as int] == key);
            assert forall|k: BillingMetricsKey| #[trigger] ks2.contains(k)
                == old(self)@.insert(key, value).contains_key(k) by {
                if ks2.contains(k) && k != key {
                    let j = choose|j: int| 0 <= j < ks2.len() && ks2[j] == k;
                    assert(ks[j] == k);
                }
                if ks.contains(k) {
                    let j = choose|j: int| 0 <= j < ks.len() && ks[j] == k;
                    assert(ks2[j] == k);
                }
            }
            assert forall|k: BillingMetricsKey| #[trigger] ks2.contains(k)
                implies s2[ks2.index_of(k)].1 == old(self)@.insert(key, value)[k] by {
                let j = ks2.index_of(k);
                if k != key {
                    assert(j != ks.len());
                    assert(s2[j] == s[j]);
                    assert(ks[j] == k);
                    assert(ks.index_of(k) == j);
                }
            }
        }
        self.entries = entries;
        proof {
            assert(self@ =~= old(self)@.insert(key, value));
        }
        None
    }

    /// The values of `current` that differ from what the cache holds, in
    /// order, each recorded in the cache.
    pub fn filter_new(&mut self, current: &Vec<(BillingMetricsKey, u64)>) -> (r: Vec<
        (BillingMetricsKey, u64),
    >)
        ensures
            (final(self)@, r@) == new_metrics(old(self)@, current@),
    {
        let mut sent: Vec<(BillingMetricsKey, u64)> = Vec::new();
        let mut i: usize = 0;
        proof {
            assert(current@.take(0) =~= Seq::<(BillingMetricsKey, u64)>::empty());
        }
        while i < current.len()
            invariant
                0 <= i <= current@.len(),
                (self@, sent@) == new_metrics(old(self)@, current@.take(i as int)),
            decreases current@.len() - i,
        {
            proof {
                assert(current@.take(i + 1).drop_last() =~= current@.take(i as int));
                assert(current@.take(i + 1).last() == current@[i as int]);
            }
            let (key, value) = current[i];
            match self.insert(key, value) {
                Some(previous) => {
                    if previous != value {
                        sent.push((key, value));
                    }
                },
                None => {
                    sent.push((key, value));
                },
            }
            i = i + 1;
        }
        proof {
            assert(current@.take(i as int) =~= current@);
        }
        sent
    }
}

/// The metrics of one tenant: the written size of each timeline, then the
/// tenant's physical size, the sum of its timelines' physical sizes, then
/// its remote size. Nothing where the sum does not fit in 64 bits.
/// `timelines` holds for each timeline its written and physical sizes.
pub fn tenant_metrics(
    tenant_id: TenantId,
    timelines: &Vec<(TimelineId, u64, u64)>,
    remote_size: u64,
) -> (r: Option<Vec<(BillingMetricsKey, u64)>>)
    ensures
        physical_sum(timelines@) <= u64::MAX ==> r is Some && r.unwrap()@ == written_metrics(
            tenant_id,
            timelines@,
        ).push(
            (
                BillingMetricsKey {
                    tenant_id,
                    timeline_id: None,
                    metric: BillingMetricKind::PhysicalSize,
                },
                physical_sum(timelines@) as u64,
            ),
        ).push(
            (
                BillingMetricsKey {
                    tenant_id,
                    timeline_id: None,
                    metric: BillingMetricKind::S3StorageSize,
                },
                remote_size,
            ),
        ),
        physical_sum(timelines@) > u64::MAX ==> r is None,
{
    let mut metrics: Vec<(BillingMetricsKey, u64)> = Vec::new();
    let mut physical: u64 = 0;
    let mut i: usize = 0;
    proof {
        assert(timelines@.take(0) =~= Seq::<(TimelineId, u64, u64)>::empty());
        assert(metrics@ =~= written_metrics(tenant_id, timelines@.take(0)));
    }
    while i < timelines.len()
        invariant
            0 <= i <= timelines@.len(),
            metrics@ == written_metrics(tenant_id, timelines@.take(i as int)),
            physical == physical_sum(timelines@.take(i as int)),
        decreases timelines@.len() - i,
    {
        proof {
            assert(timelines@.take(i + 1).drop_last() =~= timelines@.take(i as int));
            assert(timelines@.take(i + 1).last() == timelines@[i as int]);
            lemma_physical_sum_prefix(timelines@, i + 1);
        }
        let (timeline_id, written, size) = timelines[i];
        metrics.push(
            (
                BillingMetricsKey {
                    tenant_id,
                    timeline_id: Some(timeline_id),
                    metric: BillingMetricKind::WrittenSize,
                },
                written,
            ),
        );
        match physical.checked_add(size) {
            Some(sum) => physical = sum,
            None => {
                return None;
            },
        }
        i = i + 1;
    }
    proof {
        assert(timelines@.take(i as int) =~= timelines@);
    }
    metrics.push(
        (
            BillingMetricsKey { tenant_id, timeline_id: None, metric: BillingMetricKind::PhysicalSize },
            physical,
        ),
    );
    metrics.push(
        (
            BillingMetricsKey { tenant_id, timeline_id: None, metric: BillingMetricKind::S3StorageSize },
            remote_size,
        ),
    );
    Some(metrics)
}

/// The sum of the physical sizes of `timelines`.
pub open spec fn physical_sum(timelines: Seq<(TimelineId, u64, u64)>) -> nat
    decreases timelines.len(),
{
    if timelines.len() == 0 {
        0
    } else {
        physical_sum(timelines.drop_last()) + timelines.last().2 as nat
    }
}

/// The written size metric of each of `timelines`, in order.
pub open spec fn written_metrics(tenant_id: TenantId, timelines: Seq<(TimelineId, u64, u64)>) -> Seq<
    (BillingMetricsKey, u64),
> {
    timelines.map_values(
        |t: (TimelineId, u64, u64)|
            (
                BillingMetricsKey {
                    tenant_id,
                    timeline_id: Some(t.0),
                    metric: BillingMetricKind::WrittenSize,
                },
                t.1,
            ),
    )
}

proof fn lemma_physical_sum_prefix(timelines: Seq<(TimelineId, u64, u64)>, n: int)
    requires
        0 <= n <= timelines.len(),
    ensures
        physical_sum(timelines.take(n)) <= physical_sum(timelines),
    decreases timelines.len(),
{
    if n < timelines.len() {
        assert(timelines.drop_last().take(n) =~= timelines.take(n));
        lemma_physical_sum_prefix(timelines.drop_last(), n);
    } else {
        assert(timelines.take(n) =~= timelines);
    }
}

} // verus!
