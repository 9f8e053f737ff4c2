use pageserver::billing::UnknownMetricKind;
use pageserver::keyspace::singleton_range;
use pageserver::scan::{classify_timeline_file, TimelineFileKind};
use pageserver::timeline::parse_id_hex;
use pageserver::keyspace::{key_range_size, BLCKSZ};
use pageserver::{BillingMetric, BillingMetricKind, Key, KeyPartitioning, KeySpace, KeySpaceAccum, TenantId, TimelineId};

fn key(field6: u32) -> Key {
    Key { field1: 0, field2: 1, field3: 2, field4: 3, field5: 4, field6 }
}

#[test]
fn accumulator_joins_touching_ranges() {
    let mut accum = KeySpaceAccum::new();
    accum.add_key(key(1));
    accum.add_key(key(2));
    accum.add_range(key(3)..key(10));
    accum.add_range(key(20)..key(30));
    accum.add_key(key(30));
    let space = accum.to_keyspace();
    assert_eq!(space.ranges, vec![key(1)..key(10), key(20)..key(31)]);
}

#[test]
fn empty_accumulator_gives_empty_keyspace() {
    assert!(KeySpaceAccum::new().to_keyspace().ranges.is_empty());
    assert!(KeyPartitioning::new().parts.is_empty());
}

#[test]
fn key_add_carries_into_higher_fields() {
    let k = Key { field1: 0, field2: 0, field3: 0, field4: 7, field5: 0xFF, field6: u32::MAX };
    let n = k.next();
    assert_eq!(n, Key { field1: 0, field2: 0, field3: 0, field4: 8, field5: 0, field6: 0 });
    assert_eq!(key(5).add(10), key(15));
    let r = singleton_range(key(8));
    assert_eq!(r, key(8)..key(9));
}

#[test]
fn metric_kind_names_round_trip() {
    for kind in [
        BillingMetricKind::WrittenSize,
        BillingMetricKind::SyntheticStorageSize,
        BillingMetricKind::PhysicalSize,
        BillingMetricKind::S3StorageSize,
    ] {
        assert_eq!(BillingMetricKind::parse(kind.as_str()), Ok(kind));
    }
    assert_eq!(BillingMetricKind::PhysicalSize.as_str(), "physical_size");
    assert_eq!(
        BillingMetricKind::parse("disk_size"),
        Err(UnknownMetricKind { name: "disk_size".to_string() })
    );
}

#[test]
fn absolute_metric_carries_its_values() {
    let m = BillingMetric::new_absolute(
        BillingMetricKind::WrittenSize,
        TenantId(3),
        Some(TimelineId(4)),
        12345,
    );
    assert_eq!(m.metric_type, "absolute");
    assert_eq!(m.value, 12345);
    assert_eq!(m.tenant_id, TenantId(3));
    assert_eq!(m.timeline_id, Some(TimelineId(4)));
    assert!(m.time.unwrap() > 0);
}

#[test]
fn timeline_files_are_classified() {
    assert_eq!(classify_timeline_file("metadata"), TimelineFileKind::Metadata);
    assert_eq!(classify_timeline_file("metadata.old"), TimelineFileKind::Layer);
    assert_eq!(classify_timeline_file("ephemeral-12"), TimelineFileKind::Ephemeral);
    assert_eq!(classify_timeline_file("ephemeral-+7"), TimelineFileKind::Ephemeral);
    assert_eq!(classify_timeline_file("ephemeral-4294967295"), TimelineFileKind::Ephemeral);
    assert_eq!(classify_timeline_file("ephemeral-4294967296"), TimelineFileKind::Layer);
    assert_eq!(classify_timeline_file("ephemeral-"), TimelineFileKind::Layer);
    assert_eq!(classify_timeline_file("ephemeral-1a"), TimelineFileKind::Layer);
    assert_eq!(classify_timeline_file("layer_1.temp_download"), TimelineFileKind::TempDownload);
    assert_eq!(classify_timeline_file(".temp_download"), TimelineFileKind::Layer);
    assert_eq!(
        classify_timeline_file("000000000000000000000000000000000000-00000000000000000000000000000000__0000000000000001-0000000000000002"),
        TimelineFileKind::Layer
    );
}

fn key4(field4: u32, field6: u32) -> Key {
    Key { field1: 0, field2: 0, field3: 0, field4, field5: 0, field6 }
}

#[test]
fn partition_cuts_large_ranges() {
    let space = KeySpace { ranges: vec![key(0)..key(100)] };
    let parts = space.partition(30 * BLCKSZ).parts;
    let ranges: Vec<_> = parts.iter().map(|p| p.ranges.clone()).collect();
    assert_eq!(
        ranges,
        vec![
            vec![key(0)..key(30)],
            vec![key(30)..key(60)],
            vec![key(60)..key(90)],
            vec![key(90)..key(100)],
        ]
    );
}

#[test]
fn partition_groups_small_ranges() {
    let space = KeySpace {
        ranges: vec![key4(0, 0)..key4(0, 10), key4(0, 20)..key4(0, 25), key4(0, 40)..key4(0, 60)],
    };
    let parts = space.partition(30 * BLCKSZ + 100).parts;
    assert_eq!(parts.len(), 2);
    assert_eq!(parts[0].ranges, vec![key4(0, 0)..key4(0, 10), key4(0, 20)..key4(0, 25)]);
    assert_eq!(parts[1].ranges, vec![key4(0, 40)..key4(0, 60)]);
    // Far from the start of the key space, the first range opens a part of
    // its own.
    let far_out = KeySpace { ranges: vec![key(0)..key(10), key(20)..key(25)] };
    assert_eq!(far_out.partition(30 * BLCKSZ).parts.len(), 2);
    assert!(KeySpace { ranges: vec![] }.partition(BLCKSZ).parts.is_empty());
}

#[test]
fn partition_splits_distant_ranges() {
    let near = KeySpace { ranges: vec![key4(0, 0)..key4(0, 5), key4(0x4000, 0)..key4(0x4000, 5)] };
    assert_eq!(near.partition(100 * BLCKSZ).parts.len(), 1);
    let far = KeySpace { ranges: vec![key4(0, 0)..key4(0, 5), key4(0x4001, 0)..key4(0x4001, 5)] };
    assert_eq!(far.partition(100 * BLCKSZ).parts.len(), 2);
}

#[test]
fn key_range_size_saturates() {
    assert_eq!(key_range_size(&(key(3)..key(10))), 7);
    assert_eq!(key_range_size(&(key4(0, 0)..key4(1, 0))), u32::MAX);
    let low = Key { field1: 0, field2: 0, field3: 0, field4: 0, field5: 0, field6: 0 };
    let high = Key { field5: 2, ..low };
    assert_eq!(key_range_size(&(low..high)), u32::MAX);
    assert_eq!(key4(0x4000, 0).to_i128() - key4(0, 0).to_i128(), 0x40_0000_0000_0000);
}

#[test]
fn ids_parse_only_in_canonical_form() {
    assert_eq!(parse_id_hex("5d07d9ce9237c4cd845ea7918c0afa7d"), Some(0x5d07d9ce9237c4cd845ea7918c0afa7d));
    assert_eq!(parse_id_hex("00000000000000000000000000000000"), Some(0));
    assert_eq!(parse_id_hex("ffffffffffffffffffffffffffffffff"), Some(u128::MAX));
    assert_eq!(parse_id_hex("5D07D9CE9237C4CD845EA7918C0AFA7D"), None);
    assert_eq!(parse_id_hex("+d07d9ce9237c4cd845ea7918c0afa7d"), None);
    assert_eq!(parse_id_hex("5d07d9ce9237c4cd845ea7918c0afa7"), None);
    assert_eq!(parse_id_hex(""), None);
}

#[test]
fn partition_stops_chunks_at_the_range_end() {
    let start = Key { field1: 0, field2: 0, field3: 0, field4: 0, field5: 0xFF, field6: 0xFFFF_FFF0 };
    let end = Key { field1: 0, field2: 0, field3: 0, field4: 1, field5: 0, field6: 0x10 };
    assert_eq!(key_range_size(&(start..end)), u32::MAX);
    let parts = KeySpace { ranges: vec![start..end] }.partition(10 * BLCKSZ).parts;
    let ranges: Vec<_> = parts.iter().map(|p| p.ranges.clone()).collect();
    assert_eq!(
        ranges,
        vec![
            vec![start..start.add(10)],
            vec![start.add(10)..start.add(20)],
            vec![start.add(20)..start.add(30)],
            vec![start.add(30)..end],
        ]
    );
}

#[test]
fn partition_handles_the_top_of_the_key_space() {
    let top = Key { field1: 0xFF, field2: u32::MAX, field3: u32::MAX, field4: u32::MAX, field5: 0xFF, field6: u32::MAX };
    assert!(top.checked_add(1).is_none());
    let below = Key { field6: u32::MAX - 100, ..top };
    let parts = KeySpace { ranges: vec![below..top] }.partition(30 * BLCKSZ).parts;
    assert_eq!(parts.len(), 4);
    assert_eq!(parts[3].ranges, vec![below.add(90)..top]);

    let start = Key { field4: u32::MAX - 1, field5: 0xFF, field6: u32::MAX - 5, ..top };
    let end = Key { field4: u32::MAX, field5: 0, field6: 5, ..top };
    let parts = KeySpace { ranges: vec![start..end] }.partition(4 * BLCKSZ).parts;
    let ranges: Vec<_> = parts.iter().map(|p| p.ranges.clone()).collect();
    assert_eq!(
        ranges,
        vec![vec![start..start.add(4)], vec![start.add(4)..start.add(8)], vec![start.add(8)..end]]
    );
}
