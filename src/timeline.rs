//! Identifiers of tenants and timelines, and timeline metadata.

use vstd::prelude::*;
use vstd::string::StringSliceAdditionalSpecFns;

verus! {

/// A tenant: a 128-bit identifier.
#[derive(Clone, Copy, Debug, PartialEq, Eq, Hash, Structural)]
pub struct TenantId(pub u128);

/// A timeline of a tenant: a 128-bit identifier.
#[derive(Clone, Copy, Debug, PartialEq, Eq, Hash, Structural)]
pub struct TimelineId(pub u128);

/// The timeline that a sync task is for: the tenant and the timeline.
#[derive(Clone, Copy, Debug, PartialEq, Eq, Hash, Structural)]
pub struct SyncId {
    pub tenant_id: TenantId,
    pub timeline_id: TimelineId,
}

/// What the page server keeps of a timeline next to its layers. The sync
/// logic reads only `disk_consistent_lsn`: a higher value supersedes a
/// lower one.
#[derive(Clone, Copy, Debug, PartialEq, Eq, Structural)]
pub struct TimelineMetadata {
    pub disk_consistent_lsn: u64,
    pub prev_record_lsn: Option<u64>,
    pub ancestor_timeline: Option<TimelineId>,
    pub ancestor_lsn: u64,
    pub latest_gc_cutoff_lsn: u64,
    pub initdb_lsn: u64,
}

impl TimelineMetadata {
    /// Metadata with the given log sequence numbers.
    pub fn new(
        disk_consistent_lsn: u64,
        prev_record_lsn: Option<u64>,
        ancestor_timeline: Option<TimelineId>,
        ancestor_lsn: u64,
        latest_gc_cutoff_lsn: u64,
        initdb_lsn: u64,
    ) -> (r: TimelineMetadata)
        ensures
            r.disk_consistent_lsn == disk_consistent_lsn,
            r.prev_record_lsn == prev_record_lsn,
            r.ancestor_timeline == ancestor_timeline,
            r.ancestor_lsn == ancestor_lsn,
            r.latest_gc_cutoff_lsn == latest_gc_cutoff_lsn,
            r.initdb_lsn == initdb_lsn,
    {
        TimelineMetadata {
            disk_consistent_lsn,
            prev_record_lsn,
            ancestor_timeline,
            ancestor_lsn,
            latest_gc_cutoff_lsn,
            initdb_lsn,
        }
    }

    /// The log sequence number up to which the timeline is on disk.
    pub fn disk_consistent_lsn(&self) -> (r: u64)
        ensures
            r == self.disk_consistent_lsn,
    {
        self.disk_consistent_lsn
    }
}

/// Whether `b` is a digit of the canonical hexadecimal form: `0`-`9` or
/// `a`-`f`.
pub open spec fn is_lower_hex_digit(b: u8) -> bool {
    (48 <= b <= 57) || (97 <= b <= 102)
}

/// The value of a digit of the canonical hexadecimal form.
pub open spec fn hex_digit_value(b: u8) -> int {
    if b <= 57 {
        b - 48
    } else {
        b - 87
    }
}

/// The number that the hexadecimal digits `d` spell.
pub open spec fn hex_value(d: Seq<u8>) -> int
    decreases d.len(),
{
    if d.len() == 0 {
        0
    } else {
        hex_value(d.drop_last()) * 16 + hex_digit_value(d.last())
    }
}

/// Whether `text` is the canonical form of an identifier: 32 digits of
/// lowercase hexadecimal.
pub open spec fn is_canonical_id(text: Seq<u8>) -> bool {
    text.len() == 32 && forall|i: int| 0 <= i < 32 ==> is_lower_hex_digit(#[trigger] text[i])
}

pub open spec fn pow16(n: nat) -> int
    decreases n,
{
    if n == 0 {
        1
    } else {
        16 * pow16((n - 1) as nat)
    }
}

proof fn lemma_hex_value_bound(d: Seq<u8>)
    requires
        forall|i: int| 0 <= i < d.len() ==> is_lower_hex_digit(#[trigger] d[i]),
    ensures
        0 <= hex_value(d) < pow16(d.len()),
    decreases d.len(),
{
    if d.len() > 0 {
        lemma_hex_value_bound(d.drop_last());
        assert(is_lower_hex_digit(d[d.len() - 1]));
    }
}

/// The identifier that `text` gives in its canonical form; nothing where
/// `text` is not in that form.
pub fn parse_id_hex(text: &str) -> (r: Option<u128>)
    ensures
        is_canonical_id(text.spec_bytes()) ==> r == Some(hex_value(text.spec_bytes()) as u128),
        !is_canonical_id(text.spec_bytes()) ==> r is None,
{
    let bytes = text.as_bytes();
    if bytes.len() != 32 {
        return None;
    }
    let mut value: u128 = 0;
    let mut i: usize = 0;
    while i < 32
        invariant
            bytes@ == text.spec_bytes(),
            bytes@.len() == 32,
            0 <= i <= 32,
            forall|j: int| 0 <= j < i ==> is_lower_hex_digit(#[trigger] bytes@[j]),
            value == hex_value(bytes@.take(i as int)),
        decreases 32 - i,
    {
        let b = bytes[i];
        let digit: u128 = if 48 <= b && b <= 57 {
            (b - 48) as u128
        } else if 97 <= b && b <= 102 {
            (b - 87) as u128
        } else {
            return None;
        };
        proof {
            assert(bytes@.take(i + 1).drop_last() =~= bytes@.take(i as int));
            assert(bytes@.take(i + 1).last() == b);
            lemma_hex_value_bound(bytes@.take(i as int));
            reveal_with_fuel(pow16, 33);
            assert(pow16(31) == 0x1000_0000_0000_0000_0000_0000_0000_0000);
            if i < 31 {
                lemma_pow16_monotone(i as nat, 31);
            }
        }
        value = value * 16 + digit;
        i = i + 1;
    }
    proof {
        assert(bytes@.take(32) =~= bytes@);
    }
    Some(value)
}

proof fn lemma_pow16_monotone(a: nat, b: nat)
    requires
        a <= b,
    ensures
        1 <= pow16(a) <= pow16(b),
    decreases b,
{
    if b > 0 {
        if a < b {
            lemma_pow16_monotone(a, (b - 1) as nat);
        } else {
            lemma_pow16_monotone((a - 1) as nat, (b - 1) as nat);
        }
    }
}

/// Whether optional metadata `a` is not newer than `b`: no metadata comes
/// before any metadata, and metadata is ordered by its
/// `disk_consistent_lsn`.
pub open spec fn lsn_not_newer(a: Option<TimelineMetadata>, b: Option<TimelineMetadata>) -> bool {
    match (a, b) {
        (None, _) => true,
        (Some(_), None) => false,
        (Some(x), Some(y)) => x.disk_consistent_lsn <= y.disk_consistent_lsn,
    }
}

/// Decides `lsn_not_newer(a, b)`.
pub fn metadata_not_newer(a: &Option<TimelineMetadata>, b: &Option<TimelineMetadata>) -> (r: bool)
    ensures
        r == lsn_not_newer(*a, *b),
{
    match (a, b) {
        (None, _) => true,
        (Some(_), None) => false,
        (Some(x), Some(y)) => x.disk_consistent_lsn <= y.disk_consistent_lsn,
    }
}

} // verus!
