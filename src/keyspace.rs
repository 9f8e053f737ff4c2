//! Keys of the page server's key space, and the accumulator that joins keys
//! and key ranges into a key space.

use vstd::prelude::*;

use std::ops::Range;

verus! {

/// A key of the page server's key space. Keys are ordered field by field,
/// which is the order of `key_int`.
#[derive(Clone, Copy, Debug, PartialEq, Eq, Hash, Structural)]
pub struct Key {
    pub field1: u8,
    pub field2: u32,
    pub field3: u32,
    pub field4: u32,
    pub field5: u8,
    pub field6: u32,
}

/// The position of a key in the key space: its fields read as one number.
pub open spec fn key_int(k: Key) -> int {
    ((((k.field1 as int * 0x1_0000_0000 + k.field2 as int) * 0x1_0000_0000 + k.field3 as int)
        * 0x1_0000_0000 + k.field4 as int) * 0x100 + k.field5 as int) * 0x1_0000_0000
        + k.field6 as int
}

/// Number of positions in the key space.
pub open spec fn key_space_size() -> int {
    (((((0x100 * 0x1_0000_0000) * 0x1_0000_0000) * 0x1_0000_0000) * 0x100) * 0x1_0000_0000) as int
}

/// Whether `a` comes before `b`, field by field.
pub open spec fn key_fields_lt(a: Key, b: Key) -> bool {
    ||| a.field1 < b.field1
    ||| a.field1 == b.field1 && a.field2 < b.field2
    ||| a.field1 == b.field1 && a.field2 == b.field2 && a.field3 < b.field3
    ||| a.field1 == b.field1 && a.field2 == b.field2 && a.field3 == b.field3 && a.field4
        < b.field4
    ||| a.field1 == b.field1 && a.field2 == b.field2 && a.field3 == b.field3 && a.field4
        == b.field4 && a.field5 < b.field5
    ||| a.field1 == b.field1 && a.field2 == b.field2 && a.field3 == b.field3 && a.field4
        == b.field4 && a.field5 == b.field5 && a.field6 < b.field6
}

/// Field order and position order agree, and distinct keys have distinct
/// positions.
pub proof fn lemma_key_order(a: Key, b: Key)
    ensures
        0 <= key_int(a) < key_space_size(),
        key_fields_lt(a, b) ==> key_int(a) < key_int(b),
        a != b ==> key_int(a) != key_int(b),
        key_int(a) == key_int(b) ==> a == b,
{
    if a != b {
        assert(key_fields_lt(a, b) || key_fields_lt(b, a));
    }
}

impl Key {
    /// The key `x` positions after this one, if the key space reaches that
    /// far.
    pub fn checked_add(&self, x: u32) -> (r: Option<Key>)
        ensures
            match r {
                Some(k) => key_int(k) == key_int(*self) + x,
                None => key_int(*self) + x >= key_space_size(),
            },
    {
        let s6: u64 = self.field6 as u64 + x as u64;
        let (field6, c6) = if s6 > 0xFFFF_FFFF {
            ((s6 - 0x1_0000_0000) as u32, 1u64)
        } else {
            (s6 as u32, 0u64)
        };
        let s5: u64 = self.field5 as u64 + c6;
        let (field5, c5) = if s5 > 0xFF {
            ((s5 - 0x100) as u8, 1u64)
        } else {
            (s5 as u8, 0u64)
        };
        let s4: u64 = self.field4 as u64 + c5;
        let (field4, c4) = if s4 > 0xFFFF_FFFF {
            ((s4 - 0x1_0000_0000) as u32, 1u64)
        } else {
            (s4 as u32, 0u64)
        };
        let s3: u64 = self.field3 as u64 + c4;
        let (field3, c3) = if s3 > 0xFFFF_FFFF {
            ((s3 - 0x1_0000_0000) as u32, 1u64)
        } else {
            (s3 as u32, 0u64)
        };
        let s2: u64 = self.field2 as u64 + c3;
        let (field2, c2) = if s2 > 0xFFFF_FFFF {
            ((s2 - 0x1_0000_0000) as u32, 1u64)
        } else {
            (s2 as u32, 0u64)
        };
        let s1: u64 = self.field1 as u64 + c2;
        if s1 > 0xFF {
            return None;
        }
        Some(Key { field1: s1 as u8, field2, field3, field4, field5, field6 })
    }

    /// The key `x` positions after this one.
    pub fn add(&self, x: u32) -> (r: Key)
        requires
            key_int(*self) + x < key_space_size(),
        ensures
            key_int(r) == key_int(*self) + x,
    {
        match self.checked_add(x) {
            Some(k) => k,
            None => *self,
        }
    }

    /// Whether this key comes before `other`.
    pub fn precedes(&self, other: &Key) -> (r: bool)
        ensures
            r == (key_int(*self) < key_int(*other)),
    {
        proof {
            lemma_key_order(*self, *other);
            lemma_key_order(*other, *self);
        }
        let a = self;
        let b = other;
        a.field1 < b.field1 || (a.field1 == b.field1 && (a.field2 < b.field2 || (a.field2
            == b.field2 && (a.field3 < b.field3 || (a.field3 == b.field3 && (a.field4 < b.field4
            || (a.field4 == b.field4 && (a.field5 < b.field5 || (a.field5 == b.field5
            && a.field6 < b.field6)))))))))
    }

    /// The key right after this one.
    pub fn next(&self) -> (r: Key)
        requires
            key_int(*self) + 1 < key_space_size(),
        ensures
            key_int(r) == key_int(*self) + 1,
    {
        self.add(1)
    }
}

/// The range that holds `key` alone.
pub fn singleton_range(key: Key) -> (r: Range<Key>)
    requires
        key_int(key) + 1 < key_space_size(),
    ensures
        r.start == key,
        key_int(r.end) == key_int(key) + 1,
{
    key..key.next()
}

/// The position of a key in the packed form that fits 128 bits: the first
/// field keeps its low 4 bits and the second its low 16 bits.
pub open spec fn packed_int(k: Key) -> int {
    (k.field1 % 16) as int * 0x100_0000_0000_0000_0000_0000_0000_0000 + (k.field2 % 0x1_0000) as int
        * 0x100_0000_0000_0000_0000_0000_0000 + k.field3 as int * 0x100_0000_0000_0000_0000
        + k.field4 as int * 0x100_0000_0000 + k.field5 as int * 0x1_0000_0000 + k.field6 as int
}

/// The last two fields of a key read as one number.
pub open spec fn key_low(k: Key) -> int {
    k.field5 as int * 0x1_0000_0000 + k.field6 as int
}

/// Whether two keys agree on their first four fields.
pub open spec fn same_high_fields(a: Key, b: Key) -> bool {
    a.field1 == b.field1 && a.field2 == b.field2 && a.field3 == b.field3 && a.field4 == b.field4
}

/// Number of keys in a range whose ends agree on their first four fields,
/// at most `u32::MAX`; `u32::MAX` for any other range.
pub open spec fn range_size(r: Range<Key>) -> int {
    if same_high_fields(r.start, r.end) {
        if key_low(r.end) - key_low(r.start) > u32::MAX {
            u32::MAX as int
        } else {
            key_low(r.end) - key_low(r.start)
        }
    } else {
        u32::MAX as int
    }
}

/// Whether `key_range_size` is defined on the range: where its ends agree
/// on their first four fields, it does not end before it starts.
pub open spec fn range_size_defined(r: Range<Key>) -> bool {
    same_high_fields(r.start, r.end) ==> key_low(r.start) <= key_low(r.end)
}

impl Key {
    /// The packed position of the key.
    pub fn to_i128(&self) -> (r: i128)
        ensures
            r == packed_int(*self),
    {
        ((self.field1 % 16) as i128) * 0x100_0000_0000_0000_0000_0000_0000_0000
            + ((self.field2 % 0x1_0000) as i128) * 0x100_0000_0000_0000_0000_0000_0000
            + (self.field3 as i128) * 0x100_0000_0000_0000_0000
            + (self.field4 as i128) * 0x100_0000_0000
            + (self.field5 as i128) * 0x1_0000_0000
            + self.field6 as i128
    }
}

/// Computes `range_size`.
pub fn key_range_size(key_range: &Range<Key>) -> (r: u32)
    requires
        range_size_defined(*key_range),
    ensures
        r == range_size(*key_range),
{
    let start = key_range.start;
    let end = key_range.end;
    if end.field1 != start.field1 || end.field2 != start.field2 || end.field3 != start.field3
        || end.field4 != start.field4 {
        return u32::MAX;
    }
    let start_low: u64 = (start.field5 as u64) * 0x1_0000_0000 + start.field6 as u64;
    let end_low: u64 = (end.field5 as u64) * 0x1_0000_0000 + end.field6 as u64;
    let diff = end_low - start_low;
    if diff > u32::MAX as u64 {
        u32::MAX
    } else {
        diff as u32
    }
}

/// A range of keys as a pair of positions.
pub open spec fn range_view(r: Range<Key>) -> (int, int) {
    (key_int(r.start), key_int(r.end))
}

/// Ranges of keys as pairs of positions.
pub open spec fn ranges_view(s: Seq<Range<Key>>) -> Seq<(int, int)> {
    s.map_values(|r: Range<Key>| range_view(r))
}

/// A set of keys as contiguous ranges, in key order and without overlap.
pub struct KeySpace {
    pub ranges: Vec<Range<Key>>,
}

/// A partitioning of the key space.
pub struct KeyPartitioning {
    pub parts: Vec<KeySpace>,
}

/// Size of a page in bytes: each key holds one page.
pub const BLCKSZ: u64 = 8192;

/// Widest distance, in packed positions, between the start of a part and
/// the start of a later range of the same part. It keeps the system and
/// the user relations apart.
pub const MAX_LAYER_KEY_RANGE: i128 = 0x40_0000_0000_0000;

/// The pieces of a range from `start` to `end` counted as `size` keys:
/// chunks of `t` keys while more than `t` are counted and a chunk ends
/// before `end`, then the rest up to `end`.
pub open spec fn chunks(start: int, end: int, size: int, t: int) -> Seq<(int, int)>
    decreases size,
{
    if size > t && t > 0 && start + t < end {
        seq![(start, start + t)] + chunks(start + t, end, size - t, t)
    } else {
        seq![(start, end)]
    }
}

/// The pieces of each of `ranges`, in order.
pub open spec fn split_ranges(ranges: Seq<Range<Key>>, t: int) -> Seq<(int, int)>
    decreases ranges.len(),
{
    if ranges.len() == 0 {
        Seq::empty()
    } else {
        let r = ranges.last();
        split_ranges(ranges.drop_last(), t) + chunks(key_int(r.start), key_int(r.end), range_size(r), t)
    }
}

/// The ranges of the parts `parts`, one part after the other.
pub open spec fn parts_ranges(parts: Seq<KeySpace>) -> Seq<(int, int)>
    decreases parts.len(),
{
    if parts.len() == 0 {
        Seq::empty()
    } else {
        parts_ranges(parts.drop_last()) + ranges_view(parts.last().ranges@)
    }
}

proof fn lemma_ranges_view_push(s: Seq<Range<Key>>, r: Range<Key>)
    ensures
        ranges_view(s.push(r)) == ranges_view(s).push(range_view(r)),
{
    assert(ranges_view(s.push(r)) =~= ranges_view(s).push(range_view(r)));
}

/// Adds to `parts`, each as a part of its own, the chunks of `t` keys cut
/// from the front of the range from `start` to `end` counted as `size` keys,
/// while more than `t` keys are counted and a chunk ends before `end`.
/// Returns where the rest starts and its count.
fn cut_full_chunks(parts: &mut Vec<KeySpace>, start: Key, end: Key, size: u64, t: u64) -> (r: (
    Key,
    u64,
))
    requires
        1 <= t,
        size <= u32::MAX,
        forall|j: int| 0 <= j < old(parts)@.len() ==> (#[trigger] old(parts)@[j]).ranges@.len() > 0,
    ensures
        parts_ranges(final(parts)@) + chunks(key_int(r.0), key_int(end), r.1 as int, t as int)
            == parts_ranges(old(parts)@) + chunks(key_int(start), key_int(end), size as int, t as int),
        key_int(r.0) + r.1 == key_int(start) + size,
        r.1 <= size,
        key_int(start) + size == key_int(end) ==> r.1 <= t,
        size <= t ==> final(parts)@ == old(parts)@ && r == (start, size),
        r.1 > t ==> key_int(r.0) + t >= key_int(end),
        forall|j: int| 0 <= j < final(parts)@.len() ==> (#[trigger] final(parts)@[j]).ranges@.len() > 0,
        final(parts)@.len() >= old(parts)@.len(),
        forall|j: int| 0 <= j < old(parts)@.len() ==> #[trigger] final(parts)@[j] == old(parts)@[j],
        forall|j: int|
            old(parts)@.len() <= j < final(parts)@.len() ==> ranges_len(
                (#[trigger] final(parts)@[j]).ranges@,
            ) == t,
{
    let ghost t0 = t as int;
    let mut remain_size: u64 = size;
    let mut next_start: Key = start;
    loop
        invariant
            1 <= t,
            t0 == t,
            remain_size <= size,
            size <= u32::MAX,
            key_int(next_start) + remain_size == key_int(start) + size,
            parts_ranges(parts@) + chunks(key_int(next_start), key_int(end), remain_size as int, t0)
                == parts_ranges(old(parts)@) + chunks(key_int(start), key_int(end), size as int, t0),
            size <= t ==> parts@ == old(parts)@ && next_start == start && remain_size == size,
            forall|j: int| 0 <= j < parts@.len() ==> (#[trigger] parts@[j]).ranges@.len() > 0,
            parts@.len() >= old(parts)@.len(),
            forall|j: int| 0 <= j < old(parts)@.len() ==> #[trigger] parts@[j] == old(parts)@[j],
            forall|j: int|
                old(parts)@.len() <= j < parts@.len() ==> ranges_len((#[trigger] parts@[j]).ranges@)
                    == t,
        ensures
            parts_ranges(parts@) + chunks(key_int(next_start), key_int(end), remain_size as int, t0)
                == parts_ranges(old(parts)@) + chunks(key_int(start), key_int(end), size as int, t0),
            key_int(next_start) + remain_size == key_int(start) + size,
            remain_size <= size,
            remain_size > t ==> key_int(next_start) + t >= key_int(end),
            size <= t ==> parts@ == old(parts)@ && next_start == start && remain_size == size,
            forall|j: int| 0 <= j < parts@.len() ==> (#[trigger] parts@[j]).ranges@.len() > 0,
            parts@.len() >= old(parts)@.len(),
            forall|j: int| 0 <= j < old(parts)@.len() ==> #[trigger] parts@[j] == old(parts)@[j],
            forall|j: int|
                old(parts)@.len() <= j < parts@.len() ==> ranges_len((#[trigger] parts@[j]).ranges@)
                    == t,
        decreases remain_size,
    {
        if remain_size <= t {
            break;
        }
        let next = match next_start.checked_add(t as u32) {
            Some(next) => next,
            None => {
                proof {
                    lemma_key_order(end, end);
                }
                break;
            },
        };
        if !next.precedes(&end) {
            break;
        }
        let ghost before = parts@;
        let piece = KeySpace { ranges: vec![next_start..next] };
        proof {
            assert(piece.ranges@ =~= seq![next_start..next]);
            assert(ranges_view(piece.ranges@) =~= seq![(key_int(next_start), key_int(next))]);
            assert(piece.ranges@.drop_last() =~= Seq::<Range<Key>>::empty());
            assert(ranges_len(piece.ranges@.drop_last()) == 0);
            assert(piece.ranges@.last() == (next_start..next));
            assert(ranges_len(piece.ranges@) == t0);
        }
        parts.push(piece);
        proof {
            assert(parts@.drop_last() =~= before);
            assert(chunks(key_int(next_start), key_int(end), remain_size as int, t0) == seq![
                (key_int(next_start), key_int(next_start) + t0),
            ] + chunks(key_int(next_start) + t0, key_int(end), remain_size - t0, t0));
            assert(parts_ranges(parts@) + chunks(key_int(next), key_int(end), remain_size - t0, t0)
                =~= parts_ranges(before) + chunks(
                key_int(next_start),
                key_int(end),
                remain_size as int,
                t0,
            ));
        }
        next_start = next;
        remain_size = remain_size - t;
    }
    (next_start, remain_size)
}

/// Number of keys of the ranges `s`, counted by their positions.
pub open spec fn ranges_len(s: Seq<Range<Key>>) -> int
    decreases s.len(),
{
    if s.len() == 0 {
        0
    } else {
        ranges_len(s.drop_last()) + key_int(s.last().end) - key_int(s.last().start)
    }
}

/// Whether `range_size` counts the keys of the range exactly.
pub open spec fn size_is_exact(r: Range<Key>) -> bool {
    key_int(r.start) + range_size(r) == key_int(r.end)
}

/// The pieces of a range cover it: they follow one another from its start
/// to its end, each holding at least one key.
pub proof fn lemma_chunks_cover(start: int, end: int, size: int, t: int)
    requires
        start < end,
        t > 0,
    ensures
        ({
            let c = chunks(start, end, size, t);
            &&& c.len() >= 1
            &&& c[0].0 == start
            &&& c.last().1 == end
            &&& forall|i: int| 0 <= i < c.len() ==> (#[trigger] c[i]).0 < c[i].1
            &&& forall|i: int| 0 <= i < c.len() - 1 ==> (#[trigger] c[i]).1 == c[i + 1].0
        }),
    decreases size,
{
    let c = chunks(start, end, size, t);
    if size > t && start + t < end {
        lemma_chunks_cover(start + t, end, size - t, t);
        let rest = chunks(start + t, end, size - t, t);
        assert(c == seq![(start, start + t)] + rest);
        assert forall|i: int| 0 <= i < c.len() - 1 implies (#[trigger] c[i]).1 == c[i + 1].0 by {
            if i > 0 {
                assert(c[i] == rest[i - 1]);
                assert(c[i + 1] == rest[i]);
            }
        }
        assert forall|i: int| 0 <= i < c.len() implies (#[trigger] c[i]).0 < c[i].1 by {
            if i > 0 {
                assert(c[i] == rest[i - 1]);
            }
        }
    }
}

impl KeySpace {
    /// Cuts the key space into parts of about `target_size` bytes, at one
    /// page per key. A range larger than that is cut into chunks of that
    /// size, each a part of its own. A new part is started where adding the
    /// next range would make the current part too large, or where the next
    /// range starts too far, by `MAX_LAYER_KEY_RANGE`, from the start of the
    /// current part.
    pub fn partition(&self, target_size: u64) -> (r: KeyPartitioning)
        requires
            target_size >= BLCKSZ,
            forall|i: int|
                0 <= i < self.ranges@.len() ==> range_size_defined(#[trigger] self.ranges@[i]),
        ensures
            parts_ranges(r.parts@) == split_ranges(self.ranges@, (target_size / BLCKSZ) as int),
            forall|i: int| 0 <= i < r.parts@.len() ==> (#[trigger] r.parts@[i]).ranges@.len() > 0,
            (forall|i: int| 0 <= i < self.ranges@.len() ==> size_is_exact(#[trigger] self.ranges@[i]))
                ==> forall|i: int|
                0 <= i < r.parts@.len() ==> ranges_len((#[trigger] r.parts@[i]).ranges@) <= (
                target_size / BLCKSZ) as int,
    {
        let target_nblocks: u64 = target_size / BLCKSZ;
        let ghost t = target_nblocks as int;
        let ghost exact = forall|j: int|
            0 <= j < self.ranges@.len() ==> size_is_exact(#[trigger] self.ranges@[j]);
        let mut parts: Vec<KeySpace> = Vec::new();
        let mut current_part: Vec<Range<Key>> = Vec::new();
        let mut current_part_size: u64 = 0;
        let mut current_part_start: i128 = 0;
        let mut i: usize = 0;
        proof {
            assert(self.ranges@.take(0) =~= Seq::<Range<Key>>::empty());
            assert(ranges_view(current_part@) =~= Seq::<(int, int)>::empty());
        }
        while i < self.ranges.len()
            invariant
                0 <= i <= self.ranges@.len(),
                t == target_nblocks,
                1 <= target_nblocks <= u64::MAX / BLCKSZ,
                forall|j: int|
                    0 <= j < self.ranges@.len() ==> range_size_defined(#[trigger] self.ranges@[j]),
                exact == forall|j: int|
                    0 <= j < self.ranges@.len() ==> size_is_exact(#[trigger] self.ranges@[j]),
                exact ==> current_part_size == ranges_len(current_part@),
                forall|j: int| 0 <= j < parts@.len() ==> exact ==> ranges_len(
                    (#[trigger] parts@[j]).ranges@,
                ) <= t,
                parts_ranges(parts@) + ranges_view(current_part@) == split_ranges(
                    self.ranges@.take(i as int),
                    t,
                ),
                forall|j: int| 0 <= j < parts@.len() ==> (#[trigger] parts@[j]).ranges@.len() > 0,
                current_part_size <= target_nblocks + u32::MAX,
                exact ==> current_part_size <= target_nblocks,
                current_part@.len() == 0 ==> current_part_size == 0,
                0 <= current_part_start < 0x1_0000_0000_0000_0000_0000_0000_0000_0000,
            decreases self.ranges@.len() - i,
        {
            let range = &self.ranges[i];
            let this_size = key_range_size(range) as u64;
            let this_start = range.start.to_i128();
            proof {
                assert(self.ranges@.take(i + 1).drop_last() =~= self.ranges@.take(i as int));
                assert(self.ranges@.take(i + 1).last() == *range);
            }
            if (current_part_size + this_size > target_nblocks || this_start - current_part_start
                > MAX_LAYER_KEY_RANGE) && current_part.len() > 0 {
                let ghost before = parts@;
                let finished = KeySpace { ranges: current_part };
                parts.push(finished);
                proof {
                    assert(parts@.drop_last() =~= before);
                    assert(parts_ranges(parts@) == parts_ranges(before) + ranges_view(
                        finished.ranges@,
                    ));
                }
                current_part = Vec::new();
                current_part_size = 0;
                current_part_start = this_start;
                proof {
                    assert(ranges_view(current_part@) =~= Seq::<(int, int)>::empty());
                    assert(parts_ranges(parts@) + ranges_view(current_part@) =~= parts_ranges(
                        parts@,
                    ));
                }
            }
            proof {
                if current_part@.len() > 0 {
                    assert(current_part_size + this_size <= target_nblocks);
                }
            }
            let ghost parts_before = parts@;
            let (start, remain_size) = cut_full_chunks(
                &mut parts,
                range.start,
                range.end,
                this_size,
                target_nblocks,
            );
            proof {
                if current_part@.len() > 0 {
                    assert(parts@ == parts_before);
                } else {
                    assert(ranges_view(current_part@) =~= Seq::<(int, int)>::empty());
                    assert(parts_ranges(parts_before) + ranges_view(current_part@) =~= parts_ranges(
                        parts_before,
                    ));
                    assert(parts_ranges(parts@) + ranges_view(current_part@) =~= parts_ranges(
                        parts@,
                    ));
                }
                assert(parts_ranges(parts@) + ranges_view(current_part@) + chunks(
                    key_int(start),
                    key_int(range.end),
                    remain_size as int,
                    t,
                ) == split_ranges(self.ranges@.take(i + 1), t));
            }
            let ghost before_part = current_part@;
            current_part.push(start..range.end);
            proof {
                lemma_ranges_view_push(before_part, start..range.end);
                assert(current_part@.drop_last() =~= before_part);
                assert(ranges_len(current_part@) == ranges_len(before_part) + key_int(range.end)
                    - key_int(start));
                if exact {
                    assert(size_is_exact(self.ranges@[i as int]));
                    assert(key_int(start) + remain_size == key_int(range.end));
                }
                assert(chunks(key_int(start), key_int(range.end), remain_size as int, t) == seq![
                    (key_int(start), key_int(range.end)),
                ]);
                assert(parts_ranges(parts@) + ranges_view(current_part@) =~= parts_ranges(parts@)
                    + ranges_view(before_part) + chunks(
                    key_int(start),
                    key_int(range.end),
                    remain_size as int,
                    t,
                ));
            }
            current_part_size = current_part_size + remain_size;
            i = i + 1;
        }
        proof {
            assert(self.ranges@.take(i as int) =~= self.ranges@);
        }
        if current_part.len() > 0 {
            let ghost before = parts@;
            let last = KeySpace { ranges: current_part };
            parts.push(last);
            proof {
                assert(parts@.drop_last() =~= before);
            }
        } else {
            proof {
                assert(ranges_view(current_part@) =~= Seq::<(int, int)>::empty());
                assert(parts_ranges(parts@) + ranges_view(current_part@) =~= parts_ranges(parts@));
            }
        }
        KeyPartitioning { parts }
    }
}

impl KeyPartitioning {
    /// A partitioning with no part.
    pub fn new() -> (r: KeyPartitioning)
        ensures
            r.parts@.len() == 0,
    {
        KeyPartitioning { parts: Vec::new() }
    }
}

/// Collects keys and ranges of keys, added in key order, into a
/// `KeySpace`, joining those that touch into one range.
pub struct KeySpaceAccum {
    accum: Option<Range<Key>>,
    ranges: Vec<Range<Key>>,
}

impl KeySpaceAccum {
    /// The ranges collected so far, as positions.
    pub closed spec fn collected(&self) -> Seq<(int, int)> {
        match self.accum {
            Some(a) => ranges_view(self.ranges@).push(range_view(a)),
            None => ranges_view(self.ranges@),
        }
    }

    #[verifier::type_invariant]
    closed spec fn open_range_is_last(&self) -> bool {
        self.accum is None ==> self.ranges@.len() == 0
    }

    /// An accumulator with no key.
    pub fn new() -> (r: KeySpaceAccum)
        ensures
            r.collected() == Seq::<(int, int)>::empty(),
    {
        let r = KeySpaceAccum { accum: None, ranges: Vec::new() };
        proof {
            assert(ranges_view(r.ranges@) =~= Seq::<(int, int)>::empty());
        }
        r
    }

    /// Adds `key`; it must not come before the keys added so far.
    pub fn add_key(&mut self, key: Key)
        requires
            key_int(key) + 1 < key_space_size(),
            old(self).collected().len() > 0 ==> old(self).collected().last().1 <= key_int(key),
        ensures
            old(self).collected().len() > 0 && old(self).collected().last().1 == key_int(key)
                ==> final(self).collected() == old(self).collected().drop_last().push(
                (old(self).collected().last().0, key_int(key) + 1),
            ),
            !(old(self).collected().len() > 0 && old(self).collected().last().1 == key_int(key))
                ==> final(self).collected() == old(self).collected().push(
                (key_int(key), key_int(key) + 1),
            ),
    {
        self.add_range(singleton_range(key))
    }

    /// Adds `range`; it must not start before the end of the ranges added so
    /// far. A range that starts where the last one ends extends it.
    pub fn add_range(&mut self, range: Range<Key>)
        requires
            old(self).collected().len() > 0 ==> old(self).collected().last().1 <= key_int(
                range.start,
            ),
        ensures
            old(self).collected().len() > 0 && old(self).collected().last().1 == key_int(
                range.start,
            ) ==> final(self).collected() == old(self).collected().drop_last().push(
                (old(self).collected().last().0, key_int(range.end)),
            ),
            !(old(self).collected().len() > 0 && old(self).collected().last().1 == key_int(
                range.start,
            )) ==> final(self).collected() == old(self).collected().push(range_view(range)),
    {
        let ghost c = self.collected();
        let ghost rv = ranges_view(self.ranges@);
        proof {
            use_type_invariant(&*self);
        }
        match &self.accum {
            Some(accum) => {
                let accum_start = accum.start;
                let accum_end = accum.end;
                proof {
                    lemma_key_order(range.start, accum_end);
                }
                if range.start == accum_end {
                    self.accum = Some(accum_start..range.end);
                    proof {
                        assert(self.collected() =~= c.drop_last().push(
                            (c.last().0, key_int(range.end)),
                        ));
                    }
                } else {
                    let mut ranges = Vec::new();
                    std::mem::swap(&mut ranges, &mut self.ranges);
                    ranges.push(accum_start..accum_end);
                    self.ranges = ranges;
                    self.accum = Some(range);
                    proof {
                        assert(ranges_view(self.ranges@) =~= rv.push(
                            (key_int(accum_start), key_int(accum_end)),
                        ));
                        assert(self.collected() =~= c.push(range_view(range)));
                    }
                }
            },
            None => {
                self.accum = Some(range);
                proof {
                    assert(self.collected() =~= c.push(range_view(range)));
                }
            },
        }
    }

    /// The key space of the collected ranges.
    pub fn to_keyspace(self) -> (r: KeySpace)
        ensures
            ranges_view(r.ranges@) == self.collected(),
    {
        proof {
            use_type_invariant(&self);
        }
        let ghost c = self.collected();
        let KeySpaceAccum { accum, ranges } = self;
        let mut ranges = ranges;
        let ghost rv = ranges_view(ranges@);
        if let Some(a) = accum {
            ranges.push(a);
            proof {
                assert(ranges_view(ranges@) =~= rv.push(range_view(a)));
            }
        }
        KeySpace { ranges }
    }
}

} // verus!
