//! How the startup scan treats the files of a timeline directory.

use vstd::prelude::*;
use vstd::string::StringSliceAdditionalSpecFns;

verus! {

/// How the startup scan treats a file of a timeline directory.
#[derive(Clone, Copy, Debug, PartialEq, Eq, Structural)]
pub enum TimelineFileKind {
    /// The timeline's metadata file.
    Metadata,
    /// A scratch file of the page server, left alone.
    Ephemeral,
    /// A layer whose download did not finish: it is removed.
    TempDownload,
    /// A layer of the timeline.
    Layer,
}

/// Name of the metadata file of a timeline.
pub open spec fn metadata_name() -> Seq<u8> {
    seq![109u8, 101, 116, 97, 100, 97, 116, 97]
}

/// Prefix of the names of ephemeral files.
pub open spec fn ephemeral_prefix() -> Seq<u8> {
    seq![101u8, 112, 104, 101, 109, 101, 114, 97, 108, 45]
}

/// Suffix of the names of layers being downloaded: a dot and the
/// extension `temp_download`.
pub open spec fn temp_download_suffix() -> Seq<u8> {
    seq![46u8, 116, 101, 109, 112, 95, 100, 111, 119, 110, 108, 111, 97, 100]
}

pub open spec fn is_digit(b: u8) -> bool {
    48 <= b <= 57
}

/// The number that the decimal digits `d` spell.
pub open spec fn digits_value(d: Seq<u8>) -> int
    decreases d.len(),
{
    if d.len() == 0 {
        0
    } else {
        digits_value(d.drop_last()) * 10 + (d.last() - 48)
    }
}

/// `s` without a leading `+`.
pub open spec fn unsigned_digits(s: Seq<u8>) -> Seq<u8> {
    if s.len() > 0 && s[0] == 43 {
        s.drop_first()
    } else {
        s
    }
}

/// Whether `s` is a decimal number, with an optional leading `+`, that fits
/// in 32 unsigned bits.
pub open spec fn is_u32_text(s: Seq<u8>) -> bool {
    let d = unsigned_digits(s);
    &&& d.len() > 0
    &&& forall|i: int| 0 <= i < d.len() ==> is_digit(#[trigger] d[i])
    &&& digits_value(d) <= u32::MAX
}

/// The kind of the file named by the bytes `name`: the metadata file by its
/// name; an ephemeral file by its prefix followed by a number; a download
/// in progress by its extension; a layer otherwise.
pub open spec fn file_kind(name: Seq<u8>) -> TimelineFileKind {
    if name == metadata_name() {
        TimelineFileKind::Metadata
    } else if name.len() >= 10 && name.take(10) == ephemeral_prefix() && is_u32_text(
        name.skip(10),
    ) {
        TimelineFileKind::Ephemeral
    } else if name.len() > 14 && name.skip(name.len() - 14) == temp_download_suffix() {
        TimelineFileKind::TempDownload
    } else {
        TimelineFileKind::Layer
    }
}

fn bytes_equal(a: &[u8], start: usize, b: &[u8]) -> (r: bool)
    requires
        start <= a@.len(),
    ensures
        r == (a@.len() - start == b@.len() && a@.skip(start as int) == b@),
{
    let n = a.len();
    if n - start != b.len() {
        return false;
    }
    let mut i: usize = 0;
    while i < b.len()
        invariant
            n == a@.len(),
            start <= a@.len(),
            a@.len() - start == b@.len(),
            0 <= i <= b@.len(),
            forall|j: int| 0 <= j < i ==> a@[start + j] == b@[j],
        decreases b@.len() - i,
    {
        if a[start + i] != b[i] {
            proof {
                assert(a@.skip(start as int)[i as int] != b@[i as int]);
            }
            return false;
        }
        i = i + 1;
    }
    proof {
        assert(a@.skip(start as int) =~= b@);
    }
    true
}

fn starts_with(a: &[u8], b: &[u8]) -> (r: bool)
    ensures
        r == (a@.len() >= b@.len() && a@.take(b@.len() as int) == b@),
{
    if a.len() < b.len() {
        return false;
    }
    let mut i: usize = 0;
    while i < b.len()
        invariant
            a@.len() >= b@.len(),
            0 <= i <= b@.len(),
            forall|j: int| 0 <= j < i ==> a@[j] == b@[j],
        decreases b@.len() - i,
    {
        if a[i] != b[i] {
            proof {
                assert(a@.take(b@.len() as int)[i as int] != b@[i as int]);
            }
            return false;
        }
        i = i + 1;
    }
    proof {
        assert(a@.take(b@.len() as int) =~= b@);
    }
    true
}

proof fn lemma_digits_value_step(d: Seq<u8>, i: int)
    requires
        0 <= i < d.len(),
    ensures
        digits_value(d.take(i + 1)) == digits_value(d.take(i)) * 10 + (d[i] - 48),
{
    assert(d.take(i + 1).drop_last() =~= d.take(i));
}

proof fn lemma_digits_value_grows(d: Seq<u8>, i: int)
    requires
        0 <= i <= d.len(),
        forall|j: int| 0 <= j < d.len() ==> is_digit(#[trigger] d[j]),
    ensures
        digits_value(d.take(i)) <= digits_value(d),
        digits_value(d.take(i)) >= 0,
    decreases d.len() - i,
{
    if i < d.len() {
        lemma_digits_value_grows(d, i + 1);
        lemma_digits_value_step(d, i);
    } else {
        assert(d.take(i) =~= d);
    }
    lemma_digits_value_nonneg(d.take(i));
}

proof fn lemma_digits_value_nonneg(d: Seq<u8>)
    requires
        forall|j: int| 0 <= j < d.len() ==> is_digit(#[trigger] d[j]),
    ensures
        digits_value(d) >= 0,
    decreases d.len(),
{
    if d.len() > 0 {
        lemma_digits_value_nonneg(d.drop_last());
    }
}

fn is_u32_number(s: &[u8], start: usize) -> (r: bool)
    requires
        start <= s@.len(),
    ensures
        r == is_u32_text(s@.skip(start as int)),
{
    let ghost text = s@.skip(start as int);
    let mut first = start;
    if start < s.len() && s[start] == 43 {
        first = start + 1;
    }
    let ghost d = s@.skip(first as int);
    proof {
        if start < s.len() && s[start as int] == 43 {
            assert(d =~= text.drop_first());
        } else {
            assert(d =~= text);
        }
    }
    if first == s.len() {
        proof {
            assert(d.len() == 0);
        }
        return false;
    }
    let mut value: u64 = 0;
    let mut i: usize = first;
    while i < s.len()
        invariant
            first <= i <= s@.len(),
            d == s@.skip(first as int),
            text == s@.skip(start as int),
            d == unsigned_digits(text),
            forall|j: int| 0 <= j < i - first ==> is_digit(#[trigger] d[j]),
            value == digits_value(d.take(i - first)),
            value <= u32::MAX,
        decreases s@.len() - i,
    {
        let b = s[i];
        if b < 48 || b > 57 {
            proof {
                assert(s@[i as int] == d[i - first]);
                assert(!is_digit(d[i - first]));
            }
            return false;
        }
        proof {
            lemma_digits_value_step(d, i - first);
        }
        value = value * 10 + (b - 48) as u64;
        i = i + 1;
        if value > 0xFFFF_FFFF {
            proof {
                if forall|j: int| 0 <= j < d.len() ==> is_digit(#[trigger] d[j]) {
                    lemma_digits_value_grows(d, i - first);
                }
            }
            return false;
        }
    }
    proof {
        assert(d.take(i - first) =~= d);
    }
    true
}

/// Decides the kind of the file named `name`.
pub fn classify_timeline_file(name: &str) -> (r: TimelineFileKind)
    ensures
        r == file_kind(name.spec_bytes()),
{
    let bytes = name.as_bytes();
    let metadata: [u8; 8] = [109, 101, 116, 97, 100, 97, 116, 97];
    let prefix: [u8; 10] = [101, 112, 104, 101, 109, 101, 114, 97, 108, 45];
    let suffix: [u8; 14] = [46, 116, 101, 109, 112, 95, 100, 111, 119, 110, 108, 111, 97, 100];
    proof {
        assert(metadata@ =~= metadata_name());
        assert(prefix@ =~= ephemeral_prefix());
        assert(suffix@ =~= temp_download_suffix());
    }
    if bytes_equal(bytes, 0, metadata.as_slice()) {
        proof {
            assert(bytes@.skip(0) =~= bytes@);
        }
        return TimelineFileKind::Metadata;
    }
    proof {
        assert(bytes@.skip(0) =~= bytes@);
    }
    if starts_with(bytes, prefix.as_slice()) && is_u32_number(bytes, 10) {
        return TimelineFileKind::Ephemeral;
    }
    if bytes.len() > 14 && bytes_equal(bytes, bytes.len() - 14, suffix.as_slice()) {
        return TimelineFileKind::TempDownload;
    }
    TimelineFileKind::Layer
}

} // verus!
