//! Laying mod assets over an archive.
//!
//! Callers use an archive as a map from names to files in which the last
//! record of a name counts. A mod's file takes the place of that record, or
//! is added at the end. A mod's additions to a manifest are put in front of
//! the manifest's closing tag.

use crate::bytes::{append, le64, le64_bytes};
use crate::pak::{views, PakManager, PakRecord, Record};
use vstd::prelude::*;

pub mod laws;

verus! {

/// The index of the last record named `name`, if there is one.
pub open spec fn last_named(rs: Seq<Record>, name: Seq<u8>) -> Option<int>
    decreases rs.len(),
{
    if rs.len() == 0 {
        None
    } else if rs.last().name == name {
        Some(rs.len() - 1)
    } else {
        last_named(rs.drop_last(), name)
    }
}

/// The archive with `r` laid over it: in the place of the last record of its
/// name, or at the end where no record has its name.
pub open spec fn laid_over(rs: Seq<Record>, r: Record) -> Seq<Record> {
    match last_named(rs, r.name) {
        Some(i) => rs.update(i, r),
        None => rs.push(r),
    }
}

/// Whether `marker` stands in `data` at `i`.
pub open spec fn occurs_at(data: Seq<u8>, marker: Seq<u8>, i: int) -> bool {
    0 <= i && i + marker.len() <= data.len() && data.subrange(i, i + marker.len()) == marker
}

/// The place at which `marker` stands last in `data`, if it stands anywhere.
pub open spec fn last_occurrence(data: Seq<u8>, marker: Seq<u8>) -> Option<int> {
    if exists|i: int| occurs_at(data, marker, i) {
        Some(
            choose|i: int|
                occurs_at(data, marker, i) && forall|j: int| i < j ==> !occurs_at(data, marker, j),
        )
    } else {
        None
    }
}

/// The ticks of 100 nanoseconds from the first day of 1601 to that of 1970.
pub const TICKS_TO_1970: u64 = 116_444_736_000_000_000;

/// A time after the first day of 1970, in ticks of 100 nanoseconds since the
/// first day of 1601.
pub open spec fn ticks_since_1601(seconds: nat, nanos: nat) -> nat {
    TICKS_TO_1970 as nat + seconds * 10_000_000 + nanos / 100
}

/// The stamp of a file last written `seconds` and `nanos` after the first day
/// of 1970: the ticks since 1601 as eight bytes, least significant first.
/// `None` where the ticks do not fit eight bytes.
pub fn stamp_of(seconds: u64, nanos: u32) -> (out: Option<[u8; 8]>)
    ensures
        match out {
            Some(stamp) => stamp@ == le64(ticks_since_1601(seconds as nat, nanos as nat)),
            None => ticks_since_1601(seconds as nat, nanos as nat) > u64::MAX,
        },
{
    let ticks: u128 = TICKS_TO_1970 as u128 + seconds as u128 * 10_000_000 + (nanos / 100) as u128;
    if ticks > 0xFFFF_FFFF_FFFF_FFFF {
        None
    } else {
        Some(le64_bytes(ticks as u64))
    }
}

/// Whether two byte strings are the same.
fn same_bytes(a: &[u8], b: &[u8]) -> (out: bool)
    ensures
        out == (a@ == b@),
{
    if a.len() != b.len() {
        return false;
    }
    let mut i: usize = 0;
    while i < a.len()
        invariant
            i <= a@.len(),
            a@.len() == b@.len(),
            a@.take(i as int) == b@.take(i as int),
        decreases a@.len() - i,
    {
        if a[i] != b[i] {
            return false;
        }
        assert(a@.take(i + 1) =~= a@.take(i as int).push(a@[i as int]));
        assert(b@.take(i + 1) =~= b@.take(i as int).push(b@[i as int]));
        i += 1;
    }
    assert(a@.take(i as int) =~= a@);
    assert(b@.take(i as int) =~= b@);
    true
}

/// Whether `marker` stands in `data` at `at`.
fn stands_at(data: &[u8], marker: &[u8], at: usize) -> (out: bool)
    requires
        at + marker.len() <= data.len(),
    ensures
        out == occurs_at(data@, marker@, at as int),
{
    let mut i: usize = 0;
    while i < marker.len()
        invariant
            i <= marker@.len(),
            at + marker.len() <= data.len(),
            data@.subrange(at as int, at + i) == marker@.take(i as int),
        decreases marker@.len() - i,
    {
        if data[at + i] != marker[i] {
            assert(data@.subrange(at as int, at + marker@.len())[i as int] != marker@[i as int]);
            return false;
        }
        assert(data@.subrange(at as int, at + i + 1) =~= data@.subrange(at as int, at + i).push(
            data@[at + i],
        ));
        assert(marker@.take(i + 1) =~= marker@.take(i as int).push(marker@[i as int]));
        i += 1;
    }
    assert(marker@.take(i as int) =~= marker@);
    true
}

/// The place at which `marker` stands last in `data`, if it stands anywhere.
pub fn find_last(data: &[u8], marker: &[u8]) -> (out: Option<usize>)
    ensures
        out matches Some(i) ==> last_occurrence(data@, marker@) == Some(i as int),
        out is None ==> last_occurrence(data@, marker@) is None,
        out matches Some(i) ==> occurs_at(data@, marker@, i as int) && forall|j: int|
            i < j ==> !occurs_at(data@, marker@, j),
        out is None ==> forall|j: int| !occurs_at(data@, marker@, j),
{
    if marker.len() > data.len() {
        return None;
    }
    let mut at: usize = data.len() - marker.len();
    loop
        invariant
            at + marker@.len() <= data@.len(),
            forall|j: int| at < j ==> !occurs_at(data@, marker@, j),
        decreases at,
    {
        if stands_at(data, marker, at) {
            proof {
                lemma_last_occurrence(data@, marker@, at as int);
            }
            return Some(at);
        }
        if at == 0 {
            return None;
        }
        at -= 1;
    }
}

/// The last place at which a marker stands is the one that `last_occurrence`
/// names.
pub proof fn lemma_last_occurrence(data: Seq<u8>, marker: Seq<u8>, i: int)
    requires
        occurs_at(data, marker, i),
        forall|j: int| i < j ==> !occurs_at(data, marker, j),
    ensures
        last_occurrence(data, marker) == Some(i),
{
    let k = choose|k: int|
        occurs_at(data, marker, k) && forall|j: int| k < j ==> !occurs_at(data, marker, j);
    if k < i {
        assert(!occurs_at(data, marker, i));
    }
    if i < k {
        assert(!occurs_at(data, marker, k));
    }
}

/// `data` with `extra` put in front of the last place at which `marker`
/// stands. `None`, and nothing done, where `marker` stands nowhere.
pub fn spliced_before_last(data: &[u8], marker: &[u8], extra: &[u8]) -> (out: Option<Vec<u8>>)
    ensures
        match last_occurrence(data@, marker@) {
            Some(i) => out matches Some(v) && v@ == data@.take(i) + extra@ + data@.skip(i),
            None => out is None,
        },
{
    match find_last(data, marker) {
        Some(at) => {
            let mut out: Vec<u8> = Vec::new();
            let mut i: usize = 0;
            while i < at
                invariant
                    i <= at <= data@.len(),
                    out@ == data@.take(i as int),
                decreases at - i,
            {
                out.push(data[i]);
                assert(data@.take(i + 1) =~= data@.take(i as int).push(data@[i as int]));
                i += 1;
            }
            append(&mut out, extra);
            let ghost front = out@;
            let mut k: usize = at;
            while k < data.len()
                invariant
                    at <= k <= data@.len(),
                    out@ == front + data@.subrange(at as int, k as int),
                decreases data@.len() - k,
            {
                out.push(data[k]);
                assert(data@.subrange(at as int, k + 1) =~= data@.subrange(at as int, k as int).push(
                    data@[k as int],
                ));
                k += 1;
            }
            assert(data@.subrange(at as int, k as int) =~= data@.skip(at as int));
            Some(out)
        },
        None => None,
    }
}

impl PakManager {
    /// The index of the last record named `name`, if there is one.
    pub fn find(&self, name: &[u8]) -> (out: Option<usize>)
        ensures
            out matches Some(i) ==> last_named(self@, name@) == Some(i as int),
            out is None ==> last_named(self@, name@) is None,
            out matches Some(i) ==> i < self@.len() && self@[i as int].name == name@
                && forall|j: int| i < j < self@.len() ==> self@[j].name != name@,
            out is None ==> forall|j: int| 0 <= j < self@.len() ==> self@[j].name != name@,
    {
        let mut i: usize = self.records.len();
        assert(self@.take(i as int) =~= self@);
        while i > 0
            invariant
                i <= self@.len(),
                last_named(self@, name@) == last_named(self@.take(i as int), name@),
                forall|j: int| i <= j < self@.len() ==> self@[j].name != name@,
            decreases i,
        {
            let ghost upto = self@.take(i as int);
            assert(upto.last() == self@[i - 1]);
            assert(upto.drop_last() =~= self@.take(i - 1));
            if same_bytes(self.records[i - 1].name.as_slice(), name) {
                return Some(i - 1);
            }
            i -= 1;
        }
        None
    }

    /// Lays `record` over the archive: it takes the place of the last record
    /// of its name, or comes at the end where no record has its name. All
    /// other records stay as and where they are.
    pub fn put(&mut self, record: PakRecord)
        ensures
            final(self)@ == laid_over(old(self)@, record@),
    {
        match self.find(record.name.as_slice()) {
            Some(i) => {
                let ghost before = self.records@;
                self.records.set(i, record);
                assert(views(self.records@) =~= views(before).update(i as int, record@));
            },
            None => {
                let ghost before = self.records@;
                self.records.push(record);
                assert(views(self.records@) =~= views(before).push(record@));
            },
        }
    }
}

} // verus!
