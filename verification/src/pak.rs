//! The PAK archive format.
//!
//! On the wire every byte is XORed with [`CYPHER_BYTE`]. In plain bytes an
//! archive is the eight magic bytes, one header per record, the end flag, and
//! then the payloads of all records in record order.

use crate::bytes::{append, le32, le32_bytes, le32_value};
use vstd::prelude::*;

pub mod laws;

verus! {

/// The key every byte of an archive is XORed with.
pub const CYPHER_BYTE: u8 = 0xF7;

/// The bytes that open every archive, in plain.
pub const MAGIC_HEADER: [u8; 8] = [0xC0, 0x4A, 0xC0, 0xBA, 0x00, 0x00, 0x00, 0x00];

/// The flag that opens a record header.
pub const ENTRY_FLAG: u8 = 0x00;

/// The flag that closes the list of record headers.
pub const END_FLAG: u8 = 0x80;

/// Why an archive could not be written or read.
#[derive(Clone, Copy, Debug, PartialEq, Eq, Structural)]
pub enum PakError {
    /// The input does not start with the magic bytes.
    MalformedHeader,
    /// A flag byte is neither the entry flag nor the end flag.
    MalformedFlag,
    /// The input ends before the archive does.
    Truncated,
    /// A record name is longer than 255 bytes.
    NameTooLong,
    /// A record payload is longer than 2^32 - 1 bytes.
    PayloadTooLarge,
}

/// One file of an archive.
#[derive(Clone, Debug, PartialEq, Eq)]
pub struct PakRecord {
    /// The path of the file inside the archive, with backslashes as separators.
    pub name: Vec<u8>,
    /// The last-modified stamp, carried through byte for byte.
    pub filetime: [u8; 8],
    /// The content of the file.
    pub data: Vec<u8>,
}

/// What a record is, mathematically: three byte strings.
pub struct Record {
    pub name: Seq<u8>,
    pub filetime: Seq<u8>,
    pub data: Seq<u8>,
}

impl View for PakRecord {
    type V = Record;

    open spec fn view(&self) -> Record {
        Record { name: self.name@, filetime: self.filetime@, data: self.data@ }
    }
}

/// An archive: records in the order in which they are stored.
#[derive(Clone, Debug, PartialEq, Eq)]
pub struct PakManager {
    pub records: Vec<PakRecord>,
}

impl View for PakManager {
    type V = Seq<Record>;

    open spec fn view(&self) -> Seq<Record> {
        views(self.records@)
    }
}

impl Default for PakManager {
    /// The empty archive.
    fn default() -> (out: PakManager)
        ensures
            out@ == Seq::<Record>::empty(),
    {
        let out = PakManager { records: Vec::new() };
        assert(out@ =~= Seq::<Record>::empty());
        out
    }
}

/// The views of a list of records, in the same order.
pub open spec fn views(records: Seq<PakRecord>) -> Seq<Record> {
    Seq::new(records.len(), |i: int| records[i]@)
}

/// The magic bytes that open every archive, in plain.
pub open spec fn magic() -> Seq<u8> {
    seq![0xC0u8, 0x4Au8, 0xC0u8, 0xBAu8, 0x00u8, 0x00u8, 0x00u8, 0x00u8]
}

/// Whether a record fits the format: the name length in one byte, the payload
/// length in four, the stamp in eight.
pub open spec fn encodable(r: Record) -> bool {
    r.name.len() <= 255 && r.data.len() <= u32::MAX && r.filetime.len() == 8
}

/// Whether every record of an archive fits the format.
pub open spec fn well_formed(rs: Seq<Record>) -> bool {
    forall|i: int| 0 <= i < rs.len() ==> encodable(#[trigger] rs[i])
}

/// The header of one record, in plain: entry flag, name length, name, payload
/// length, stamp.
pub open spec fn record_header(r: Record) -> Seq<u8> {
    seq![ENTRY_FLAG, r.name.len() as u8] + r.name + le32(r.data.len()) + r.filetime
}

/// The headers of all records, in record order.
pub open spec fn headers(rs: Seq<Record>) -> Seq<u8>
    decreases rs.len(),
{
    if rs.len() == 0 {
        Seq::empty()
    } else {
        headers(rs.drop_last()) + record_header(rs.last())
    }
}

/// The payloads of all records, in record order.
pub open spec fn payloads(rs: Seq<Record>) -> Seq<u8>
    decreases rs.len(),
{
    if rs.len() == 0 {
        Seq::empty()
    } else {
        payloads(rs.drop_last()) + rs.last().data
    }
}

/// The archive in plain bytes: magic, headers, end flag, payloads.
pub open spec fn plain_archive(rs: Seq<Record>) -> Seq<u8> {
    magic() + headers(rs) + seq![END_FLAG] + payloads(rs)
}

/// Every byte XORed with the cypher byte. Applied twice it gives the input back.
pub open spec fn obfuscated(s: Seq<u8>) -> Seq<u8> {
    Seq::new(s.len(), |i: int| s[i] ^ CYPHER_BYTE)
}

/// The archive as it is stored.
pub open spec fn encoded(rs: Seq<Record>) -> Seq<u8> {
    obfuscated(plain_archive(rs))
}

/// The bytes that the records of an archive take: for each 14 and the
/// lengths of its name and payload.
pub open spec fn records_len(rs: Seq<Record>) -> nat
    decreases rs.len(),
{
    if rs.len() == 0 {
        0
    } else {
        records_len(rs.drop_last()) + 14 + rs.last().name.len() + rs.last().data.len()
    }
}

/// What is wrong with a record that does not fit the format. The name is
/// judged before the payload.
pub open spec fn record_defect(r: Record) -> Option<PakError> {
    if r.name.len() > 255 {
        Some(PakError::NameTooLong)
    } else if r.data.len() > u32::MAX {
        Some(PakError::PayloadTooLarge)
    } else {
        None
    }
}

/// A record header as it is read, before its payload is known.
pub struct Entry {
    pub name: Seq<u8>,
    pub size: nat,
    pub filetime: Seq<u8>,
}

/// The entries that a record list is announced by.
pub open spec fn entries_of(rs: Seq<Record>) -> Seq<Entry> {
    Seq::new(
        rs.len(),
        |i: int| Entry { name: rs[i].name, size: rs[i].data.len(), filetime: rs[i].filetime },
    )
}

/// Reads record headers from `pos` on, up to and including the end flag. Gives
/// the entries in the order read and the position behind the end flag.
pub open spec fn parse_entries(plain: Seq<u8>, pos: int) -> Result<(Seq<Entry>, int), PakError>
    decreases plain.len() - pos,
{
    if pos < 0 || pos >= plain.len() {
        Err(PakError::Truncated)
    } else if plain[pos] == END_FLAG {
        Ok((Seq::empty(), pos + 1))
    } else if plain[pos] != ENTRY_FLAG {
        Err(PakError::MalformedFlag)
    } else if pos + 1 >= plain.len() {
        Err(PakError::Truncated)
    } else {
        let n = plain[pos + 1] as int;
        if pos + 14 + n > plain.len() {
            Err(PakError::Truncated)
        } else {
            let first = Entry {
                name: plain.subrange(pos + 2, pos + 2 + n),
                size: le32_value(plain.subrange(pos + 2 + n, pos + 6 + n)),
                filetime: plain.subrange(pos + 6 + n, pos + 14 + n),
            };
            match parse_entries(plain, pos + 14 + n) {
                Ok((rest, end)) => Ok((seq![first] + rest, end)),
                Err(e) => Err(e),
            }
        }
    }
}

/// Reads the payloads that `entries` announce, one after the other from `pos` on.
pub open spec fn parse_payloads(plain: Seq<u8>, pos: int, entries: Seq<Entry>) -> Result<
    Seq<Record>,
    PakError,
>
    decreases entries.len(),
{
    if entries.len() == 0 {
        Ok(Seq::empty())
    } else {
        let e = entries.first();
        if pos + e.size > plain.len() {
            Err(PakError::Truncated)
        } else {
            let first = Record {
                name: e.name,
                filetime: e.filetime,
                data: plain.subrange(pos, pos + e.size),
            };
            match parse_payloads(plain, pos + e.size, entries.drop_first()) {
                Ok(rest) => Ok(seq![first] + rest),
                Err(e) => Err(e),
            }
        }
    }
}

/// Whether the stored bytes open with the magic.
pub open spec fn has_magic(bytes: Seq<u8>) -> bool {
    bytes.len() >= 8 && obfuscated(bytes.subrange(0, 8)) == magic()
}

/// What stored bytes hold: the records, or the first thing wrong with them
/// in reading order. Bytes behind the last payload are not looked at.
pub open spec fn decoded(bytes: Seq<u8>) -> Result<Seq<Record>, PakError> {
    let plain = obfuscated(bytes);
    if !has_magic(bytes) {
        Err(PakError::MalformedHeader)
    } else {
        match parse_entries(plain, 8) {
            Ok((entries, pos)) => parse_payloads(plain, pos, entries),
            Err(e) => Err(e),
        }
    }
}

/// XORs every byte of `bytes` with the cypher byte, in place.
fn obfuscate(bytes: &mut Vec<u8>)
    ensures
        final(bytes)@ == obfuscated(old(bytes)@),
{
    let mut i: usize = 0;
    while i < bytes.len()
        invariant
            i <= bytes@.len(),
            bytes@.len() == old(bytes)@.len(),
            forall|j: int| 0 <= j < i ==> bytes@[j] == old(bytes)@[j] ^ CYPHER_BYTE,
            forall|j: int| i <= j < bytes@.len() ==> bytes@[j] == old(bytes)@[j],
        decreases bytes@.len() - i,
    {
        let b: u8 = bytes[i];
        bytes.set(i, b ^ CYPHER_BYTE);
        i += 1;
    }
    assert(bytes@ =~= obfuscated(old(bytes)@));
}

/// The plain byte that the stored byte at `i` stands for.
fn plain_at(bytes: &[u8], i: usize) -> (b: u8)
    requires
        i < bytes@.len(),
    ensures
        b == obfuscated(bytes@)[i as int],
{
    bytes[i] ^ CYPHER_BYTE
}

/// The plain bytes that the stored bytes from `from` up to `to` stand for.
fn plain_range(bytes: &[u8], from: usize, to: usize) -> (out: Vec<u8>)
    requires
        from <= to <= bytes@.len(),
    ensures
        out@ == obfuscated(bytes@).subrange(from as int, to as int),
{
    let mut out: Vec<u8> = Vec::new();
    let mut i: usize = from;
    while i < to
        invariant
            from <= i <= to <= bytes@.len(),
            out@ == obfuscated(bytes@).subrange(from as int, i as int),
        decreases to - i,
    {
        out.push(plain_at(bytes, i));
        assert(obfuscated(bytes@).subrange(from as int, i + 1) =~= obfuscated(bytes@).subrange(
            from as int,
            i as int,
        ).push(obfuscated(bytes@)[i as int]));
        i += 1;
    }
    out
}

/// The eight plain bytes from `at` on.
fn plain_stamp(bytes: &[u8], at: usize) -> (out: [u8; 8])
    requires
        at + 8 <= bytes.len(),
    ensures
        out@ == obfuscated(bytes@).subrange(at as int, at + 8),
{
    let out: [u8; 8] = [
        plain_at(bytes, at),
        plain_at(bytes, at + 1),
        plain_at(bytes, at + 2),
        plain_at(bytes, at + 3),
        plain_at(bytes, at + 4),
        plain_at(bytes, at + 5),
        plain_at(bytes, at + 6),
        plain_at(bytes, at + 7),
    ];
    assert(out@ =~= obfuscated(bytes@).subrange(at as int, at + 8));
    out
}

/// The number that the four plain bytes from `at` on spell.
fn plain_le32(bytes: &[u8], at: usize) -> (n: u32)
    requires
        at + 4 <= bytes.len(),
    ensures
        n == le32_value(obfuscated(bytes@).subrange(at as int, at + 4)),
{
    let b0: u32 = plain_at(bytes, at) as u32;
    let b1: u32 = plain_at(bytes, at + 1) as u32;
    let b2: u32 = plain_at(bytes, at + 2) as u32;
    let b3: u32 = plain_at(bytes, at + 3) as u32;
    b0 + 256 * b1 + 65536 * b2 + 16777216 * b3
}

/// Whether the stored bytes open with the magic.
fn starts_with_magic(bytes: &[u8]) -> (out: bool)
    ensures
        out == has_magic(bytes@),
{
    if bytes.len() < 8 {
        return false;
    }
    let out = plain_at(bytes, 0) == 0xC0 && plain_at(bytes, 1) == 0x4A && plain_at(bytes, 2)
        == 0xC0 && plain_at(bytes, 3) == 0xBA && plain_at(bytes, 4) == 0x00 && plain_at(bytes, 5)
        == 0x00 && plain_at(bytes, 6) == 0x00 && plain_at(bytes, 7) == 0x00;
    proof {
        let head = obfuscated(bytes@.subrange(0, 8));
        assert forall|i: int| 0 <= i < 8 implies head[i] == obfuscated(bytes@)[i] by {}
        if out {
            assert(head =~= magic());
        } else {
            assert(magic()[0] == 0xC0 && magic()[1] == 0x4A && magic()[2] == 0xC0 && magic()[3]
                == 0xBA && magic()[4] == 0x00 && magic()[5] == 0x00 && magic()[6] == 0x00
                && magic()[7] == 0x00);
        }
    }
    out
}

/// Where in the stored bytes a record header keeps its parts.
#[derive(Clone, Copy)]
struct Span {
    name_at: usize,
    name_len: usize,
    size: usize,
    stamp_at: usize,
}

/// The entry that a span points at.
spec fn span_entry(plain: Seq<u8>, span: Span) -> Entry {
    Entry {
        name: plain.subrange(span.name_at as int, span.name_at + span.name_len),
        size: span.size as nat,
        filetime: plain.subrange(span.stamp_at as int, span.stamp_at + 8),
    }
}

spec fn span_entries(plain: Seq<u8>, spans: Seq<Span>) -> Seq<Entry> {
    Seq::new(spans.len(), |i: int| span_entry(plain, spans[i]))
}

spec fn span_fits(span: Span, len: int) -> bool {
    span.name_at + span.name_len <= len && span.stamp_at + 8 <= len
}

/// The entries read so far, followed by what reading on gives.
spec fn entries_then(done: Seq<Entry>, rest: Result<(Seq<Entry>, int), PakError>) -> Result<
    (Seq<Entry>, int),
    PakError,
> {
    match rest {
        Ok((more, end)) => Ok((done + more, end)),
        Err(e) => Err(e),
    }
}

/// The records read so far, followed by what reading on gives.
spec fn records_then(done: Seq<Record>, rest: Result<Seq<Record>, PakError>) -> Result<
    Seq<Record>,
    PakError,
> {
    match rest {
        Ok(more) => Ok(done + more),
        Err(e) => Err(e),
    }
}

impl PakManager {
    /// Looks for the first record that does not fit the format.
    fn first_defect(&self) -> (out: Option<PakError>)
        ensures
            out is None <==> well_formed(self@),
            out matches Some(e) ==> exists|i: int|
                0 <= i < self@.len() && record_defect(#[trigger] self@[i]) == Some(e)
                    && well_formed(self@.take(i)),
    {
        let mut i: usize = 0;
        while i < self.records.len()
            invariant
                i <= self.records@.len(),
                well_formed(self@.take(i as int)),
            decreases self.records@.len() - i,
        {
            let r = &self.records[i];
            assert(self@[i as int] == r@);
            if r.name.len() > 255 {
                assert(!encodable(self@[i as int]));
                return Some(PakError::NameTooLong);
            }
            if r.data.len() > 0xFFFF_FFFF {
                assert(!encodable(self@[i as int]));
                return Some(PakError::PayloadTooLarge);
            }
            assert(encodable(self@[i as int]));
            assert forall|j: int| 0 <= j < i + 1 implies encodable(
                #[trigger] self@.take(i + 1)[j],
            ) by {
                if j < i {
                    assert(self@.take(i as int)[j] == self@[j]);
                }
            }
            i += 1;
        }
        assert(self@.take(i as int) =~= self@);
        None
    }

    /// Serializes the archive.
    ///
    /// Succeeds exactly when every record fits the format, and then returns the
    /// stored form of the archive: 9 bytes and, for each record, 14 and the
    /// lengths of its name and payload. Otherwise the error is that of the
    /// first record that does not fit.
    pub fn to_bytes(&self) -> (out: Result<Vec<u8>, PakError>)
        ensures
            out is Ok <==> well_formed(self@),
            out matches Ok(bytes) ==> bytes@ == encoded(self@) && bytes@.len() == 9 + records_len(
                self@,
            ),
            out matches Err(e) ==> exists|i: int|
                0 <= i < self@.len() && record_defect(#[trigger] self@[i]) == Some(e)
                    && well_formed(self@.take(i)),
    {
        match self.first_defect() {
            Some(e) => {
                return Err(e);
            },
            None => {},
        }
        let mut bytes: Vec<u8> = Vec::new();
        append(&mut bytes, MAGIC_HEADER.as_slice());
        assert(bytes@ =~= magic());
        assert(self@.take(0) =~= Seq::<Record>::empty());
        let mut i: usize = 0;
        while i < self.records.len()
            invariant
                i <= self.records@.len(),
                well_formed(self@),
                bytes@ == magic() + headers(self@.take(i as int)),
            decreases self.records@.len() - i,
        {
            let r = &self.records[i];
            assert(self@[i as int] == r@);
            assert(encodable(self@[i as int]));
            let ghost before = bytes@;
            bytes.push(ENTRY_FLAG);
            bytes.push(r.name.len() as u8);
            append(&mut bytes, r.name.as_slice());
            let size = le32_bytes(r.data.len() as u32);
            append(&mut bytes, size.as_slice());
            append(&mut bytes, r.filetime.as_slice());
            proof {
                let upto = self@.take(i + 1);
                assert(upto.drop_last() =~= self@.take(i as int));
                assert(upto.last() == r@);
                assert(bytes@ =~= before + record_header(r@));
                assert(bytes@ =~= magic() + headers(upto));
            }
            i += 1;
        }
        assert(self@.take(i as int) =~= self@);
        bytes.push(END_FLAG);
        let mut k: usize = 0;
        assert(self@.take(0) =~= Seq::<Record>::empty());
        while k < self.records.len()
            invariant
                k <= self.records@.len(),
                bytes@ == magic() + headers(self@) + seq![END_FLAG] + payloads(self@.take(k as int)),
            decreases self.records@.len() - k,
        {
            let r = &self.records[k];
            assert(self@[k as int] == r@);
            let ghost before = bytes@;
            append(&mut bytes, r.data.as_slice());
            proof {
                let upto = self@.take(k + 1);
                assert(upto.drop_last() =~= self@.take(k as int));
                assert(upto.last() == r@);
                assert(bytes@ =~= before + r@.data);
            }
            k += 1;
        }
        assert(self@.take(k as int) =~= self@);
        obfuscate(&mut bytes);
        proof {
            laws::size_law(self@);
        }
        Ok(bytes)
    }

    /// Reads an archive from its stored form.
    ///
    /// Returns exactly what [`decoded`] says the bytes hold: the records in
    /// stored order, or the first error met in reading order.
    pub fn from_bytes(bytes: &[u8]) -> (out: Result<PakManager, PakError>)
        ensures
            out matches Ok(archive) ==> decoded(bytes@) == Ok::<Seq<Record>, PakError>(archive@),
            out matches Err(e) ==> decoded(bytes@) == Err::<Seq<Record>, PakError>(e),
    {
        let ghost plain = obfuscated(bytes@);
        if !starts_with_magic(bytes) {
            return Err(PakError::MalformedHeader);
        }
        let len = bytes.len();
        let mut pos: usize = 8;
        if pos >= len {
            return Err(PakError::Truncated);
        }
        let mut flag = plain_at(bytes, pos);
        let mut spans: Vec<Span> = Vec::new();
        assert(span_entries(plain, spans@) + Seq::<Entry>::empty() =~= Seq::<Entry>::empty());
        while flag == ENTRY_FLAG
            invariant
                len == bytes@.len(),
                plain == obfuscated(bytes@),
                has_magic(bytes@),
                8 <= pos < len,
                flag == plain[pos as int],
                forall|i: int| 0 <= i < spans@.len() ==> span_fits(#[trigger] spans@[i], len as int),
                parse_entries(plain, 8) == entries_then(
                    span_entries(plain, spans@),
                    parse_entries(plain, pos as int),
                ),
            decreases len - pos,
        {
            if len - pos < 2 {
                return Err(PakError::Truncated);
            }
            let n = plain_at(bytes, pos + 1) as usize;
            if len - pos < 14 + n {
                return Err(PakError::Truncated);
            }
            let size = plain_le32(bytes, pos + 2 + n) as usize;
            let span = Span { name_at: pos + 2, name_len: n, size, stamp_at: pos + 6 + n };
            let ghost done = span_entries(plain, spans@);
            spans.push(span);
            proof {
                let first = span_entry(plain, span);
                let next = parse_entries(plain, pos + 14 + n);
                assert(parse_entries(plain, pos as int) == entries_then(seq![first], next));
                assert(span_entries(plain, spans@) =~= done + seq![first]);
                match next {
                    Ok((more, end)) => {
                        assert(done + (seq![first] + more) =~= (done + seq![first]) + more);
                    },
                    Err(e) => {},
                }
            }
            pos = pos + 14 + n;
            if pos >= len {
                return Err(PakError::Truncated);
            }
            flag = plain_at(bytes, pos);
        }
        if flag != END_FLAG {
            return Err(PakError::MalformedFlag);
        }
        pos = pos + 1;
        let ghost entries = span_entries(plain, spans@);
        let ghost start = pos as int;
        assert(parse_entries(plain, 8) == Ok::<(Seq<Entry>, int), PakError>((entries, start))) by {
            assert(entries + Seq::<Entry>::empty() =~= entries);
        }
        assert(decoded(bytes@) == parse_payloads(plain, start, entries));
        let mut records: Vec<PakRecord> = Vec::new();
        let mut k: usize = 0;
        assert(entries.skip(0) =~= entries);
        assert(views(records@) + Seq::<Record>::empty() =~= Seq::<Record>::empty());
        while k < spans.len()
            invariant
                len == bytes@.len(),
                plain == obfuscated(bytes@),
                entries == span_entries(plain, spans@),
                k <= spans@.len(),
                pos <= len,
                forall|i: int| 0 <= i < spans@.len() ==> span_fits(#[trigger] spans@[i], len as int),
                decoded(bytes@) == parse_payloads(plain, start, entries),
                parse_payloads(plain, start, entries) == records_then(
                    views(records@),
                    parse_payloads(plain, pos as int, entries.skip(k as int)),
                ),
            decreases spans@.len() - k,
        {
            let span = spans[k];
            assert(span_fits(spans@[k as int], len as int));
            let ghost todo = entries.skip(k as int);
            assert(todo.first() == span_entry(plain, span));
            assert(todo.drop_first() =~= entries.skip(k + 1));
            if span.size > len - pos {
                return Err(PakError::Truncated);
            }
            let record = PakRecord {
                name: plain_range(bytes, span.name_at, span.name_at + span.name_len),
                filetime: plain_stamp(bytes, span.stamp_at),
                data: plain_range(bytes, pos, pos + span.size),
            };
            let ghost done = views(records@);
            let ghost first = record@;
            records.push(record);
            proof {
                let next = parse_payloads(plain, pos + span.size, entries.skip(k + 1));
                assert(parse_payloads(plain, pos as int, todo) == records_then(seq![first], next));
                assert(views(records@) =~= done + seq![first]);
                match next {
                    Ok(more) => {
                        assert(done + (seq![first] + more) =~= (done + seq![first]) + more);
                    },
                    Err(e) => {},
                }
            }
            pos = pos + span.size;
            k += 1;
        }
        assert(views(records@) + Seq::<Record>::empty() =~= views(records@));
        Ok(PakManager { records })
    }
}

} // verus!
