//! What holds of the PAK format: reading undoes writing, and the stored form
//! has the layout, the framing and the size that the format fixes.

use crate::bytes::{le32, le32_value};
use crate::pak::{
    decoded, encodable, encoded, entries_of, has_magic, headers, magic, obfuscated, parse_entries,
    parse_payloads, payloads, plain_archive, record_header, records_len, well_formed, Entry,
    PakError, Record, CYPHER_BYTE, END_FLAG, ENTRY_FLAG,
};
use vstd::prelude::*;

verus! {

/// XORing with the cypher byte twice gives the byte back.
pub proof fn lemma_cypher_involution(b: u8)
    ensures
        (b ^ CYPHER_BYTE) ^ CYPHER_BYTE == b,
{
    assert((b ^ 0xF7u8) ^ 0xF7u8 == b) by (bit_vector);
}

/// Obfuscating twice gives the bytes back.
pub proof fn lemma_obfuscated_twice(s: Seq<u8>)
    ensures
        obfuscated(obfuscated(s)) == s,
{
    assert forall|i: int| 0 <= i < s.len() implies obfuscated(obfuscated(s))[i] == s[i] by {
        lemma_cypher_involution(s[i]);
    }
    assert(obfuscated(obfuscated(s)) =~= s);
}

/// Obfuscating a concatenation obfuscates its parts.
pub proof fn lemma_obfuscated_concat(a: Seq<u8>, b: Seq<u8>)
    ensures
        obfuscated(a + b) == obfuscated(a) + obfuscated(b),
{
    assert(obfuscated(a + b) =~= obfuscated(a) + obfuscated(b));
}

/// Four little-endian bytes spell the number they were made from.
pub proof fn lemma_le32_value(n: nat)
    requires
        n <= u32::MAX,
    ensures
        le32(n).len() == 4,
        le32_value(le32(n)) == n,
{
}

/// The headers of a concatenation are the headers of its parts.
pub proof fn lemma_headers_concat(a: Seq<Record>, b: Seq<Record>)
    ensures
        headers(a + b) == headers(a) + headers(b),
    decreases b.len(),
{
    if b.len() == 0 {
        assert(a + b =~= a);
        assert(headers(a) + headers(b) =~= headers(a));
    } else {
        lemma_headers_concat(a, b.drop_last());
        assert((a + b).drop_last() =~= a + b.drop_last());
        assert((a + b).last() == b.last());
        assert(headers(a + b) =~= headers(a) + headers(b));
    }
}

/// The payloads of a concatenation are the payloads of its parts.
pub proof fn lemma_payloads_concat(a: Seq<Record>, b: Seq<Record>)
    ensures
        payloads(a + b) == payloads(a) + payloads(b),
    decreases b.len(),
{
    if b.len() == 0 {
        assert(a + b =~= a);
        assert(payloads(a) + payloads(b) =~= payloads(a));
    } else {
        lemma_payloads_concat(a, b.drop_last());
        assert((a + b).drop_last() =~= a + b.drop_last());
        assert((a + b).last() == b.last());
        assert(payloads(a + b) =~= payloads(a) + payloads(b));
    }
}

/// The headers of a non-empty list open with the header of its first record.
pub proof fn lemma_headers_first(rs: Seq<Record>)
    requires
        rs.len() > 0,
    ensures
        headers(rs) == record_header(rs.first()) + headers(rs.drop_first()),
{
    let one = seq![rs.first()];
    assert(one + rs.drop_first() =~= rs);
    lemma_headers_concat(one, rs.drop_first());
    assert(headers(one) =~= record_header(rs.first())) by {
        reveal_with_fuel(headers, 2);
    }
}

/// The payloads of a non-empty list open with the payload of its first record.
pub proof fn lemma_payloads_first(rs: Seq<Record>)
    requires
        rs.len() > 0,
    ensures
        payloads(rs) == rs.first().data + payloads(rs.drop_first()),
{
    let one = seq![rs.first()];
    assert(one + rs.drop_first() =~= rs);
    lemma_payloads_concat(one, rs.drop_first());
    assert(payloads(one) =~= rs.first().data) by {
        reveal_with_fuel(payloads, 2);
    }
}

/// Where the headers of a well-formed list and the end flag stand in plain
/// bytes, reading finds the entries of exactly that list.
pub proof fn lemma_parse_entries_of(plain: Seq<u8>, pos: int, rs: Seq<Record>)
    requires
        well_formed(rs),
        0 <= pos,
        pos + headers(rs).len() + 1 <= plain.len(),
        plain.subrange(pos, pos + headers(rs).len() + 1) == headers(rs) + seq![END_FLAG],
    ensures
        parse_entries(plain, pos) == Ok::<(Seq<Entry>, int), PakError>(
            (entries_of(rs), pos + headers(rs).len() + 1),
        ),
    decreases rs.len(),
{
    let window = plain.subrange(pos, pos + headers(rs).len() + 1);
    if rs.len() == 0 {
        assert(window[0] == END_FLAG);
        assert(plain[pos] == window[0]);
        assert(entries_of(rs) =~= Seq::<Entry>::empty());
    } else {
        let r = rs.first();
        let rest = rs.drop_first();
        let n = r.name.len() as int;
        lemma_headers_first(rs);
        lemma_le32_value(r.data.len());
        assert(encodable(r));
        let h = record_header(r);
        assert(h.len() == 14 + n);
        assert forall|i: int| 0 <= i < rest.len() implies encodable(#[trigger] rest[i]) by {
            assert(rest[i] == rs[i + 1]);
        }
        assert forall|i: int| 0 <= i < 14 + n implies plain[pos + i] == h[i] by {
            assert(plain[pos + i] == window[i]);
        }
        assert(plain[pos] == h[0]);
        assert(plain[pos + 1] == h[1]);
        assert(plain.subrange(pos + 2, pos + 2 + n) =~= r.name) by {
            assert forall|i: int| 0 <= i < n implies plain[pos + 2 + i] == r.name[i] by {
                assert(plain[pos + (2 + i)] == h[2 + i]);
            }
        }
        assert(plain.subrange(pos + 2 + n, pos + 6 + n) =~= le32(r.data.len())) by {
            assert forall|i: int| 0 <= i < 4 implies plain[pos + 2 + n + i] == le32(
                r.data.len(),
            )[i] by {
                assert(plain[pos + (2 + n + i)] == h[2 + n + i]);
            }
        }
        assert(plain.subrange(pos + 6 + n, pos + 14 + n) =~= r.filetime) by {
            assert forall|i: int| 0 <= i < 8 implies plain[pos + 6 + n + i] == r.filetime[i] by {
                assert(plain[pos + (6 + n + i)] == h[6 + n + i]);
            }
        }
        let next = pos + 14 + n;
        assert(plain.subrange(next, next + headers(rest).len() + 1) =~= headers(rest)
            + seq![END_FLAG]) by {
            assert forall|i: int| 0 <= i < headers(rest).len() + 1 implies plain[next + i] == (
            headers(rest) + seq![END_FLAG])[i] by {
                assert(plain[pos + (14 + n + i)] == window[14 + n + i]);
            }
        }
        lemma_parse_entries_of(plain, next, rest);
        let first = Entry { name: r.name, size: r.data.len(), filetime: r.filetime };
        assert(entries_of(rs) =~= seq![first] + entries_of(rest));
    }
}

/// Where the payloads of a list stand in plain bytes, reading them by the
/// entries of that list gives the list.
pub proof fn lemma_parse_payloads_of(plain: Seq<u8>, pos: int, rs: Seq<Record>)
    requires
        0 <= pos,
        pos + payloads(rs).len() <= plain.len(),
        plain.subrange(pos, pos + payloads(rs).len()) == payloads(rs),
    ensures
        parse_payloads(plain, pos, entries_of(rs)) == Ok::<Seq<Record>, PakError>(rs),
    decreases rs.len(),
{
    let window = plain.subrange(pos, pos + payloads(rs).len());
    if rs.len() == 0 {
        assert(rs =~= Seq::<Record>::empty());
    } else {
        let r = rs.first();
        let rest = rs.drop_first();
        let n = r.data.len() as int;
        lemma_payloads_first(rs);
        assert(entries_of(rs).drop_first() =~= entries_of(rest));
        assert(plain.subrange(pos, pos + n) =~= r.data) by {
            assert forall|i: int| 0 <= i < n implies plain[pos + i] == r.data[i] by {
                assert(plain[pos + i] == window[i]);
            }
        }
        assert(plain.subrange(pos + n, pos + n + payloads(rest).len()) =~= payloads(rest)) by {
            assert forall|i: int| 0 <= i < payloads(rest).len() implies plain[pos + n + i]
                == payloads(rest)[i] by {
                assert(plain[pos + (n + i)] == window[n + i]);
            }
        }
        lemma_parse_payloads_of(plain, pos + n, rest);
        assert(seq![r] + rest =~= rs);
    }
}

/// Reading finds a well-formed archive in any bytes that open with its stored
/// form: what follows the last payload is not looked at.
pub proof fn decode_finds_stored_prefix(rs: Seq<Record>, tail: Seq<u8>)
    requires
        well_formed(rs),
    ensures
        decoded(encoded(rs) + tail) == Ok::<Seq<Record>, PakError>(rs),
{
    let bytes = encoded(rs) + tail;
    let plain = obfuscated(bytes);
    let layout = plain_archive(rs);
    lemma_obfuscated_concat(encoded(rs), tail);
    lemma_obfuscated_twice(layout);
    assert(plain == layout + obfuscated(tail));
    assert forall|i: int| 0 <= i < layout.len() implies plain[i] == layout[i] by {}
    assert(obfuscated(bytes.subrange(0, 8)) =~= magic()) by {
        assert forall|i: int| 0 <= i < 8 implies obfuscated(bytes.subrange(0, 8))[i]
            == magic()[i] by {
            assert(plain[i] == layout[i]);
        }
    }
    assert(has_magic(bytes));
    let h = headers(rs).len() as int;
    assert(plain.subrange(8, 8 + h + 1) =~= headers(rs) + seq![END_FLAG]) by {
        assert forall|i: int| 0 <= i < h + 1 implies plain[8 + i] == (headers(rs)
            + seq![END_FLAG])[i] by {
            assert(plain[8 + i] == layout[8 + i]);
        }
    }
    lemma_parse_entries_of(plain, 8, rs);
    let start = 9 + h;
    assert(plain.subrange(start, start + payloads(rs).len()) =~= payloads(rs)) by {
        assert forall|i: int| 0 <= i < payloads(rs).len() implies plain[start + i] == payloads(
            rs,
        )[i] by {
            assert(plain[start + i] == layout[start + i]);
        }
    }
    lemma_parse_payloads_of(plain, start, rs);
}

/// Four bytes are the little-endian form of the number they spell.
pub proof fn lemma_le32_of_value(b: Seq<u8>)
    requires
        b.len() == 4,
    ensures
        le32_value(b) <= u32::MAX,
        le32(le32_value(b)) == b,
{
    let b0 = b[0] as int;
    let b1 = b[1] as int;
    let b2 = b[2] as int;
    let b3 = b[3] as int;
    let v = le32_value(b) as int;
    lemma_split_low_byte(b0, b1 + 256 * b2 + 65536 * b3);
    lemma_split_low_byte(b1, b2 + 256 * b3);
    lemma_split_low_byte(b2, b3);
    assert(v / 256 == b1 + 256 * b2 + 65536 * b3);
    assert(v / 65536 == b2 + 256 * b3) by {
        assert(v / 65536 == (v / 256) / 256) by (nonlinear_arith)
            requires
                v >= 0,
        ;
    }
    assert(v / 16777216 == b3) by {
        assert(v / 16777216 == (v / 65536) / 256) by (nonlinear_arith)
            requires
                v >= 0,
        ;
    }
    assert(le32(le32_value(b)) =~= b);
}

/// A number of a low byte and the rest above it splits into the two again.
proof fn lemma_split_low_byte(lo: int, hi: int)
    requires
        0 <= lo < 256,
        0 <= hi,
    ensures
        (lo + 256 * hi) % 256 == lo,
        (lo + 256 * hi) / 256 == hi,
{
    assert((lo + 256 * hi) % 256 == lo && (lo + 256 * hi) / 256 == hi) by (nonlinear_arith)
        requires
            0 <= lo < 256,
            0 <= hi,
    ;
}

/// Reading entries ends behind where it began and inside the bytes.
pub proof fn lemma_parse_entries_end(plain: Seq<u8>, pos: int)
    requires
        parse_entries(plain, pos) is Ok,
    ensures
        0 <= pos < parse_entries(plain, pos).unwrap().1 <= plain.len(),
    decreases plain.len() - pos,
{
    if plain[pos] != END_FLAG {
        lemma_parse_entries_end(plain, pos + 14 + plain[pos + 1] as int);
    }
}

/// Entries that reading finds stand in the plain bytes as the headers of any
/// record list that they announce, closed by the end flag.
pub proof fn lemma_parsed_entries_are_headers(plain: Seq<u8>, pos: int, rs: Seq<Record>)
    requires
        parse_entries(plain, pos) is Ok,
        parse_entries(plain, pos).unwrap().0 == entries_of(rs),
    ensures
        0 <= pos < parse_entries(plain, pos).unwrap().1 <= plain.len(),
        parse_entries(plain, pos).unwrap().1 == pos + headers(rs).len() + 1,
        plain.subrange(pos, pos + headers(rs).len() + 1) == headers(rs) + seq![END_FLAG],
        forall|i: int|
            0 <= i < rs.len() ==> (#[trigger] rs[i]).name.len() <= 255 && rs[i].data.len()
                <= u32::MAX && rs[i].filetime.len() == 8,
    decreases plain.len() - pos,
{
    if plain[pos] == END_FLAG {
        assert(entries_of(rs).len() == 0);
        assert(plain.subrange(pos, pos + 1) =~= headers(rs) + seq![END_FLAG]);
    } else {
        let n = plain[pos + 1] as int;
        let next = pos + 14 + n;
        let first = Entry {
            name: plain.subrange(pos + 2, pos + 2 + n),
            size: le32_value(plain.subrange(pos + 2 + n, pos + 6 + n)),
            filetime: plain.subrange(pos + 6 + n, pos + 14 + n),
        };
        let more = parse_entries(plain, next).unwrap().0;
        assert(entries_of(rs) == seq![first] + more);
        assert(rs.len() > 0);
        let r = rs.first();
        let rest = rs.drop_first();
        assert(entries_of(rs)[0] == first);
        assert(entries_of(rest) =~= more) by {
            assert forall|i: int| 0 <= i < rest.len() implies entries_of(rest)[i] == more[i] by {
                assert(entries_of(rs)[i + 1] == more[i]);
            }
        }
        lemma_parsed_entries_are_headers(plain, next, rest);
        lemma_headers_first(rs);
        lemma_le32_of_value(plain.subrange(pos + 2 + n, pos + 6 + n));
        assert(record_header(r) =~= plain.subrange(pos, next));
        assert(plain.subrange(pos, pos + headers(rs).len() + 1) =~= plain.subrange(pos, next)
            + plain.subrange(next, next + headers(rest).len() + 1));
        assert(headers(rs) + seq![END_FLAG] =~= record_header(r) + (headers(rest)
            + seq![END_FLAG]));
        assert forall|i: int| 0 <= i < rs.len() implies (#[trigger] rs[i]).name.len() <= 255
            && rs[i].data.len() <= u32::MAX && rs[i].filetime.len() == 8 by {
            if i > 0 {
                assert(rs[i] == rest[i - 1]);
            }
        }
    }
}

/// Records that reading gives are announced by the entries read, and their
/// payloads stand in the plain bytes one after the other.
pub proof fn lemma_parsed_payloads_are_read(plain: Seq<u8>, pos: int, entries: Seq<Entry>)
    requires
        0 <= pos <= plain.len(),
        parse_payloads(plain, pos, entries) is Ok,
    ensures
        entries_of(parse_payloads(plain, pos, entries).unwrap()) == entries,
        pos + payloads(parse_payloads(plain, pos, entries).unwrap()).len() <= plain.len(),
        plain.subrange(pos, pos + payloads(parse_payloads(plain, pos, entries).unwrap()).len())
            == payloads(parse_payloads(plain, pos, entries).unwrap()),
    decreases entries.len(),
{
    let rs = parse_payloads(plain, pos, entries).unwrap();
    if entries.len() == 0 {
        assert(entries_of(rs) =~= entries);
        assert(plain.subrange(pos, pos) =~= payloads(rs));
    } else {
        let e = entries.first();
        let next = pos + e.size;
        let rest = parse_payloads(plain, next, entries.drop_first()).unwrap();
        lemma_parsed_payloads_are_read(plain, next, entries.drop_first());
        assert(rs.drop_first() =~= rest);
        lemma_payloads_first(rs);
        assert(entries_of(rs) =~= entries) by {
            assert forall|i: int| 0 <= i < entries.len() implies entries_of(rs)[i]
                == entries[i] by {
                if i > 0 {
                    assert(entries_of(rest)[i - 1] == entries.drop_first()[i - 1]);
                }
            }
        }
        assert(plain.subrange(pos, pos + payloads(rs).len()) =~= plain.subrange(pos, next)
            + plain.subrange(next, next + payloads(rest).len()));
    }
}

/// Reading accepts only stored forms: the records that it gives are well
/// formed, and their stored form is what the bytes open with.
pub proof fn decode_accepts_only_stored_forms(bytes: Seq<u8>)
    requires
        decoded(bytes) is Ok,
    ensures
        well_formed(decoded(bytes).unwrap()),
        encoded(decoded(bytes).unwrap()).len() <= bytes.len(),
        bytes.subrange(0, encoded(decoded(bytes).unwrap()).len() as int) == encoded(
            decoded(bytes).unwrap(),
        ),
{
    let rs = decoded(bytes).unwrap();
    let plain = obfuscated(bytes);
    let entries = parse_entries(plain, 8).unwrap().0;
    let start = parse_entries(plain, 8).unwrap().1;
    lemma_parse_entries_end(plain, 8);
    lemma_parsed_payloads_are_read(plain, start, entries);
    lemma_parsed_entries_are_headers(plain, 8, rs);
    let layout = plain_archive(rs);
    let total = layout.len() as int;
    assert(plain.subrange(0, 8) =~= magic()) by {
        assert(obfuscated(bytes.subrange(0, 8)) =~= plain.subrange(0, 8));
    }
    assert(plain.subrange(0, total) =~= layout) by {
        assert(plain.subrange(0, total) =~= plain.subrange(0, 8) + plain.subrange(8, start)
            + plain.subrange(start, total));
    }
    assert(bytes.subrange(0, total) =~= obfuscated(layout)) by {
        assert forall|i: int| 0 <= i < total implies bytes[i] == obfuscated(layout)[i] by {
            assert(layout[i] == plain[i]);
            lemma_cypher_involution(bytes[i]);
        }
    }
}

/// Round trip: reading the stored form of a well-formed archive gives the
/// archive back, with the order of its records, their names, stamps and
/// payloads.
pub proof fn round_trip(rs: Seq<Record>)
    requires
        well_formed(rs),
    ensures
        decoded(encoded(rs)) == Ok::<Seq<Record>, PakError>(rs),
{
    decode_finds_stored_prefix(rs, Seq::empty());
    assert(encoded(rs) + Seq::<u8>::empty() =~= encoded(rs));
}

/// Header gate: bytes that do not open with the magic, or are shorter than
/// it, are refused as a malformed header whatever follows.
pub proof fn header_gate(bytes: Seq<u8>)
    requires
        !has_magic(bytes),
    ensures
        decoded(bytes) == Err::<Seq<Record>, PakError>(PakError::MalformedHeader),
{
}

/// Obfuscation: every stored byte, XORed with the cypher byte, is the byte
/// that the plain layout has at that place.
pub proof fn stored_bytes_are_plain_layout_obfuscated(rs: Seq<Record>)
    ensures
        encoded(rs).len() == plain_archive(rs).len(),
        forall|i: int|
            0 <= i < encoded(rs).len() ==> #[trigger] encoded(rs)[i] ^ CYPHER_BYTE
                == plain_archive(rs)[i],
        obfuscated(encoded(rs)) == plain_archive(rs),
{
    lemma_obfuscated_twice(plain_archive(rs));
    assert forall|i: int| 0 <= i < encoded(rs).len() implies #[trigger] encoded(rs)[i]
        ^ CYPHER_BYTE == plain_archive(rs)[i] by {
        lemma_cypher_involution(plain_archive(rs)[i]);
    }
}

/// Framing: behind the magic stands the end flag where the archive is empty
/// and the entry flag where it is not.
pub proof fn framing(rs: Seq<Record>)
    ensures
        encoded(rs).len() >= 9,
        encoded(rs)[8] ^ CYPHER_BYTE == if rs.len() == 0 {
            END_FLAG
        } else {
            ENTRY_FLAG
        },
{
    stored_bytes_are_plain_layout_obfuscated(rs);
    let layout = plain_archive(rs);
    if rs.len() == 0 {
        assert(layout[8] == END_FLAG);
    } else {
        lemma_headers_first(rs);
        assert(headers(rs)[0] == record_header(rs.first())[0]);
        assert(layout[8] == headers(rs)[0]);
    }
}

/// Size law: the stored form takes 9 bytes and, for each record, 14 and the
/// lengths of its name and payload.
pub proof fn size_law(rs: Seq<Record>)
    requires
        forall|i: int| 0 <= i < rs.len() ==> (#[trigger] rs[i]).filetime.len() == 8,
    ensures
        encoded(rs).len() == 9 + records_len(rs),
        headers(rs).len() + payloads(rs).len() == records_len(rs),
    decreases rs.len(),
{
    if rs.len() > 0 {
        let front = rs.drop_last();
        assert forall|i: int| 0 <= i < front.len() implies (#[trigger] front[i]).filetime.len()
            == 8 by {
            assert(front[i] == rs[i]);
        }
        size_law(front);
        assert(rs.last() == rs[rs.len() - 1]);
    }
}

} // verus!
