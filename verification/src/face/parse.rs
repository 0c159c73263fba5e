//! Font bytes to names: the sfnt `name` table and the PostScript name a
//! face answers to.

use vstd::prelude::*;

use crate::error::Error;
use crate::text::{char_from_u32, push_char};

verus! {

/// Big-endian `u16` from two bytes.
pub open spec fn be16(hi: u8, lo: u8) -> u16 {
    (hi as int * 256 + lo as int) as u16
}

/// The big-endian `u16` at byte `at`, if two bytes are there.
pub open spec fn be16_at(bytes: Seq<u8>, at: int) -> Option<u16> {
    if 0 <= at && at + 2 <= bytes.len() {
        Some(be16(bytes[at], bytes[at + 1]))
    } else {
        None
    }
}

/// The big-endian `u16` at byte `at`, if two bytes are there.
pub fn u16_be(bytes: &[u8], at: usize) -> (r: Option<u16>)
    ensures
        r == be16_at(bytes@, at as int),
{
    if at <= bytes.len() && bytes.len() - at >= 2 {
        Some(bytes[at] as u16 * 256 + bytes[at + 1] as u16)
    } else {
        None
    }
}

pub open spec fn is_high_surrogate(u: u16) -> bool {
    0xD800 <= u <= 0xDBFF
}

pub open spec fn is_low_surrogate(u: u16) -> bool {
    0xDC00 <= u <= 0xDFFF
}

/// The scalar a surrogate pair stands for.
pub open spec fn pair_scalar(hi: u16, lo: u16) -> u32 {
    (0x10000 + (hi - 0xD800) * 0x400 + (lo - 0xDC00)) as u32
}

/// UTF-16 decoding: a high surrogate followed by a low one is one character,
/// any other surrogate makes the text invalid, every other unit is itself.
pub open spec fn utf16_decode(units: Seq<u16>) -> Option<Seq<char>>
    decreases units.len(),
{
    if units.len() == 0 {
        Some(Seq::empty())
    } else if is_high_surrogate(units[0]) {
        if units.len() >= 2 && is_low_surrogate(units[1]) {
            match utf16_decode(units.subrange(2, units.len() as int)) {
                Some(rest) => Some(seq![pair_scalar(units[0], units[1]) as char] + rest),
                None => None,
            }
        } else {
            None
        }
    } else if is_low_surrogate(units[0]) {
        None
    } else {
        match utf16_decode(units.subrange(1, units.len() as int)) {
            Some(rest) => Some(seq![units[0] as u32 as char] + rest),
            None => None,
        }
    }
}

/// The big-endian UTF-16 code units of `bytes` (an even count of bytes).
pub open spec fn be_units(bytes: Seq<u8>) -> Seq<u16> {
    Seq::new((bytes.len() / 2) as nat, |i: int| be16(bytes[2 * i], bytes[2 * i + 1]))
}

/// Name records of these platform/encoding pairs are UTF-16BE.
pub open spec fn is_unicode_record(platform: u16, encoding: u16) -> bool {
    platform == 0 || (platform == 3 && (encoding == 1 || encoding == 10))
}

/// A name string: UTF-16BE for the Unicode and Windows Unicode records,
/// otherwise ASCII; `None` when the bytes are not valid as such.
pub open spec fn decode_name_spec(platform: u16, encoding: u16, bytes: Seq<u8>) -> Option<Seq<char>> {
    if is_unicode_record(platform, encoding) {
        if bytes.len() % 2 != 0 {
            None
        } else {
            utf16_decode(be_units(bytes))
        }
    } else if forall|i: int| 0 <= i < bytes.len() ==> #[trigger] bytes[i] < 128 {
        Some(bytes.map_values(|b: u8| b as u32 as char))
    } else {
        None
    }
}

/// Decodes big-endian UTF-16 in `bytes` (an even count) into `out`.
fn decode_utf16_be(bytes: &[u8]) -> (r: Option<String>)
    requires
        bytes@.len() % 2 == 0,
    ensures
        r matches Some(s) ==> utf16_decode(be_units(bytes@)) == Some(s@),
        r is None ==> utf16_decode(be_units(bytes@)) is None,
{
    let ghost units = be_units(bytes@);
    let len = bytes.len();
    let n = len / 2;
    let mut out = String::new();
    assert(units.subrange(0, n as int) =~= units);
    assert(out@ + Seq::<char>::empty() =~= out@);
    proof {
        match utf16_decode(units) {
            Some(rest) => {
                assert(out@ + rest =~= rest);
            },
            None => {},
        }
    }
    let mut i: usize = 0;
    while i < n
        invariant
            n == units.len(),
            units == be_units(bytes@),
            bytes@.len() == 2 * n,
            len == bytes@.len(),
            i <= n,
            utf16_decode(units) == match utf16_decode(units.subrange(i as int, n as int)) {
                Some(rest) => Some(out@ + rest),
                None => None::<Seq<char>>,
            },
        decreases n - i,
    {
        let ghost tail = units.subrange(i as int, n as int);
        let u = bytes[2 * i] as u16 * 256 + bytes[2 * i + 1] as u16;
        assert(u == units[i as int]);
        assert(tail[0] == u);
        if 0xD800 <= u && u <= 0xDBFF {
            if i + 1 < n {
                let lo = bytes[2 * i + 2] as u16 * 256 + bytes[2 * i + 3] as u16;
                assert(lo == units[i + 1]);
                assert(tail[1] == lo);
                if 0xDC00 <= lo && lo <= 0xDFFF {
                    let v: u32 = 0x10000 + (u as u32 - 0xD800) * 0x400 + (lo as u32 - 0xDC00);
                    assert(v == pair_scalar(u, lo));
                    assert(vstd::utf8::is_scalar(v));
                    match char_from_u32(v) {
                        Some(c) => {
                            assert(tail.subrange(2, tail.len() as int) =~= units.subrange(i + 2, n as int));
                            let ghost before = out@;
                            push_char(&mut out, c);
                            assert(out@ == before + seq![c]);
                            proof {
                                match utf16_decode(units.subrange(i + 2, n as int)) {
                                    Some(rest) => {
                                        assert(before + (seq![c] + rest) =~= out@ + rest);
                                    },
                                    None => {},
                                }
                            }
                        },
                        None => {
                            return None;
                        },
                    }
                    i = i + 2;
                } else {
                    return None;
                }
            } else {
                return None;
            }
        } else if 0xDC00 <= u && u <= 0xDFFF {
            return None;
        } else {
            assert(vstd::utf8::is_scalar(u as u32));
            match char_from_u32(u as u32) {
                Some(c) => {
                    assert(tail.subrange(1, tail.len() as int) =~= units.subrange(i + 1, n as int));
                    let ghost before = out@;
                    push_char(&mut out, c);
                    proof {
                        match utf16_decode(units.subrange(i + 1, n as int)) {
                            Some(rest) => {
                                assert(before + (seq![c] + rest) =~= out@ + rest);
                            },
                            None => {},
                        }
                    }
                },
                None => {
                    return None;
                },
            }
            i = i + 1;
        }
    }
    assert(units.subrange(n as int, n as int) =~= Seq::<u16>::empty());
    assert(out@ + Seq::<char>::empty() =~= out@);
    Some(out)
}

/// A name string: UTF-16BE for the Unicode and Windows Unicode records,
/// otherwise ASCII; `None` when the bytes are not valid as such.
pub fn decode_name(platform: u16, encoding: u16, bytes: &[u8]) -> (r: Option<String>)
    ensures
        r matches Some(s) ==> decode_name_spec(platform, encoding, bytes@) == Some(s@),
        r is None ==> decode_name_spec(platform, encoding, bytes@) is None,
{
    if platform == 0 || (platform == 3 && (encoding == 1 || encoding == 10)) {
        if bytes.len() % 2 != 0 {
            return None;
        }
        decode_utf16_be(bytes)
    } else {
        let mut out = String::new();
        let mut i: usize = 0;
        while i < bytes.len()
            invariant
                !is_unicode_record(platform, encoding),
                i <= bytes@.len(),
                forall|k: int| 0 <= k < i ==> #[trigger] bytes@[k] < 128,
                out@ == bytes@.take(i as int).map_values(|b: u8| b as u32 as char),
            decreases bytes@.len() - i,
        {
            let b = bytes[i];
            if b >= 128 {
                assert(!(bytes@[i as int] < 128));
                return None;
            }
            assert(vstd::utf8::is_scalar(b as u32));
            match char_from_u32(b as u32) {
                Some(c) => {
                    push_char(&mut out, c);
                    assert(out@ =~= bytes@.take(i + 1).map_values(|b: u8| b as u32 as char));
                },
                None => {
                    return None;
                },
            }
            i = i + 1;
        }
        assert(bytes@.take(bytes@.len() as int) =~= bytes@);
        Some(out)
    }
}

/// Preference among name records: Windows Unicode first, then Unicode,
/// then Mac Roman, then anything else.
pub open spec fn name_rank(platform: u16, encoding: u16) -> u8 {
    if platform == 3 && (encoding == 1 || encoding == 10) {
        0
    } else if platform == 0 {
        1
    } else if platform == 1 && encoding == 0 {
        2
    } else {
        3
    }
}

/// Byte offset of name record `k`.
pub open spec fn record_at(k: int) -> int {
    6 + 12 * k
}

pub open spec fn record_field(name: Seq<u8>, k: int, field: int) -> u16 {
    be16_at(name, record_at(k) + field).unwrap()
}

/// Record `k` can be read: its platform, encoding and name id are inside
/// the table, and a PostScript-name record (id 6) also has its length,
/// offset and string inside it.
pub open spec fn record_readable(name: Seq<u8>, storage: int, k: int) -> bool {
    let rec = record_at(k);
    &&& be16_at(name, rec) is Some
    &&& be16_at(name, rec + 2) is Some
    &&& be16_at(name, rec + 6) is Some
    &&& record_field(name, k, 6) == 6 ==> {
        &&& be16_at(name, rec + 8) is Some
        &&& be16_at(name, rec + 10) is Some
        &&& storage + record_field(name, k, 10) + record_field(name, k, 8) <= name.len()
    }
}

/// The string bytes of record `k`.
pub open spec fn record_bytes(name: Seq<u8>, storage: int, k: int) -> Seq<u8> {
    let start = storage + record_field(name, k, 10);
    name.subrange(start, start + record_field(name, k, 8))
}

/// Record `k` decoded with its platform and encoding.
pub open spec fn record_text(name: Seq<u8>, storage: int, k: int) -> Option<Seq<char>> {
    decode_name_spec(record_field(name, k, 0), record_field(name, k, 2), record_bytes(name, storage, k))
}

/// Record `k` gives a PostScript name: id 6, decodable and not empty.
pub open spec fn ps_candidate(name: Seq<u8>, storage: int, k: int) -> bool {
    &&& record_field(name, k, 6) == 6
    &&& record_text(name, storage, k) matches Some(s) && s.len() > 0
}

pub open spec fn record_rank(name: Seq<u8>, k: int) -> u8 {
    name_rank(record_field(name, k, 0), record_field(name, k, 2))
}

/// Candidate `k` is preferred to candidate `j`: better rank, or the same
/// rank and earlier.
pub open spec fn preferred(name: Seq<u8>, k: int, j: int) -> bool {
    record_rank(name, k) < record_rank(name, j) || (record_rank(name, k) == record_rank(name, j)
        && k <= j)
}

/// The PostScript name (name id 6) of an sfnt `name` table: `None` when the
/// header or any record cannot be read; otherwise the text of the most
/// preferred record that decodes to a non-empty string, if any.
pub open spec fn postscript_name_spec(name: Seq<u8>, r: Option<Seq<char>>) -> bool {
    match (be16_at(name, 2), be16_at(name, 4)) {
        (Some(count), Some(storage)) => {
            if exists|k: int| 0 <= k < count && !#[trigger] record_readable(name, storage as int, k) {
                r is None
            } else if exists|k: int| 0 <= k < count && #[trigger] ps_candidate(name, storage as int, k) {
                exists|k: int|
                    #![trigger ps_candidate(name, storage as int, k)]
                    0 <= k < count && ps_candidate(name, storage as int, k) && r == record_text(
                        name,
                        storage as int,
                        k,
                    ) && forall|j: int|
                        0 <= j < count && #[trigger] ps_candidate(name, storage as int, j) ==> preferred(name, k, j)
            } else {
                r is None
            }
        },
        _ => r is None,
    }
}

pub open spec fn string_view(r: Option<String>) -> Option<Seq<char>> {
    match r {
        Some(s) => Some(s@),
        None => None,
    }
}

/// The PostScript name (name id 6) in an sfnt `name` table.
pub fn parse_postscript_name(name: &[u8]) -> (r: Option<String>)
    ensures
        postscript_name_spec(name@, string_view(r)),
{
    let count = match u16_be(name, 2) {
        Some(c) => c as usize,
        None => return None,
    };
    let storage = match u16_be(name, 4) {
        Some(c) => c as usize,
        None => return None,
    };
    let ghost nm = name@;
    let ghost st = storage as int;
    let mut best: Option<(u8, String)> = None;
    let ghost mut best_k: int = 0;
    let mut i: usize = 0;
    while i < count
        invariant
            nm == name@,
            be16_at(nm, 2) == Some(count as u16),
            be16_at(nm, 4) == Some(storage as u16),
            st == storage as int,
            count <= 65535,
            storage <= 65535,
            i <= count,
            forall|k: int| 0 <= k < i ==> #[trigger] record_readable(nm, st, k),
            best is None ==> forall|k: int| 0 <= k < i ==> !#[trigger] ps_candidate(nm, st, k),
            best matches Some((rk, s)) ==> {
                &&& 0 <= best_k < i
                &&& ps_candidate(nm, st, best_k)
                &&& record_text(nm, st, best_k) == Some(s@)
                &&& rk == record_rank(nm, best_k)
                &&& forall|j: int| 0 <= j < i && #[trigger] ps_candidate(nm, st, j) ==> preferred(nm, best_k, j)
            },
        decreases count - i,
    {
        let rec = 6 + i * 12;
        let platform = match u16_be(name, rec) {
            Some(v) => v,
            None => {
                assert(!record_readable(nm, st, i as int));
                return None;
            },
        };
        let encoding = match u16_be(name, rec + 2) {
            Some(v) => v,
            None => {
                assert(!record_readable(nm, st, i as int));
                return None;
            },
        };
        let name_id = match u16_be(name, rec + 6) {
            Some(v) => v,
            None => {
                assert(!record_readable(nm, st, i as int));
                return None;
            },
        };
        if name_id == 6 {
            let len = match u16_be(name, rec + 8) {
                Some(v) => v as usize,
                None => {
                    assert(!record_readable(nm, st, i as int));
                    return None;
                },
            };
            let off = match u16_be(name, rec + 10) {
                Some(v) => v as usize,
                None => {
                    assert(!record_readable(nm, st, i as int));
                    return None;
                },
            };
            let start = storage + off;
            let end = start + len;
            if end > name.len() {
                assert(!record_readable(nm, st, i as int));
                return None;
            }
            assert(record_readable(nm, st, i as int));
            let bytes = vstd::slice::slice_subrange(name, start, end);
            assert(bytes@ == record_bytes(nm, st, i as int));
            let rank: u8 = if platform == 3 && (encoding == 1 || encoding == 10) {
                0
            } else if platform == 0 {
                1
            } else if platform == 1 && encoding == 0 {
                2
            } else {
                3
            };
            assert(rank == record_rank(nm, i as int));
            match decode_name(platform, encoding, bytes) {
                Some(s) => {
                    if !s.as_str().is_empty() {
                        assert(ps_candidate(nm, st, i as int));
                        let better = match &best {
                            Some((r0, _)) => rank < *r0,
                            None => true,
                        };
                        if better {
                            best = Some((rank, s));
                            proof {
                                best_k = i as int;
                            }
                        }
                    } else {
                        assert(!ps_candidate(nm, st, i as int));
                    }
                },
                None => {
                    assert(!ps_candidate(nm, st, i as int));
                },
            }
        } else {
            assert(record_readable(nm, st, i as int));
            assert(!ps_candidate(nm, st, i as int));
        }
        i = i + 1;
    }
    match best {
        Some((_, s)) => Some(s),
        None => None,
    }
}

/// Whether `bytes` hold an sfnt font, or a collection with a font, at
/// `index`, as the font reader opens it.
pub uninterp spec fn sfnt_opens(bytes: Seq<u8>, index: u32) -> bool;

/// The data of the table tagged `tag` in the font at `index`, when the
/// table directory has such a table.
pub uninterp spec fn sfnt_table(bytes: Seq<u8>, index: u32, tag: Seq<u8>) -> Option<Seq<u8>>;

/// The tag of the naming table.
pub open spec fn name_tag() -> Seq<u8> {
    seq![0x6eu8, 0x61u8, 0x6du8, 0x65u8]
}

/// Opens the font at `index` of `bytes` with `harfrust::FontRef::from_index`
/// and reads the table `tag` with `FontRef::table_data`. Claims only that
/// the outer `None` is exactly a refusal to open, and that the table bytes
/// are the named result of the two calls on these arguments.
#[verifier::external_body]
pub(crate) fn font_table(bytes: &[u8], index: u32, tag: [u8; 4]) -> (r: Option<Option<Vec<u8>>>)
    ensures
        r is Some <==> sfnt_opens(bytes@, index),
        r matches Some(Some(v)) ==> sfnt_table(bytes@, index, tag@) == Some(v@),
        r matches Some(None) ==> sfnt_table(bytes@, index, tag@) is None,
{
    match harfrust::FontRef::from_index(bytes, index) {
        Ok(font) => match font.table_data(harfrust::Tag::new(&tag)) {
            Some(data) => Some(Some(data.as_bytes().to_vec())),
            None => Some(None),
        },
        Err(_) => None,
    }
}

/// The PostScript name of the face at `index` of a font file or collection,
/// read from the directory before decoding any glyph. A file that does not
/// open there is [`Error::Font`]; a face without a usable name gives `None`.
pub fn name_at(bytes: &[u8], index: u32) -> (r: Result<Option<String>, Error>)
    ensures
        !sfnt_opens(bytes@, index) ==> r matches Err(Error::Font),
        sfnt_opens(bytes@, index) ==> (r matches Ok(n) && match sfnt_table(bytes@, index, name_tag()) {
            Some(table) => postscript_name_spec(table, string_view(n)),
            None => n is None,
        }),
{
    let tag: [u8; 4] = [0x6e, 0x61, 0x6d, 0x65];
    assert(tag@ == name_tag());
    match font_table(bytes, index, tag) {
        None => Err(Error::Font),
        Some(None) => Ok(None),
        Some(Some(table)) => Ok(parse_postscript_name(table.as_slice())),
    }
}

/// The record a readable table's PostScript name comes from: when a
/// Windows Unicode record (platform 3, encoding 1 or 10) gives a name, the
/// name comes from such a record; otherwise, when a Unicode-platform record
/// (platform 0) gives one, it comes from a platform 0 record, never from a
/// Mac Roman or other record; and when a Mac Roman record (1, 0) gives one,
/// it comes from a record of one of these three.
pub proof fn lemma_name_platform_preference(name: Seq<u8>, r: Option<Seq<char>>, count: u16, storage: u16, u: int)
    requires
        postscript_name_spec(name, r),
        be16_at(name, 2) == Some(count),
        be16_at(name, 4) == Some(storage),
        forall|k: int| 0 <= k < count ==> #[trigger] record_readable(name, storage as int, k),
        0 <= u < count,
        ps_candidate(name, storage as int, u),
    ensures
        exists|k: int|
            #![trigger ps_candidate(name, storage as int, k)]
            0 <= k < count && ps_candidate(name, storage as int, k) && r == record_text(name, storage as int, k)
                && {
                let (p, e) = (record_field(name, k, 0), record_field(name, k, 2));
                let (pu, eu) = (record_field(name, u, 0), record_field(name, u, 2));
                &&& (pu == 3 && (eu == 1 || eu == 10)) ==> (p == 3 && (e == 1 || e == 10))
                &&& pu == 0 ==> (p == 0 || (p == 3 && (e == 1 || e == 10)))
                &&& (pu == 1 && eu == 0) ==> (p == 0 || (p == 1 && e == 0) || (p == 3 && (e == 1
                    || e == 10)))
            },
{
    assert(!exists|k: int| 0 <= k < count && !#[trigger] record_readable(name, storage as int, k));
    let k = choose|k: int|
        #![trigger ps_candidate(name, storage as int, k)]
        0 <= k < count && ps_candidate(name, storage as int, k) && r == record_text(name, storage as int, k)
            && forall|j: int|
            0 <= j < count && #[trigger] ps_candidate(name, storage as int, j) ==> preferred(name, k, j);
    assert(preferred(name, k, u));
}

} // verus!
