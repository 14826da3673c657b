//! The Windows Shell Link binary structure: a fixed 76-byte header, an
//! optional id list, an optional LinkInfo block, and a StringData section
//! whose strings are counted and encoded either in UTF-16 or in the
//! single-byte Windows-1252 code page.
//!
//! The parser accepts exactly the well-formed structure and decodes the two
//! strings the classifier needs: the icon location from StringData and the
//! link target assembled from the LinkInfo base path and common path suffix.
//! All decoded strings are handed out as UTF-8 bytes. Validation covers the
//! header, the id list's size, the LinkInfo block and the StringData
//! strings; whatever follows the last string, such as an extra-data section,
//! is ignored.

use vstd::prelude::*;

use crate::bytes::{spec_le16, spec_le32, read_le16, read_le32};

verus! {

/// The code point a Windows-1252 byte stands for. The range `0x80..0xA0`
/// holds the punctuation and letter block, and the five holes in it map to
/// the matching control characters, so every byte decodes.
pub open spec fn win1252_cp(b: u8) -> int {
    if b < 0x80 || b >= 0xa0 {
        b as int
    } else if b == 0x80 {
        0x20ac
    } else if b == 0x82 {
        0x201a
    } else if b == 0x83 {
        0x192
    } else if b == 0x84 {
        0x201e
    } else if b == 0x85 {
        0x2026
    } else if b == 0x86 {
        0x2020
    } else if b == 0x87 {
        0x2021
    } else if b == 0x88 {
        0x2c6
    } else if b == 0x89 {
        0x2030
    } else if b == 0x8a {
        0x160
    } else if b == 0x8b {
        0x2039
    } else if b == 0x8c {
        0x152
    } else if b == 0x8e {
        0x17d
    } else if b == 0x91 {
        0x2018
    } else if b == 0x92 {
        0x2019
    } else if b == 0x93 {
        0x201c
    } else if b == 0x94 {
        0x201d
    } else if b == 0x95 {
        0x2022
    } else if b == 0x96 {
        0x2013
    } else if b == 0x97 {
        0x2014
    } else if b == 0x98 {
        0x2dc
    } else if b == 0x99 {
        0x2122
    } else if b == 0x9a {
        0x161
    } else if b == 0x9b {
        0x203a
    } else if b == 0x9c {
        0x153
    } else if b == 0x9e {
        0x17e
    } else if b == 0x9f {
        0x178
    } else {
        b as int
    }
}

fn win1252_cp_exec(b: u8) -> (r: u32)
    ensures
        r == win1252_cp(b),
{
    if b < 0x80 || b >= 0xa0 {
        b as u32
    } else if b == 0x80 {
        0x20ac
    } else if b == 0x82 {
        0x201a
    } else if b == 0x83 {
        0x192
    } else if b == 0x84 {
        0x201e
    } else if b == 0x85 {
        0x2026
    } else if b == 0x86 {
        0x2020
    } else if b == 0x87 {
        0x2021
    } else if b == 0x88 {
        0x2c6
    } else if b == 0x89 {
        0x2030
    } else if b == 0x8a {
        0x160
    } else if b == 0x8b {
        0x2039
    } else if b == 0x8c {
        0x152
    } else if b == 0x8e {
        0x17d
    } else if b == 0x91 {
        0x2018
    } else if b == 0x92 {
        0x2019
    } else if b == 0x93 {
        0x201c
    } else if b == 0x94 {
        0x201d
    } else if b == 0x95 {
        0x2022
    } else if b == 0x96 {
        0x2013
    } else if b == 0x97 {
        0x2014
    } else if b == 0x98 {
        0x2dc
    } else if b == 0x99 {
        0x2122
    } else if b == 0x9a {
        0x161
    } else if b == 0x9b {
        0x203a
    } else if b == 0x9c {
        0x153
    } else if b == 0x9e {
        0x17e
    } else if b == 0x9f {
        0x178
    } else {
        b as u32
    }
}

/// The UTF-8 encoding of one code point.
pub open spec fn utf8_enc(cp: int) -> Seq<u8> {
    if cp < 0x80 {
        seq![cp as u8]
    } else if cp < 0x800 {
        seq![(0xc0 + cp / 0x40) as u8, (0x80 + cp % 0x40) as u8]
    } else if cp < 0x10000 {
        seq![
            (0xe0 + cp / 0x1000) as u8,
            (0x80 + (cp / 0x40) % 0x40) as u8,
            (0x80 + cp % 0x40) as u8,
        ]
    } else {
        seq![
            (0xf0 + cp / 0x40000) as u8,
            (0x80 + (cp / 0x1000) % 0x40) as u8,
            (0x80 + (cp / 0x40) % 0x40) as u8,
            (0x80 + cp % 0x40) as u8,
        ]
    }
}

/// Appends the UTF-8 encoding of `cp`.
fn push_utf8(out: &mut Vec<u8>, cp: u32)
    requires
        cp < 0x110000,
    ensures
        final(out)@ == old(out)@ + utf8_enc(cp as int),
{
    if cp < 0x80 {
        out.push(cp as u8);
        proof {
            assert(out@ =~= old(out)@ + utf8_enc(cp as int));
        }
    } else if cp < 0x800 {
        proof {
            assert(cp / 0x40 < 0x20) by (nonlinear_arith)
                requires
                    cp < 0x800,
            ;
        }
        out.push((0xc0 + cp / 0x40) as u8);
        out.push((0x80 + cp % 0x40) as u8);
        proof {
            assert(out@ =~= old(out)@ + utf8_enc(cp as int));
        }
    } else if cp < 0x10000 {
        proof {
            assert(cp / 0x1000 < 0x10) by (nonlinear_arith)
                requires
                    cp < 0x10000,
            ;
        }
        out.push((0xe0 + cp / 0x1000) as u8);
        out.push((0x80 + (cp / 0x40) % 0x40) as u8);
        out.push((0x80 + cp % 0x40) as u8);
        proof {
            assert(out@ =~= old(out)@ + utf8_enc(cp as int));
        }
    } else {
        proof {
            assert(cp / 0x40000 < 0x8) by (nonlinear_arith)
                requires
                    cp < 0x110000,
            ;
        }
        out.push((0xf0 + cp / 0x40000) as u8);
        out.push((0x80 + (cp / 0x1000) % 0x40) as u8);
        out.push((0x80 + (cp / 0x40) % 0x40) as u8);
        out.push((0x80 + cp % 0x40) as u8);
        proof {
            assert(out@ =~= old(out)@ + utf8_enc(cp as int));
        }
    }
}

/// The UTF-8 form of a Windows-1252 byte string. Total: every byte decodes.
pub open spec fn spec_decode_ansi(s: Seq<u8>) -> Seq<u8>
    decreases s.len(),
{
    if s.len() == 0 {
        Seq::empty()
    } else {
        utf8_enc(win1252_cp(s.first())) + spec_decode_ansi(s.drop_first())
    }
}

proof fn lemma_decode_ansi_push(s: Seq<u8>, x: u8)
    ensures
        spec_decode_ansi(s.push(x)) == spec_decode_ansi(s) + utf8_enc(win1252_cp(x)),
    decreases s.len(),
{
    if s.len() == 0 {
        assert(s.push(x).first() == x);
        assert(s.push(x).drop_first() =~= Seq::<u8>::empty());
        assert(spec_decode_ansi(s.push(x)) == utf8_enc(win1252_cp(x)) + spec_decode_ansi(
            Seq::<u8>::empty(),
        ));
        assert(spec_decode_ansi(s.push(x)) =~= spec_decode_ansi(s) + utf8_enc(win1252_cp(x)));
    } else {
        assert(s.push(x).first() == s.first());
        assert(s.push(x).drop_first() =~= s.drop_first().push(x));
        lemma_decode_ansi_push(s.drop_first(), x);
        assert(spec_decode_ansi(s.push(x)) == utf8_enc(win1252_cp(s.first())) + spec_decode_ansi(
            s.drop_first().push(x),
        ));
        assert(spec_decode_ansi(s.push(x)) =~= spec_decode_ansi(s) + utf8_enc(win1252_cp(x)));
    }
}

/// Decodes a Windows-1252 byte string to UTF-8.
pub fn decode_ansi(s: &Vec<u8>) -> (r: Vec<u8>)
    ensures
        r@ == spec_decode_ansi(s@),
{
    let mut r: Vec<u8> = Vec::new();
    let mut i: usize = 0;
    proof {
        assert(s@.take(0) =~= Seq::<u8>::empty());
    }
    while i < s.len()
        invariant
            i <= s@.len(),
            r@ == spec_decode_ansi(s@.take(i as int)),
        decreases s@.len() - i,
    {
        let cp = win1252_cp_exec(s[i]);
        push_utf8(&mut r, cp);
        i = i + 1;
        proof {
            assert(s@.take(i as int) =~= s@.take(i as int - 1).push(s@[i as int - 1]));
            lemma_decode_ansi_push(s@.take(i as int - 1), s@[i as int - 1]);
        }
    }
    proof {
        assert(s@.take(s@.len() as int) =~= s@);
    }
    r
}

/// The UTF-8 form of a UTF-16 little-endian byte string, or nothing when a
/// surrogate is unpaired or a code unit is cut short.
pub open spec fn spec_decode_utf16(s: Seq<u8>) -> Option<Seq<u8>>
    decreases s.len(),
{
    if s.len() == 0 {
        Some(Seq::empty())
    } else if s.len() == 1 {
        None
    } else {
        let u = spec_le16(s, 0);
        if 0xd800 <= u < 0xdc00 {
            if s.len() < 4 {
                None
            } else {
                let u2 = spec_le16(s, 2);
                if 0xdc00 <= u2 < 0xe000 {
                    let cp = 0x10000 + (u - 0xd800) * 0x400 + (u2 - 0xdc00);
                    match spec_decode_utf16(s.skip(4)) {
                        Some(t) => Some(utf8_enc(cp) + t),
                        None => None,
                    }
                } else {
                    None
                }
            }
        } else if 0xdc00 <= u < 0xe000 {
            None
        } else {
            match spec_decode_utf16(s.skip(2)) {
                Some(t) => Some(utf8_enc(u) + t),
                None => None,
            }
        }
    }
}

/// Decodes a UTF-16 little-endian byte string to UTF-8; unpaired surrogates
/// refuse the whole string.
pub fn decode_utf16(s: &Vec<u8>) -> (r: Option<Vec<u8>>)
    ensures
        match r {
            Some(v) => spec_decode_utf16(s@) == Some(v@),
            None => spec_decode_utf16(s@) is None,
        },
{
    let n: usize = s.len();
    let mut out: Vec<u8> = Vec::new();
    let mut i: usize = 0;
    proof {
        assert(s@.skip(0) =~= s@);
        assert forall|t: Seq<u8>| spec_decode_utf16(s@.skip(0)) == Some(t) implies spec_decode_utf16(
            s@,
        ) == Some(out@ + t) by {
            assert(out@ + t =~= t);
        };
    }
    while i < n
        invariant
            i <= n,
            n == s@.len(),
            forall|t: Seq<u8>|
                spec_decode_utf16(s@.skip(i as int)) == Some(t) ==> spec_decode_utf16(s@) == Some(
                    out@ + t,
                ),
            (spec_decode_utf16(s@.skip(i as int)) is None) ==> (spec_decode_utf16(s@) is None),
        decreases n - i,
    {
        let ghost suffix = s@.skip(i as int);
        if i + 1 == n {
            proof {
                assert(suffix.len() == 1);
            }
            return None;
        }
        let u = read_le16(s, i);
        proof {
            assert(spec_le16(suffix, 0) == spec_le16(s@, i as int));
        }
        if 0xd800 <= u && u < 0xdc00 {
            if n - i < 4 {
                proof {
                    assert(suffix.len() < 4);
                }
                return None;
            }
            let u2 = read_le16(s, i + 2);
            proof {
                assert(spec_le16(suffix, 2) == spec_le16(s@, i as int + 2));
            }
            if 0xdc00 <= u2 && u2 < 0xe000 {
                let cp: u32 = 0x10000 + (u as u32 - 0xd800) * 0x400 + (u2 as u32 - 0xdc00);
                let ghost prev = out@;
                push_utf8(&mut out, cp);
                proof {
                    assert(suffix.skip(4) =~= s@.skip(i as int + 4));
                }
                i = i + 4;
                proof {
                    assert forall|t: Seq<u8>|
                        spec_decode_utf16(s@.skip(i as int)) == Some(t) implies spec_decode_utf16(
                        s@,
                    ) == Some(out@ + t) by {
                        assert(spec_decode_utf16(suffix) == Some(utf8_enc(cp as int) + t));
                        assert(prev + (utf8_enc(cp as int) + t) =~= out@ + t);
                    };
                    assert((spec_decode_utf16(s@.skip(i as int)) is None) ==> (spec_decode_utf16(
                        suffix,
                    ) is None));
                }
            } else {
                return None;
            }
        } else if 0xdc00 <= u && u < 0xe000 {
            return None;
        } else {
            let ghost prev = out@;
            push_utf8(&mut out, u as u32);
            proof {
                assert(suffix.skip(2) =~= s@.skip(i as int + 2));
            }
            i = i + 2;
            proof {
                assert forall|t: Seq<u8>|
                    spec_decode_utf16(s@.skip(i as int)) == Some(t) implies spec_decode_utf16(s@)
                    == Some(out@ + t) by {
                    assert(spec_decode_utf16(suffix) == Some(utf8_enc(u as int) + t));
                    assert(prev + (utf8_enc(u as int) + t) =~= out@ + t);
                };
                assert((spec_decode_utf16(s@.skip(i as int)) is None) ==> (spec_decode_utf16(
                    suffix,
                ) is None));
            }
        }
    }
    proof {
        assert(s@.skip(n as int) =~= Seq::<u8>::empty());
        assert(spec_decode_utf16(s@.skip(n as int)) == Some(Seq::<u8>::empty()));
        assert(out@ + Seq::<u8>::empty() =~= out@);
    }
    Some(out)
}

/// The position of the first NUL byte at or after `from`.
pub open spec fn nul_end(s: Seq<u8>, from: int) -> Option<int>
    decreases s.len() - from,
{
    if from < 0 || from >= s.len() {
        None
    } else if s[from] == 0 {
        Some(from)
    } else {
        nul_end(s, from + 1)
    }
}

/// Finds the first NUL byte at or after `from`.
pub fn find_nul(s: &Vec<u8>, from: usize) -> (r: Option<usize>)
    ensures
        match r {
            Some(e) => nul_end(s@, from as int) == Some(e as int) && from <= e < s@.len(),
            None => nul_end(s@, from as int) is None,
        },
{
    let n: usize = s.len();
    let mut i: usize = from;
    if i > n {
        return None;
    }
    while i < n
        invariant
            from <= i <= n,
            n == s@.len(),
            nul_end(s@, from as int) == nul_end(s@, i as int),
        decreases n - i,
    {
        if s[i] == 0 {
            return Some(i);
        }
        i = i + 1;
    }
    None
}

/// The position of the first NUL code unit at or after `from`, stepping in
/// whole little-endian 16-bit units.
pub open spec fn nul16_end(s: Seq<u8>, from: int) -> Option<int>
    decreases s.len() - from,
{
    if from < 0 || from + 2 > s.len() {
        None
    } else if spec_le16(s, from) == 0 {
        Some(from)
    } else {
        nul16_end(s, from + 2)
    }
}

/// Whether the bit with value `b` (a power of two) is set in `flags`.
pub open spec fn fbit(flags: int, b: int) -> bool {
    (flags / b) % 2 == 1
}

fn flag_bit(flags: u32, b: u32) -> (r: bool)
    requires
        b >= 1,
    ensures
        r == fbit(flags as int, b as int),
{
    (flags / b) % 2 == 1
}

/// Finds the first NUL 16-bit unit at or after `from`.
pub fn find_nul16(s: &Vec<u8>, from: usize) -> (r: Option<usize>)
    ensures
        match r {
            Some(e) => nul16_end(s@, from as int) == Some(e as int) && from <= e && e + 2
                <= s@.len(),
            None => nul16_end(s@, from as int) is None,
        },
{
    let n: usize = s.len();
    let mut i: usize = from;
    if i > n || n - i < 2 {
        return None;
    }
    while n - i >= 2
        invariant
            from <= i <= n,
            n == s@.len(),
            nul16_end(s@, from as int) == nul16_end(s@, i as int),
        decreases n - i,
    {
        if read_le16(s, i) == 0 {
            return Some(i);
        }
        i = i + 2;
    }
    None
}

/// The class identifier every Shell Link header carries, as stored.
pub open spec fn clsid_seq() -> Seq<u8> {
    seq![
        0x01u8,
        0x14u8,
        0x02u8,
        0x00u8,
        0x00u8,
        0x00u8,
        0x00u8,
        0x00u8,
        0xc0u8,
        0x00u8,
        0x00u8,
        0x00u8,
        0x00u8,
        0x00u8,
        0x00u8,
        0x46u8,
    ]
}

/// The header flags word.
pub open spec fn spec_flags(d: Seq<u8>) -> int {
    spec_le32(d, 20)
}

/// The 76-byte header is sound: magic size, the fixed class identifier, no
/// unknown flag or attribute bits, a known show command, modifier bits only
/// in the hotkey high byte, and zero reserved words.
pub open spec fn spec_header_ok(d: Seq<u8>) -> bool {
    &&& d.len() >= 76
    &&& spec_le32(d, 0) == 0x4c
    &&& d.subrange(4, 20) == clsid_seq()
    &&& spec_le32(d, 20) < 0x08000000
    &&& spec_le32(d, 24) < 0x8000
    &&& (spec_le32(d, 60) == 1 || spec_le32(d, 60) == 3 || spec_le32(d, 60) == 7)
    &&& d[65] <= 7
    &&& spec_le16(d, 66) == 0
    &&& spec_le32(d, 68) == 0
    &&& spec_le32(d, 72) == 0
}

/// Position after the optional id list.
pub open spec fn spec_after_idlist(d: Seq<u8>) -> Option<int> {
    if !fbit(spec_flags(d), 1) {
        Some(76)
    } else if d.len() < 78 {
        None
    } else if 78 + spec_le16(d, 76) <= d.len() {
        Some(78 + spec_le16(d, 76))
    } else {
        None
    }
}

/// The decoded NUL-terminated code-page string at `p`.
pub open spec fn ansi_val(d: Seq<u8>, p: int) -> Seq<u8> {
    spec_decode_ansi(d.subrange(p, nul_end(d, p).unwrap()))
}

/// The decoded NUL-terminated UTF-16 string at `p`, or nothing when it has
/// no terminator or does not decode.
pub open spec fn utf16_val_at(d: Seq<u8>, p: int) -> Option<Seq<u8>> {
    match nul16_end(d, p) {
        None => None,
        Some(e) => spec_decode_utf16(d.subrange(p, e)),
    }
}

/// The volume block is sound: size and label offset in range and the label
/// string present.
pub open spec fn spec_volume_ok(d: Seq<u8>, v: int) -> bool {
    &&& v + 16 <= d.len()
    &&& spec_le32(d, v) > 0x10
    &&& spec_le32(d, v + 12) < spec_le32(d, v)
    &&& if spec_le32(d, v + 12) == 0x14 {
        v + 20 <= d.len() && utf16_val_at(d, v + spec_le32(d, v + 16)) is Some
    } else {
        nul_end(d, v + spec_le32(d, v + 12)) is Some
    }
}

/// The network-relative block is sound, with its name strings present.
pub open spec fn spec_cnrl_ok(d: Seq<u8>, c: int) -> bool {
    &&& c + 20 <= d.len()
    &&& spec_le32(d, c) >= 0x14
    &&& spec_le32(d, c + 4) < 4
    &&& spec_le32(d, c + 8) < spec_le32(d, c)
    &&& if fbit(spec_le32(d, c + 4), 1) {
        spec_le32(d, c + 12) > 0 && spec_le32(d, c + 12) < spec_le32(d, c) && nul_end(
            d,
            c + spec_le32(d, c + 12),
        ) is Some
    } else {
        spec_le32(d, c + 12) == 0
    }
    &&& nul_end(d, c + spec_le32(d, c + 8)) is Some
    &&& (spec_le32(d, c + 8) > 0x14 ==> c + 28 <= d.len() && utf16_val_at(
        d,
        c + spec_le32(d, c + 20),
    ) is Some)
}

/// The network share name the block declares.
pub open spec fn net_name_val(d: Seq<u8>, c: int) -> Seq<u8> {
    if spec_le32(d, c + 8) > 0x14 {
        utf16_val_at(d, c + spec_le32(d, c + 20)).unwrap()
    } else {
        ansi_val(d, c + spec_le32(d, c + 8))
    }
}

/// The unicode tail of the LinkInfo header is sound, with its strings
/// present and decodable.
pub open spec fn spec_li_unicode_ok(d: Seq<u8>, li: int) -> bool {
    &&& li + 36 <= d.len()
    &&& if fbit(spec_le32(d, li + 8), 1) {
        spec_le32(d, li + 28) >= spec_le32(d, li + 4) && spec_le32(d, li + 28) < spec_le32(d, li)
            && utf16_val_at(d, li + spec_le32(d, li + 28)) is Some
    } else {
        spec_le32(d, li + 28) == 0
    }
    &&& spec_le32(d, li + 32) > spec_le32(d, li + 4)
    &&& spec_le32(d, li + 32) < spec_le32(d, li)
    &&& utf16_val_at(d, li + spec_le32(d, li + 32)) is Some
}

/// The whole LinkInfo block is sound.
pub open spec fn spec_linkinfo_ok(d: Seq<u8>, li: int) -> bool {
    &&& li + 28 <= d.len()
    &&& li + spec_le32(d, li) <= d.len()
    &&& spec_le32(d, li + 8) < 4
    &&& if fbit(spec_le32(d, li + 8), 1) {
        &&& spec_le32(d, li + 12) >= spec_le32(d, li + 4)
        &&& spec_le32(d, li + 12) < spec_le32(d, li)
        &&& spec_le32(d, li + 16) >= spec_le32(d, li + 4)
        &&& spec_le32(d, li + 16) < spec_le32(d, li)
        &&& spec_volume_ok(d, li + spec_le32(d, li + 12))
        &&& nul_end(d, li + spec_le32(d, li + 16)) is Some
    } else {
        spec_le32(d, li + 12) == 0 && spec_le32(d, li + 16) == 0
    }
    &&& if fbit(spec_le32(d, li + 8), 2) {
        &&& spec_le32(d, li + 20) >= spec_le32(d, li + 4)
        &&& spec_le32(d, li + 20) < spec_le32(d, li)
        &&& spec_cnrl_ok(d, li + spec_le32(d, li + 20))
    } else {
        spec_le32(d, li + 20) == 0
    }
    &&& spec_le32(d, li + 24) >= spec_le32(d, li + 4)
    &&& spec_le32(d, li + 24) < spec_le32(d, li)
    &&& nul_end(d, li + spec_le32(d, li + 24)) is Some
    &&& (spec_le32(d, li + 4) >= 0x24 ==> spec_li_unicode_ok(d, li))
}

/// Base path and suffix joined by exactly one backslash; an empty suffix
/// leaves the base untouched.
pub open spec fn join_target(b: Seq<u8>, sfx: Seq<u8>) -> Seq<u8> {
    if sfx.len() == 0 {
        b
    } else if b.len() > 0 && b.last() == 92 {
        b + sfx
    } else {
        b + seq![92u8] + sfx
    }
}

/// The link target a sound LinkInfo block declares: the network share name
/// or the local base path, joined with the common path suffix; nothing when
/// the block carries neither.
pub open spec fn spec_li_target(d: Seq<u8>, li: int) -> Option<Seq<u8>> {
    let hsize = spec_le32(d, li + 4);
    let lflags = spec_le32(d, li + 8);
    let sfx = if hsize >= 0x24 {
        utf16_val_at(d, li + spec_le32(d, li + 32)).unwrap()
    } else {
        ansi_val(d, li + spec_le32(d, li + 24))
    };
    if fbit(lflags, 2) {
        Some(join_target(net_name_val(d, li + spec_le32(d, li + 20)), sfx))
    } else if fbit(lflags, 1) {
        let base = if hsize >= 0x24 {
            utf16_val_at(d, li + spec_le32(d, li + 28)).unwrap()
        } else {
            ansi_val(d, li + spec_le32(d, li + 16))
        };
        Some(join_target(base, sfx))
    } else {
        None
    }
}

/// Position after the optional LinkInfo block.
pub open spec fn spec_after_linkinfo(d: Seq<u8>) -> Option<int> {
    match spec_after_idlist(d) {
        None => None,
        Some(p) => if !fbit(spec_flags(d), 2) {
            Some(p)
        } else if spec_linkinfo_ok(d, p) {
            Some(p + spec_le32(d, p))
        } else {
            None
        },
    }
}

/// End of the counted string at `pos`.
pub open spec fn spec_str_end(d: Seq<u8>, pos: int, unicode: bool) -> Option<int> {
    if pos + 2 > d.len() {
        None
    } else {
        let nb = if unicode {
            2 * spec_le16(d, pos)
        } else {
            spec_le16(d, pos)
        };
        if pos + 2 + nb <= d.len() {
            Some(pos + 2 + nb)
        } else {
            None
        }
    }
}

/// The decoded counted string at `pos`; code-page strings always decode,
/// UTF-16 ones may not.
pub open spec fn spec_str_val(d: Seq<u8>, pos: int, unicode: bool) -> Option<Seq<u8>> {
    let nb = if unicode {
        2 * spec_le16(d, pos)
    } else {
        spec_le16(d, pos)
    };
    if unicode {
        spec_decode_utf16(d.subrange(pos + 2, pos + 2 + nb))
    } else {
        Some(spec_decode_ansi(d.subrange(pos + 2, pos + 2 + nb)))
    }
}

/// The flag bit guarding the `k`-th StringData string, in file order.
pub open spec fn sd_flag_div(k: int) -> int {
    if k == 0 {
        4
    } else if k == 1 {
        8
    } else if k == 2 {
        16
    } else if k == 3 {
        32
    } else {
        64
    }
}

/// Position after the first `k` StringData strings.
pub open spec fn spec_sd_pos(d: Seq<u8>, k: int) -> Option<int>
    decreases k,
{
    if k <= 0 {
        spec_after_linkinfo(d)
    } else {
        match spec_sd_pos(d, k - 1) {
            None => None,
            Some(p) => if !fbit(spec_flags(d), sd_flag_div(k - 1)) {
                Some(p)
            } else {
                match spec_str_end(d, p, fbit(spec_flags(d), 128)) {
                    None => None,
                    Some(e) => if spec_str_val(d, p, fbit(spec_flags(d), 128)) is Some {
                        Some(e)
                    } else {
                        None
                    },
                }
            },
        }
    }
}

/// The whole file is a structurally sound Shell Link.
pub open spec fn spec_link_parses(d: Seq<u8>) -> bool {
    spec_header_ok(d) && spec_sd_pos(d, 5) is Some
}

proof fn lemma_sd_pos_stuck(d: Seq<u8>, k: int)
    requires
        0 <= k <= 5,
        spec_sd_pos(d, k) is None,
    ensures
        spec_sd_pos(d, 5) is None,
    decreases 5 - k,
{
    if k < 5 {
        assert(spec_sd_pos(d, k + 1) is None);
        lemma_sd_pos_stuck(d, k + 1);
    }
}

/// Validates the fixed header.
fn check_header(d: &Vec<u8>) -> (r: bool)
    ensures
        r == spec_header_ok(d@),
{
    let n: usize = d.len();
    if n < 76 {
        return false;
    }
    if read_le32(d, 0) != 0x4c {
        return false;
    }
    let clsid = crate::bytes::sub_bytes(d, 4, 20);
    let mut want: Vec<u8> = Vec::new();
    want.push(0x01);
    want.push(0x14);
    want.push(0x02);
    want.push(0x00);
    want.push(0x00);
    want.push(0x00);
    want.push(0x00);
    want.push(0x00);
    want.push(0xc0);
    want.push(0x00);
    want.push(0x00);
    want.push(0x00);
    want.push(0x00);
    want.push(0x00);
    want.push(0x00);
    want.push(0x46);
    proof {
        assert(want@ =~= clsid_seq());
    }
    if !crate::bytes::bytes_eq(&clsid, &want) {
        return false;
    }
    let flags = read_le32(d, 20);
    if flags >= 0x08000000 {
        return false;
    }
    let attrs = read_le32(d, 24);
    if attrs >= 0x8000 {
        return false;
    }
    let show = read_le32(d, 60);
    if show != 1 && show != 3 && show != 7 {
        return false;
    }
    if d[65] > 7 {
        return false;
    }
    if read_le16(d, 66) != 0 || read_le32(d, 68) != 0 || read_le32(d, 72) != 0 {
        return false;
    }
    true
}

/// The icon-location string the link declares, decoded; nothing when the
/// header does not flag one. Meaningful on a sound link.
pub open spec fn spec_link_icon_location(d: Seq<u8>) -> Option<Seq<u8>> {
    if !fbit(spec_flags(d), 64) {
        None
    } else {
        Some(spec_str_val(d, spec_sd_pos(d, 4).unwrap(), fbit(spec_flags(d), 128)).unwrap())
    }
}

/// The link target the link declares, decoded; nothing when there is no
/// LinkInfo block or it names no path. Meaningful on a sound link.
pub open spec fn spec_link_target(d: Seq<u8>) -> Option<Seq<u8>> {
    if !fbit(spec_flags(d), 2) {
        None
    } else {
        spec_li_target(d, spec_after_idlist(d).unwrap())
    }
}

/// The view of an optional byte string.
pub open spec fn opt_bytes(o: Option<Vec<u8>>) -> Option<Seq<u8>> {
    match o {
        Some(v) => Some(v@),
        None => None,
    }
}

/// `base + off` as a position, refused when it passes the end of the data.
fn off_at(base: usize, off: u32, n: usize) -> (r: Option<usize>)
    requires
        base <= n,
    ensures
        match r {
            Some(p) => p == base + off && p <= n,
            None => base + off > n,
        },
{
    let sum: u128 = base as u128 + off as u128;
    if sum > n as u128 {
        None
    } else {
        Some(sum as usize)
    }
}

/// Reads and decodes the NUL-terminated code-page string at `p`.
fn read_ansi_at(d: &Vec<u8>, p: usize) -> (r: Option<Vec<u8>>)
    ensures
        match r {
            Some(v) => nul_end(d@, p as int) is Some && v@ == ansi_val(d@, p as int),
            None => nul_end(d@, p as int) is None,
        },
{
    match find_nul(d, p) {
        None => None,
        Some(e) => {
            let raw = crate::bytes::sub_bytes(d, p, e);
            Some(decode_ansi(&raw))
        },
    }
}

/// Reads and decodes the NUL-terminated UTF-16 string at `p`.
fn read_utf16_at(d: &Vec<u8>, p: usize) -> (r: Option<Vec<u8>>)
    ensures
        match r {
            Some(v) => utf16_val_at(d@, p as int) == Some(v@),
            None => utf16_val_at(d@, p as int) is None,
        },
{
    match find_nul16(d, p) {
        None => None,
        Some(e) => {
            let raw = crate::bytes::sub_bytes(d, p, e);
            decode_utf16(&raw)
        },
    }
}

/// Checks the volume block.
fn check_volume(d: &Vec<u8>, v: usize) -> (r: bool)
    requires
        v <= d@.len(),
    ensures
        r == spec_volume_ok(d@, v as int),
{
    let n: usize = d.len();
    if n - v < 16 {
        return false;
    }
    let vsize = read_le32(d, v);
    let label_off = read_le32(d, v + 12);
    if vsize <= 0x10 || label_off >= vsize {
        return false;
    }
    if label_off == 0x14 {
        if n - v < 20 {
            return false;
        }
        let u_off = read_le32(d, v + 16);
        match off_at(v, u_off, n) {
            None => {
                proof {
                    assert(nul16_end(d@, v as int + u_off) is None);
                }
                false
            },
            Some(p) => read_utf16_at(d, p).is_some(),
        }
    } else {
        match off_at(v, label_off, n) {
            None => {
                proof {
                    assert(nul_end(d@, v as int + label_off) is None);
                }
                false
            },
            Some(p) => find_nul(d, p).is_some(),
        }
    }
}

/// Checks the network-relative block and hands back its share name.
fn read_cnrl(d: &Vec<u8>, c: usize) -> (r: Option<Vec<u8>>)
    requires
        c <= d@.len(),
    ensures
        match r {
            Some(v) => spec_cnrl_ok(d@, c as int) && v@ == net_name_val(d@, c as int),
            None => !spec_cnrl_ok(d@, c as int),
        },
{
    let n: usize = d.len();
    if n - c < 20 {
        return None;
    }
    let csize = read_le32(d, c);
    let cflags = read_le32(d, c + 4);
    let nn_off = read_le32(d, c + 8);
    let dev_off = read_le32(d, c + 12);
    if csize < 0x14 || cflags >= 4 || nn_off >= csize {
        return None;
    }
    if flag_bit(cflags, 1) {
        if dev_off == 0 || dev_off >= csize {
            return None;
        }
        let dp = match off_at(c, dev_off, n) {
            None => {
                proof {
                    assert(nul_end(d@, c as int + dev_off) is None);
                }
                return None;
            },
            Some(p) => p,
        };
        if find_nul(d, dp).is_none() {
            return None;
        }
    } else {
        if dev_off != 0 {
            return None;
        }
    }
    let np = match off_at(c, nn_off, n) {
        None => {
            proof {
                assert(nul_end(d@, c as int + nn_off) is None);
            }
            return None;
        },
        Some(p) => p,
    };
    let ansi_name = match read_ansi_at(d, np) {
        None => {
            return None;
        },
        Some(v) => v,
    };
    if nn_off > 0x14 {
        if n - c < 28 {
            return None;
        }
        let u_off = read_le32(d, c + 20);
        let up = match off_at(c, u_off, n) {
            None => {
                proof {
                    assert(nul16_end(d@, c as int + u_off) is None);
                }
                return None;
            },
            Some(p) => p,
        };
        match read_utf16_at(d, up) {
            None => None,
            Some(v) => Some(v),
        }
    } else {
        Some(ansi_name)
    }
}

/// Checks the LinkInfo block and hands back the link target it declares:
/// the outer layer says whether the block is sound, the inner whether it
/// names a path at all.
fn parse_linkinfo(d: &Vec<u8>, li: usize) -> (r: Option<Option<Vec<u8>>>)
    requires
        li <= d@.len(),
    ensures
        match r {
            Some(t) => spec_linkinfo_ok(d@, li as int) && opt_bytes(t) == spec_li_target(
                d@,
                li as int,
            ),
            None => !spec_linkinfo_ok(d@, li as int),
        },
{
    let n: usize = d.len();
    if n - li < 28 {
        return None;
    }
    let size = read_le32(d, li);
    let hsize = read_le32(d, li + 4);
    let lflags = read_le32(d, li + 8);
    let vol_off = read_le32(d, li + 12);
    let lbp_off = read_le32(d, li + 16);
    let cnrl_off = read_le32(d, li + 20);
    let cps_off = read_le32(d, li + 24);
    if (li as u128) + (size as u128) > (n as u128) {
        return None;
    }
    if lflags >= 4 {
        return None;
    }
    let has_base = flag_bit(lflags, 1);
    let has_net = flag_bit(lflags, 2);
    let mut base: Option<Vec<u8>> = None;
    if has_base {
        if vol_off < hsize || vol_off >= size || lbp_off < hsize || lbp_off >= size {
            return None;
        }
        let vp = match off_at(li, vol_off, n) {
            None => {
                return None;
            },
            Some(p) => p,
        };
        if !check_volume(d, vp) {
            return None;
        }
        let bp = match off_at(li, lbp_off, n) {
            None => {
                return None;
            },
            Some(p) => p,
        };
        base = match read_ansi_at(d, bp) {
            None => {
                return None;
            },
            Some(v) => Some(v),
        };
    } else {
        if vol_off != 0 || lbp_off != 0 {
            return None;
        }
    }
    let mut net: Option<Vec<u8>> = None;
    if has_net {
        if cnrl_off < hsize || cnrl_off >= size {
            return None;
        }
        let cp = match off_at(li, cnrl_off, n) {
            None => {
                return None;
            },
            Some(p) => p,
        };
        net = match read_cnrl(d, cp) {
            None => {
                return None;
            },
            Some(v) => Some(v),
        };
    } else {
        if cnrl_off != 0 {
            return None;
        }
    }
    if cps_off < hsize || cps_off >= size {
        return None;
    }
    let sp = match off_at(li, cps_off, n) {
        None => {
            return None;
        },
        Some(p) => p,
    };
    let mut sfx: Vec<u8> = match read_ansi_at(d, sp) {
        None => {
            return None;
        },
        Some(v) => v,
    };
    if hsize >= 0x24 {
        if n - li < 36 {
            return None;
        }
        let lbpu = read_le32(d, li + 28);
        let cpsu = read_le32(d, li + 32);
        if has_base {
            if lbpu < hsize || lbpu >= size {
                return None;
            }
            let up = match off_at(li, lbpu, n) {
                None => {
                    return None;
                },
                Some(p) => p,
            };
            base = match read_utf16_at(d, up) {
                None => {
                    return None;
                },
                Some(v) => Some(v),
            };
        } else {
            if lbpu != 0 {
                return None;
            }
        }
        if cpsu <= hsize || cpsu >= size {
            return None;
        }
        let up = match off_at(li, cpsu, n) {
            None => {
                return None;
            },
            Some(p) => p,
        };
        sfx = match read_utf16_at(d, up) {
            None => {
                return None;
            },
            Some(v) => v,
        };
    }
    proof {
        assert(spec_linkinfo_ok(d@, li as int));
    }
    let picked: Option<Vec<u8>> = if has_net {
        net
    } else if has_base {
        base
    } else {
        None
    };
    match picked {
        None => Some(None),
        Some(b) => {
            let mut out = b;
            if sfx.len() > 0 {
                if out.len() == 0 || out[out.len() - 1] != 92 {
                    out.push(92);
                }
                crate::bytes::push_bytes(&mut out, &sfx);
            }
            proof {
                assert(Some(out@) =~= spec_li_target(d@, li as int));
            }
            Some(Some(out))
        },
    }
}

/// The two strings the classifier reads from a shortcut.
pub struct ShellLinkStrings {
    /// The icon-location string, when the link declares one
    pub icon_location: Option<Vec<u8>>,
    /// The link target, when the link declares one
    pub link_target: Option<Vec<u8>>,
}

/// Reads the counted string at `pos`, decoded.
fn read_sized_str(d: &Vec<u8>, pos: usize, unicode: bool) -> (r: Option<(usize, Vec<u8>)>)
    requires
        pos <= d@.len(),
    ensures
        match r {
            Some(ev) => spec_str_end(d@, pos as int, unicode) == Some(ev.0 as int) && ev.0
                <= d@.len() && spec_str_val(d@, pos as int, unicode) == Some(ev.1@),
            None => spec_str_end(d@, pos as int, unicode) is None || spec_str_val(
                d@,
                pos as int,
                unicode,
            ) is None,
        },
{
    let n: usize = d.len();
    if n - pos < 2 {
        return None;
    }
    let cnt = read_le16(d, pos) as usize;
    let nb: usize = if unicode {
        2 * cnt
    } else {
        cnt
    };
    if n - (pos + 2) < nb {
        return None;
    }
    let raw = crate::bytes::sub_bytes(d, pos + 2, pos + 2 + nb);
    if unicode {
        match decode_utf16(&raw) {
            None => None,
            Some(v) => Some((pos + 2 + nb, v)),
        }
    } else {
        Some((pos + 2 + nb, decode_ansi(&raw)))
    }
}

/// Parses a Shell Link and hands back the icon-location and link-target
/// strings it declares, or nothing when the bytes are not a structurally
/// sound Shell Link.
#[verifier::rlimit(100)]
#[verifier::spinoff_prover]
pub fn parse_shell_link(d: &Vec<u8>) -> (r: Option<ShellLinkStrings>)
    ensures
        match r {
            None => !spec_link_parses(d@),
            Some(s) => spec_link_parses(d@) && opt_bytes(s.icon_location)
                == spec_link_icon_location(d@) && opt_bytes(s.link_target) == spec_link_target(d@),
        },
{
    let n: usize = d.len();
    if !check_header(d) {
        return None;
    }
    let flags = read_le32(d, 20);
    // Optional id list
    let p_idlist: usize = if flag_bit(flags, 1) {
        if n < 78 || 78 + (read_le16(d, 76) as usize) > n {
            proof {
                assert(spec_after_idlist(d@) is None);
                assert(spec_after_linkinfo(d@) is None);
                assert(spec_sd_pos(d@, 0) is None);
                lemma_sd_pos_stuck(d@, 0);
            }
            return None;
        }
        78 + (read_le16(d, 76) as usize)
    } else {
        76
    };
    proof {
        assert(spec_after_idlist(d@) == Some(p_idlist as int));
    }
    // Optional LinkInfo
    let mut target: Option<Vec<u8>> = None;
    let p_li: usize = if flag_bit(flags, 2) {
        match parse_linkinfo(d, p_idlist) {
            None => {
                proof {
                    assert(spec_after_linkinfo(d@) is None);
                    assert(spec_sd_pos(d@, 0) is None);
                    lemma_sd_pos_stuck(d@, 0);
                }
                return None;
            },
            Some(t) => {
                target = t;
                let size = read_le32(d, p_idlist);
                p_idlist + size as usize
            },
        }
    } else {
        p_idlist
    };
    proof {
        assert(spec_after_linkinfo(d@) == Some(p_li as int));
        assert(spec_sd_pos(d@, 0) == Some(p_li as int));
        assert(opt_bytes(target) == spec_link_target(d@));
    }
    // StringData: name, relative path, working dir, arguments, icon location
    let unicode = flag_bit(flags, 128);
    let mut pos: usize = p_li;
    let mut icon_location: Option<Vec<u8>> = None;
    // name
    if flag_bit(flags, 4) {
        match read_sized_str(d, pos, unicode) {
            None => {
                proof {
                    assert(spec_sd_pos(d@, 1) is None);
                    lemma_sd_pos_stuck(d@, 1);
                }
                return None;
            },
            Some(ev) => {
                pos = ev.0;
            },
        }
    }
    proof {
        assert(spec_sd_pos(d@, 1) == Some(pos as int));
    }
    // relative path
    if flag_bit(flags, 8) {
        match read_sized_str(d, pos, unicode) {
            None => {
                proof {
                    assert(spec_sd_pos(d@, 2) is None);
                    lemma_sd_pos_stuck(d@, 2);
                }
                return None;
            },
            Some(ev) => {
                pos = ev.0;
            },
        }
    }
    proof {
        assert(spec_sd_pos(d@, 2) == Some(pos as int));
    }
    // working dir
    if flag_bit(flags, 16) {
        match read_sized_str(d, pos, unicode) {
            None => {
                proof {
                    assert(spec_sd_pos(d@, 3) is None);
                    lemma_sd_pos_stuck(d@, 3);
                }
                return None;
            },
            Some(ev) => {
                pos = ev.0;
            },
        }
    }
    proof {
        assert(spec_sd_pos(d@, 3) == Some(pos as int));
    }
    // arguments
    if flag_bit(flags, 32) {
        match read_sized_str(d, pos, unicode) {
            None => {
                proof {
                    assert(spec_sd_pos(d@, 4) is None);
                    lemma_sd_pos_stuck(d@, 4);
                }
                return None;
            },
            Some(ev) => {
                pos = ev.0;
            },
        }
    }
    proof {
        assert(spec_sd_pos(d@, 4) == Some(pos as int));
    }
    // icon location
    if flag_bit(flags, 64) {
        match read_sized_str(d, pos, unicode) {
            None => {
                proof {
                    assert(spec_sd_pos(d@, 5) is None);
                    lemma_sd_pos_stuck(d@, 5);
                }
                return None;
            },
            Some(ev) => {
                pos = ev.0;
                icon_location = Some(ev.1);
            },
        }
    }
    proof {
        assert(spec_sd_pos(d@, 5) == Some(pos as int));
        assert(spec_link_parses(d@));
        assert(opt_bytes(icon_location) == spec_link_icon_location(d@));
    }
    Some(ShellLinkStrings { icon_location, link_target: target })
}

} // verus!
