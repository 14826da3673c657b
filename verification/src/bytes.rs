//! Small executable helpers over byte strings (`Vec<u8>`), each specified
//! against the sequence view, shared by the path translator and the binary
//! parsers.

use vstd::prelude::*;

verus! {

/// ASCII upper-casing of a single byte; everything outside `a..=z` is kept.
pub open spec fn spec_upper(c: u8) -> u8 {
    if c >= 97 && c <= 122 {
        (c - 32) as u8
    } else {
        c
    }
}

/// ASCII lower-casing of a single byte; everything outside `A..=Z` is kept.
pub open spec fn spec_lower(c: u8) -> u8 {
    if c >= 65 && c <= 90 {
        (c + 32) as u8
    } else {
        c
    }
}

pub fn ascii_upper(c: u8) -> (r: u8)
    ensures
        r == spec_upper(c),
{
    if c >= 97 && c <= 122 {
        c - 32
    } else {
        c
    }
}

pub fn ascii_lower(c: u8) -> (r: u8)
    ensures
        r == spec_lower(c),
{
    if c >= 65 && c <= 90 {
        c + 32
    } else {
        c
    }
}

/// Appends all of `src` to `dst`.
pub fn push_bytes(dst: &mut Vec<u8>, src: &Vec<u8>)
    ensures
        final(dst)@ == old(dst)@ + src@,
{
    let mut i: usize = 0;
    while i < src.len()
        invariant
            i <= src.len(),
            dst@ == old(dst)@ + src@.take(i as int),
        decreases src.len() - i,
    {
        dst.push(src[i]);
        i = i + 1;
        proof {
            assert(src@.take(i as int) == src@.take(i as int - 1).push(src@[i as int - 1]));
        }
    }
    proof {
        assert(src@.take(src@.len() as int) == src@);
    }
}

/// A fresh copy of a byte string.
pub fn clone_bytes(v: &Vec<u8>) -> (r: Vec<u8>)
    ensures
        r@ == v@,
{
    let mut r: Vec<u8> = Vec::new();
    push_bytes(&mut r, v);
    r
}

/// Byte-wise equality of two byte strings.
pub fn bytes_eq(a: &Vec<u8>, b: &Vec<u8>) -> (r: bool)
    ensures
        r == (a@ == b@),
{
    if a.len() != b.len() {
        proof {
            assert(a@ != b@);
        }
        return false;
    }
    let mut i: usize = 0;
    while i < a.len()
        invariant
            i <= a.len(),
            a@.len() == b@.len(),
            forall|j: int| 0 <= j < i ==> a@[j] == b@[j],
        decreases a.len() - i,
    {
        if a[i] != b[i] {
            return false;
        }
        i = i + 1;
    }
    proof {
        assert(a@ =~= b@);
    }
    true
}

/// Whether `p` is a prefix of `v`.
pub open spec fn is_prefix_of(p: Seq<u8>, v: Seq<u8>) -> bool {
    p.len() <= v.len() && v.take(p.len() as int) == p
}

pub fn bytes_starts_with(v: &Vec<u8>, p: &Vec<u8>) -> (r: bool)
    ensures
        r == is_prefix_of(p@, v@),
{
    if p.len() > v.len() {
        return false;
    }
    let mut i: usize = 0;
    while i < p.len()
        invariant
            i <= p.len(),
            p@.len() <= v@.len(),
            forall|j: int| 0 <= j < i ==> v@[j] == p@[j],
        decreases p.len() - i,
    {
        if v[i] != p[i] {
            proof {
                assert(v@.take(p@.len() as int)[i as int] != p@[i as int]);
            }
            return false;
        }
        i = i + 1;
    }
    proof {
        assert(v@.take(p@.len() as int) =~= p@);
    }
    true
}

/// The little-endian 16-bit value stored at `i`.
pub open spec fn spec_le16(s: Seq<u8>, i: int) -> int {
    s[i] + 256 * s[i + 1]
}

/// The little-endian 32-bit value stored at `i`.
pub open spec fn spec_le32(s: Seq<u8>, i: int) -> int {
    s[i] + 256 * s[i + 1] + 65536 * s[i + 2] + 16777216 * s[i + 3]
}

pub fn read_le16(s: &Vec<u8>, i: usize) -> (r: u16)
    requires
        i + 2 <= s@.len(),
    ensures
        r == spec_le16(s@, i as int),
{
    let n: usize = s.len();
    (s[i] as u16) + 256 * (s[i + 1] as u16)
}

pub fn read_le32(s: &Vec<u8>, i: usize) -> (r: u32)
    requires
        i + 4 <= s@.len(),
    ensures
        r == spec_le32(s@, i as int),
{
    let n: usize = s.len();
    (s[i] as u32) + 256 * (s[i + 1] as u32) + 65536 * (s[i + 2] as u32) + 16777216 * (s[i + 3]
        as u32)
}

/// The byte string `s[from..to]` as a fresh vector.
pub fn sub_bytes(s: &Vec<u8>, from: usize, to: usize) -> (r: Vec<u8>)
    requires
        from <= to <= s@.len(),
    ensures
        r@ == s@.subrange(from as int, to as int),
{
    let mut r: Vec<u8> = Vec::new();
    let mut i: usize = from;
    while i < to
        invariant
            from <= i <= to <= s@.len(),
            r@ == s@.subrange(from as int, i as int),
        decreases to - i,
    {
        r.push(s[i]);
        i = i + 1;
        proof {
            assert(s@.subrange(from as int, i as int) == s@.subrange(from as int, i as int - 1)
                .push(s@[i as int - 1]));
        }
    }
    r
}

} // verus!
