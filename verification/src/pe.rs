//! The executable resource directory: locating the first icon-group
//! resource of a Windows executable and reassembling a standalone icon
//! container from it.
//!
//! The walk is an index-based traversal over the raw bytes: headers give the
//! section table, the section table maps virtual addresses to file offsets,
//! and the resource tree nests directories by type, name and language. The
//! 64-bit layout is tried first, then the 32-bit one.

use vstd::prelude::*;

use crate::bytes::{read_le16, read_le32, spec_le16, spec_le32};
use crate::icon::FloraLinkError;

verus! {

/// The two magic bytes every executable image opens with.
pub open spec fn spec_mz(d: Seq<u8>) -> bool {
    d.len() >= 0x40 && d[0] == 0x4d && d[1] == 0x5a
}

/// File offset of the PE signature.
pub open spec fn pe_off(d: Seq<u8>) -> int {
    spec_le32(d, 0x3c)
}

/// Number of sections.
pub open spec fn pe_nsec(d: Seq<u8>) -> int {
    spec_le16(d, pe_off(d) + 6)
}

/// File offset of the section table.
pub open spec fn pe_sec_base(d: Seq<u8>) -> int {
    pe_off(d) + 24 + spec_le16(d, pe_off(d) + 20)
}

/// File offset of the data-directory table.
pub open spec fn pe_dirs_off(d: Seq<u8>, is64: bool) -> int {
    pe_off(d) + 24 + if is64 {
        112int
    } else {
        96int
    }
}

/// The headers parse in the given bitness: signature, optional-header magic,
/// a data-directory table that reaches the resource entry, and a section
/// table that lies inside the file.
pub open spec fn spec_pe_ok(d: Seq<u8>, is64: bool) -> bool {
    &&& spec_mz(d)
    &&& pe_off(d) + 24 <= d.len()
    &&& d[pe_off(d)] == 0x50
    &&& d[pe_off(d) + 1] == 0x45
    &&& d[pe_off(d) + 2] == 0
    &&& d[pe_off(d) + 3] == 0
    &&& pe_off(d) + (if is64 {
        160int
    } else {
        144int
    }) <= d.len()
    &&& spec_le16(d, pe_off(d) + 24) == (if is64 {
        0x20bint
    } else {
        0x10bint
    })
    &&& spec_le32(d, pe_off(d) + 24 + (if is64 {
        108int
    } else {
        92int
    })) >= 3
    &&& pe_sec_base(d) + 40 * pe_nsec(d) <= d.len()
}

/// The resource-table virtual address the headers declare.
pub open spec fn pe_rsrc_rva(d: Seq<u8>, is64: bool) -> int {
    spec_le32(d, pe_dirs_off(d, is64) + 16)
}

/// File offset a virtual address falls at, through the first section whose
/// raw data covers it.
pub open spec fn spec_rva_off(d: Seq<u8>, sb: int, ns: int, k: int, rva: int) -> Option<int>
    decreases ns - k,
{
    if k < 0 || k >= ns {
        None
    } else {
        let va = spec_le32(d, sb + 40 * k + 12);
        let rawsz = spec_le32(d, sb + 40 * k + 16);
        let raw = spec_le32(d, sb + 40 * k + 20);
        if va <= rva && rva - va < rawsz {
            Some(raw + (rva - va))
        } else {
            spec_rva_off(d, sb, ns, k + 1, rva)
        }
    }
}

/// A resource directory node lies inside the file.
pub open spec fn spec_dir_ok(d: Seq<u8>, b: int) -> bool {
    b >= 0 && b + 16 <= d.len() && b + 16 + 8 * spec_dir_n(d, b) <= d.len()
}

/// Total number of entries of a directory node, named ones first.
pub open spec fn spec_dir_n(d: Seq<u8>, b: int) -> int {
    spec_le16(d, b + 12) + spec_le16(d, b + 14)
}

/// The offset field of the first entry of `b` whose id field equals `id`.
pub open spec fn spec_find_id(d: Seq<u8>, b: int, k: int, id: int) -> Option<int>
    decreases spec_dir_n(d, b) - k,
{
    if k < 0 || k >= spec_dir_n(d, b) {
        None
    } else if spec_le32(d, b + 16 + 8 * k) == id {
        Some(spec_le32(d, b + 16 + 8 * k + 4))
    } else {
        spec_find_id(d, b, k + 1, id)
    }
}

/// Resolves an entry's offset field to the file span of its data, stepping
/// into at most `depth` nested directories by their first entry.
pub open spec fn spec_entry_data(
    d: Seq<u8>,
    sb: int,
    ns: int,
    rbase: int,
    field: int,
    depth: int,
) -> Option<(int, int)>
    decreases depth,
{
    if field >= 0x80000000 {
        if depth <= 0 {
            None
        } else {
            let sub = rbase + (field - 0x80000000);
            if spec_dir_ok(d, sub) && spec_dir_n(d, sub) >= 1 {
                spec_entry_data(d, sb, ns, rbase, spec_le32(d, sub + 16 + 4), depth - 1)
            } else {
                None
            }
        }
    } else {
        let de = rbase + field;
        if de + 16 <= d.len() {
            let rva = spec_le32(d, de);
            let sz = spec_le32(d, de + 4);
            match spec_rva_off(d, sb, ns, 0, rva) {
                None => None,
                Some(fo) => if fo + sz <= d.len() {
                    Some((fo, sz))
                } else {
                    None
                },
            }
        } else {
            None
        }
    }
}

/// An icon-group resource is sound: reserved word zero, icon or cursor
/// type, and exactly the declared directory of 14-byte entries.
pub open spec fn spec_group_ok(g: Seq<u8>) -> bool {
    g.len() >= 6 && spec_le16(g, 0) == 0 && (spec_le16(g, 2) == 1 || spec_le16(g, 2) == 2)
        && g.len() == 6 + 14 * spec_le16(g, 4)
}

/// The file span of the first icon-group resource, in directory order.
pub open spec fn spec_group_span(d: Seq<u8>, sb: int, ns: int, rbase: int) -> Option<(int, int)> {
    if !spec_dir_ok(d, rbase) {
        None
    } else {
        match spec_find_id(d, rbase, 0, 14) {
            None => None,
            Some(field) => spec_entry_data(d, sb, ns, rbase, field, 2),
        }
    }
}

/// The payload span of the icon image with resource id `id`.
pub open spec fn spec_icon_span(d: Seq<u8>, sb: int, ns: int, rbase: int, id: int) -> Option<
    (int, int),
> {
    if !spec_dir_ok(d, rbase) {
        None
    } else {
        match spec_find_id(d, rbase, 0, 3) {
            None => None,
            Some(field) => if field >= 0x80000000 {
                let sub = rbase + (field - 0x80000000);
                if spec_dir_ok(d, sub) && spec_dir_n(d, sub) >= 1 {
                    match spec_find_id(d, sub, 0, id) {
                        None => None,
                        Some(f2) => spec_entry_data(d, sb, ns, rbase, f2, 2),
                    }
                } else {
                    None
                }
            } else {
                None
            },
        }
    }
}

/// The first eight bytes of group entry `k`: width, height, colours,
/// reserved, planes and bit depth.
pub open spec fn grp_meta(g: Seq<u8>, k: int) -> Seq<u8> {
    g.subrange(6 + 14 * k, 6 + 14 * k + 8)
}

/// The resource id group entry `k` points at.
pub open spec fn grp_id(g: Seq<u8>, k: int) -> int {
    spec_le16(g, 6 + 14 * k + 12)
}

/// The metadata of the group entries from `k` on whose image payload
/// resolves, in order.
pub open spec fn spec_metas(d: Seq<u8>, sb: int, ns: int, rbase: int, g: Seq<u8>, k: int) -> Seq<
    Seq<u8>,
>
    decreases spec_le16(g, 4) - k,
{
    if k < 0 || k >= spec_le16(g, 4) {
        Seq::empty()
    } else {
        let rest = spec_metas(d, sb, ns, rbase, g, k + 1);
        match spec_icon_span(d, sb, ns, rbase, grp_id(g, k)) {
            None => rest,
            Some(_) => seq![grp_meta(g, k)] + rest,
        }
    }
}

/// The image payloads matching `spec_metas`, in the same order.
pub open spec fn spec_pays(d: Seq<u8>, sb: int, ns: int, rbase: int, g: Seq<u8>, k: int) -> Seq<
    Seq<u8>,
>
    decreases spec_le16(g, 4) - k,
{
    if k < 0 || k >= spec_le16(g, 4) {
        Seq::empty()
    } else {
        let rest = spec_pays(d, sb, ns, rbase, g, k + 1);
        match spec_icon_span(d, sb, ns, rbase, grp_id(g, k)) {
            None => rest,
            Some(span) => seq![d.subrange(span.0, span.0 + span.1)] + rest,
        }
    }
}

/// A 32-bit value as its four little-endian bytes.
pub open spec fn le32_bytes(v: int) -> Seq<u8> {
    seq![(v % 256) as u8, ((v / 256) % 256) as u8, ((v / 65536) % 256) as u8, ((v / 16777216)
        % 256) as u8]
}

/// The six-byte container header.
pub open spec fn ico_header(ty: int, n: int) -> Seq<u8> {
    seq![0u8, 0u8, (ty % 256) as u8, ((ty / 256) % 256) as u8, (n % 256) as u8, ((n / 256)
        % 256) as u8]
}

/// One sixteen-byte directory entry: the group metadata, the payload size,
/// and the payload's offset in the container.
pub open spec fn entry16(meta: Seq<u8>, sz: int, off: int) -> Seq<u8> {
    meta + le32_bytes(sz) + le32_bytes(off)
}

/// The directory entries for payloads laid out from `off` on.
pub open spec fn dir_bytes(metas: Seq<Seq<u8>>, pays: Seq<Seq<u8>>, off: int) -> Seq<u8>
    decreases metas.len(),
{
    if metas.len() == 0 || pays.len() == 0 {
        Seq::empty()
    } else {
        entry16(metas.first(), pays.first().len() as int, off) + dir_bytes(
            metas.drop_first(),
            pays.drop_first(),
            off + pays.first().len(),
        )
    }
}

/// All payloads, concatenated.
pub open spec fn cat_pays(pays: Seq<Seq<u8>>) -> Seq<u8>
    decreases pays.len(),
{
    if pays.len() == 0 {
        Seq::empty()
    } else {
        pays.first() + cat_pays(pays.drop_first())
    }
}

/// The icon container reassembled from resolved group entries.
pub open spec fn ico_out(ty: int, metas: Seq<Seq<u8>>, pays: Seq<Seq<u8>>) -> Seq<u8> {
    ico_header(ty, metas.len() as int) + dir_bytes(metas, pays, 6 + 16 * metas.len() as int)
        + cat_pays(pays)
}

/// The resource-table base of the first layout the file parses in: the
/// 64-bit one is tried first, then the 32-bit one.
pub open spec fn spec_pe_rbase(d: Seq<u8>) -> Option<int> {
    if spec_pe_ok(d, true) {
        if pe_rsrc_rva(d, true) == 0 {
            None
        } else {
            spec_rva_off(d, pe_sec_base(d), pe_nsec(d), 0, pe_rsrc_rva(d, true))
        }
    } else if spec_pe_ok(d, false) {
        if pe_rsrc_rva(d, false) == 0 {
            None
        } else {
            spec_rva_off(d, pe_sec_base(d), pe_nsec(d), 0, pe_rsrc_rva(d, false))
        }
    } else {
        None
    }
}

proof fn lemma_cat_pays_push(s: Seq<Seq<u8>>, x: Seq<u8>)
    ensures
        cat_pays(s.push(x)) == cat_pays(s) + x,
    decreases s.len(),
{
    if s.len() == 0 {
        assert(s.push(x).first() == x);
        assert(s.push(x).drop_first() =~= Seq::<Seq<u8>>::empty());
        assert(cat_pays(s.push(x)) == x + cat_pays(Seq::<Seq<u8>>::empty()));
        assert(cat_pays(s.push(x)) =~= cat_pays(s) + x);
    } else {
        assert(s.push(x).first() == s.first());
        assert(s.push(x).drop_first() =~= s.drop_first().push(x));
        lemma_cat_pays_push(s.drop_first(), x);
        assert(cat_pays(s.push(x)) == s.first() + cat_pays(s.drop_first().push(x)));
        assert(cat_pays(s.push(x)) =~= cat_pays(s) + x);
    }
}

/// The icon container the executable's first icon group reassembles to:
/// nothing when the file is not an executable of either layout, has no
/// resource table, no sound icon group, or no entry whose image resolves,
/// or when the container would overrun the offset range.
pub open spec fn spec_pe_icon(d: Seq<u8>) -> Option<Seq<u8>> {
    match spec_pe_rbase(d) {
        None => None,
        Some(rbase) => {
            let sb = pe_sec_base(d);
            let ns = pe_nsec(d);
            match spec_group_span(d, sb, ns, rbase) {
                None => None,
                Some(span) => {
                    let g = d.subrange(span.0, span.0 + span.1);
                    if !spec_group_ok(g) {
                        None
                    } else {
                        let metas = spec_metas(d, sb, ns, rbase, g, 0);
                        let pays = spec_pays(d, sb, ns, rbase, g, 0);
                        if metas.len() == 0 || 6 + 16 * metas.len() + cat_pays(pays).len()
                            >= 0x100000000 {
                            None
                        } else {
                            Some(ico_out(spec_le16(g, 2), metas, pays))
                        }
                    }
                },
            }
        },
    }
}

/// Validates the fixed headers in the given bitness.
fn check_pe(d: &Vec<u8>, is64: bool) -> (r: bool)
    ensures
        r == spec_pe_ok(d@, is64),
{
    let n: usize = d.len();
    if n < 0x40 {
        return false;
    }
    if d[0] != 0x4d || d[1] != 0x5a {
        return false;
    }
    let pe64: u64 = read_le32(d, 0x3c) as u64;
    if pe64 + 24 > n as u64 {
        return false;
    }
    let pe: usize = pe64 as usize;
    if d[pe] != 0x50 || d[pe + 1] != 0x45 || d[pe + 2] != 0 || d[pe + 3] != 0 {
        return false;
    }
    let need: u64 = if is64 {
        160
    } else {
        144
    };
    if pe64 + need > n as u64 {
        return false;
    }
    let magic = read_le16(d, pe + 24);
    let want: u16 = if is64 {
        0x20b
    } else {
        0x10b
    };
    if magic != want {
        return false;
    }
    let ndoff: usize = if is64 {
        108
    } else {
        92
    };
    if read_le32(d, pe + 24 + ndoff) < 3 {
        return false;
    }
    let opt_size: u64 = read_le16(d, pe + 20) as u64;
    let nsec: u64 = read_le16(d, pe + 6) as u64;
    if pe64 + 24 + opt_size + 40 * nsec > n as u64 {
        return false;
    }
    true
}

/// Maps a virtual address to its file offset through the section table.
fn rva_to_off(d: &Vec<u8>, sb: usize, ns: usize, rva: u32) -> (r: Option<u64>)
    requires
        sb + 40 * ns <= d@.len(),
    ensures
        match r {
            Some(v) => spec_rva_off(d@, sb as int, ns as int, 0, rva as int) == Some(v as int),
            None => spec_rva_off(d@, sb as int, ns as int, 0, rva as int) is None,
        },
{
    let n: usize = d.len();
    let mut k: usize = 0;
    while k < ns
        invariant
            k <= ns,
            n == d@.len(),
            sb + 40 * ns <= d@.len(),
            spec_rva_off(d@, sb as int, ns as int, 0, rva as int) == spec_rva_off(
                d@,
                sb as int,
                ns as int,
                k as int,
                rva as int,
            ),
        decreases ns - k,
    {
        let va = read_le32(d, sb + 40 * k + 12);
        let rawsz = read_le32(d, sb + 40 * k + 16);
        let raw = read_le32(d, sb + 40 * k + 20);
        if va <= rva && rva - va < rawsz {
            return Some(raw as u64 + (rva - va) as u64);
        }
        k = k + 1;
    }
    None
}

/// Reads a directory node's entry count, refusing one outside the file.
fn dir_n_exec(d: &Vec<u8>, b: usize) -> (r: Option<u32>)
    ensures
        match r {
            Some(v) => spec_dir_ok(d@, b as int) && v == spec_dir_n(d@, b as int),
            None => !spec_dir_ok(d@, b as int),
        },
{
    let n: usize = d.len();
    if b > n || n - b < 16 {
        return None;
    }
    let total: u32 = read_le16(d, b + 12) as u32 + read_le16(d, b + 14) as u32;
    if (b as u128) + 16 + 8 * (total as u128) > n as u128 {
        return None;
    }
    Some(total)
}

/// Finds the offset field of the first entry with the given id.
fn find_id_exec(d: &Vec<u8>, b: usize, id: u32) -> (r: Option<u32>)
    requires
        spec_dir_ok(d@, b as int),
    ensures
        match r {
            Some(f) => spec_find_id(d@, b as int, 0, id as int) == Some(f as int),
            None => spec_find_id(d@, b as int, 0, id as int) is None,
        },
{
    let n: usize = d.len();
    let total: u64 = read_le16(d, b + 12) as u64 + read_le16(d, b + 14) as u64;
    let mut k: usize = 0;
    while (k as u64) < total
        invariant
            n == d@.len(),
            total == spec_dir_n(d@, b as int),
            k as int <= total as int,
            spec_dir_ok(d@, b as int),
            spec_find_id(d@, b as int, 0, id as int) == spec_find_id(
                d@,
                b as int,
                k as int,
                id as int,
            ),
        decreases total - k,
    {
        if read_le32(d, b + 16 + 8 * k) == id {
            return Some(read_le32(d, b + 16 + 8 * k + 4));
        }
        k = k + 1;
    }
    None
}

/// Resolves an entry's offset field to the file span of its data.
fn entry_data_exec(d: &Vec<u8>, sb: usize, ns: usize, rbase: usize, field: u32, depth: u32) -> (r:
    Option<(usize, usize)>)
    requires
        sb + 40 * ns <= d@.len(),
    ensures
        match r {
            Some(p) => spec_entry_data(
                d@,
                sb as int,
                ns as int,
                rbase as int,
                field as int,
                depth as int,
            ) == Some((p.0 as int, p.1 as int)) && p.0 + p.1 <= d@.len(),
            None => spec_entry_data(
                d@,
                sb as int,
                ns as int,
                rbase as int,
                field as int,
                depth as int,
            ) is None,
        },
    decreases depth,
{
    let n: usize = d.len();
    if field >= 0x80000000 {
        if depth == 0 {
            return None;
        }
        let sub64: u128 = rbase as u128 + (field - 0x80000000) as u128;
        if sub64 + 16 > n as u128 {
            return None;
        }
        let sub: usize = sub64 as usize;
        match dir_n_exec(d, sub) {
            None => None,
            Some(t) => {
                if t == 0 {
                    return None;
                }
                entry_data_exec(d, sb, ns, rbase, read_le32(d, sub + 16 + 4), depth - 1)
            },
        }
    } else {
        let de64: u128 = rbase as u128 + field as u128;
        if de64 + 16 > n as u128 {
            return None;
        }
        let de: usize = de64 as usize;
        let rva = read_le32(d, de);
        let sz = read_le32(d, de + 4);
        match rva_to_off(d, sb, ns, rva) {
            None => None,
            Some(fo) => if (fo as u128) + (sz as u128) <= n as u128 {
                Some((fo as usize, sz as usize))
            } else {
                None
            },
        }
    }
}

/// Locates the file span of the image payload named by group entry id.
fn icon_span_exec(d: &Vec<u8>, sb: usize, ns: usize, rbase: usize, id: u32) -> (r: Option<
    (usize, usize),
>)
    requires
        sb + 40 * ns <= d@.len(),
        spec_dir_ok(d@, rbase as int),
    ensures
        match r {
            Some(p) => spec_icon_span(d@, sb as int, ns as int, rbase as int, id as int) == Some(
                (p.0 as int, p.1 as int),
            ) && p.0 + p.1 <= d@.len(),
            None => spec_icon_span(d@, sb as int, ns as int, rbase as int, id as int) is None,
        },
{
    let n: usize = d.len();
    let field = match find_id_exec(d, rbase, 3) {
        None => {
            return None;
        },
        Some(f) => f,
    };
    if field < 0x80000000 {
        return None;
    }
    let sub64: u128 = rbase as u128 + (field - 0x80000000) as u128;
    if sub64 + 16 > n as u128 {
        return None;
    }
    let sub: usize = sub64 as usize;
    match dir_n_exec(d, sub) {
        None => None,
        Some(t) => {
            if t == 0 {
                return None;
            }
            let f2 = match find_id_exec(d, sub, id) {
                None => {
                    return None;
                },
                Some(f) => f,
            };
            entry_data_exec(d, sb, ns, rbase, f2, 2)
        },
    }
}


/// Appends the four little-endian bytes of `v`.
fn push_le32(out: &mut Vec<u8>, v: u64)
    requires
        v < 0x100000000,
    ensures
        final(out)@ == old(out)@ + le32_bytes(v as int),
{
    out.push((v % 256) as u8);
    out.push(((v / 256) % 256) as u8);
    out.push(((v / 65536) % 256) as u8);
    out.push(((v / 16777216) % 256) as u8);
    proof {
        assert(out@ =~= old(out)@ + le32_bytes(v as int));
    }
}

proof fn lemma_cat_split(a: Seq<Seq<u8>>, b: Seq<Seq<u8>>)
    ensures
        cat_pays(a + b) == cat_pays(a) + cat_pays(b),
    decreases a.len(),
{
    if a.len() == 0 {
        assert(a + b =~= b);
        assert(cat_pays(a) + cat_pays(b) =~= cat_pays(b));
    } else {
        assert((a + b).first() == a.first());
        assert((a + b).drop_first() =~= a.drop_first() + b);
        lemma_cat_split(a.drop_first(), b);
        assert(cat_pays(a + b) =~= cat_pays(a) + cat_pays(b));
    }
}

/// Builds the container from the resolved entries, refusing one whose
/// offsets would not fit the offset field.
#[verifier::rlimit(50)]
fn assemble_ico(ty: u16, metas: &Vec<Vec<u8>>, pays: &Vec<Vec<u8>>) -> (r: Option<Vec<u8>>)
    requires
        metas@.len() == pays@.len(),
        metas@.len() <= 0xffff,
    ensures
        match r {
            Some(v) => 6 + 16 * metas.deep_view().len() + cat_pays(pays.deep_view()).len()
                < 0x100000000 && v@ == ico_out(ty as int, metas.deep_view(), pays.deep_view()),
            None => 6 + 16 * metas.deep_view().len() + cat_pays(pays.deep_view()).len()
                >= 0x100000000,
        },
{
    let ghost mdv = metas.deep_view();
    let ghost pdv = pays.deep_view();
    proof {
        assert(mdv.len() == metas@.len());
        assert(pdv.len() == pays@.len());
    }
    let cnt: usize = metas.len();
    let mut total: u128 = 0;
    let mut k: usize = 0;
    proof {
        assert(pdv.take(0) =~= Seq::<Seq<u8>>::empty());
    }
    while k < cnt
        invariant
            k <= cnt,
            cnt == metas@.len(),
            mdv == metas.deep_view(),
            pdv == pays.deep_view(),
            mdv.len() == cnt,
            pdv.len() == cnt,
            total == cat_pays(pdv.take(k as int)).len(),
            total <= k * 0xffffffffffffffff,
        decreases cnt - k,
    {
        proof {
            assert(pdv[k as int] =~= pays@[k as int]@);
            assert(pdv.take(k as int + 1) =~= pdv.take(k as int).push(pdv[k as int]));
            lemma_cat_pays_push(pdv.take(k as int), pdv[k as int]);
        }
        total = total + pays[k].len() as u128;
        k = k + 1;
    }
    proof {
        assert(pdv.take(cnt as int) =~= pdv);
    }
    proof {
        assert(total <= cnt * 0xffffffffffffffff);
        assert(cnt <= 0xffff);
    }
    if 6 + 16 * (cnt as u128) + total >= 0x100000000 {
        return None;
    }
    let mut out: Vec<u8> = Vec::new();
    out.push(0);
    out.push(0);
    out.push((ty % 256) as u8);
    out.push(((ty / 256) % 256) as u8);
    out.push((cnt % 256) as u8);
    out.push(((cnt / 256) % 256) as u8);
    let ghost header = ico_header(ty as int, cnt as int);
    proof {
        assert(out@ =~= header);
    }
    let off0: u64 = 6 + 16 * (cnt as u64);
    let mut off: u64 = off0;
    k = 0;
    proof {
        assert(mdv.skip(0) =~= mdv);
        assert(pdv.skip(0) =~= pdv);
        assert(pdv.take(0) =~= Seq::<Seq<u8>>::empty());
    }
    while k < cnt
        invariant
            k <= cnt,
            cnt == metas@.len(),
            cnt == pays@.len(),
            cnt <= 0xffff,
            mdv == metas.deep_view(),
            pdv == pays.deep_view(),
            mdv.len() == cnt,
            pdv.len() == cnt,
            off0 == 6 + 16 * cnt,
            off == off0 + cat_pays(pdv.take(k as int)).len(),
            6 + 16 * cnt + cat_pays(pdv).len() < 0x100000000,
            header + dir_bytes(mdv, pdv, off0 as int) == out@ + dir_bytes(
                mdv.skip(k as int),
                pdv.skip(k as int),
                off as int,
            ),
        decreases cnt - k,
    {
        proof {
            assert(mdv.skip(k as int).first() == mdv[k as int]);
            assert(pdv.skip(k as int).first() == pdv[k as int]);
            assert(mdv[k as int] =~= metas@[k as int]@);
            assert(pdv[k as int] =~= pays@[k as int]@);
            assert(mdv.skip(k as int).drop_first() =~= mdv.skip(k as int + 1));
            assert(pdv.skip(k as int).drop_first() =~= pdv.skip(k as int + 1));
            assert(pdv =~= pdv.take(k as int) + pdv.skip(k as int));
            lemma_cat_split(pdv.take(k as int), pdv.skip(k as int));
            assert(cat_pays(pdv.skip(k as int)) == pdv[k as int] + cat_pays(
                pdv.skip(k as int + 1),
            ));
            assert(pdv.take(k as int + 1) =~= pdv.take(k as int).push(pdv[k as int]));
            lemma_cat_pays_push(pdv.take(k as int), pdv[k as int]);
        }
        crate::bytes::push_bytes(&mut out, &metas[k]);
        push_le32(&mut out, pays[k].len() as u64);
        push_le32(&mut out, off);
        off = off + pays[k].len() as u64;
        k = k + 1;
    }
    proof {
        assert(mdv.skip(cnt as int) =~= Seq::<Seq<u8>>::empty());
        assert(pdv.skip(cnt as int) =~= Seq::<Seq<u8>>::empty());
        assert(out@ =~= header + dir_bytes(mdv, pdv, off0 as int));
        assert(pdv.take(0) =~= Seq::<Seq<u8>>::empty());
        assert(out@ + cat_pays(pdv.take(0)) =~= out@);
    }
    let ghost dir_done = out@;
    k = 0;
    while k < cnt
        invariant
            k <= cnt,
            cnt == pays@.len(),
            pdv == pays.deep_view(),
            pdv.len() == cnt,
            out@ == dir_done + cat_pays(pdv.take(k as int)),
        decreases cnt - k,
    {
        proof {
            assert(pdv[k as int] =~= pays@[k as int]@);
            assert(pdv.take(k as int + 1) =~= pdv.take(k as int).push(pdv[k as int]));
            lemma_cat_pays_push(pdv.take(k as int), pdv[k as int]);
        }
        crate::bytes::push_bytes(&mut out, &pays[k]);
        k = k + 1;
    }
    proof {
        assert(pdv.take(cnt as int) =~= pdv);
        assert(out@ =~= ico_out(ty as int, mdv, pdv));
    }
    Some(out)
}


/// Finds the first icon group embedded in an executable and renders its
/// widest image as a PNG.
///
/// A file that is not an executable of either layout, has no resource
/// table, or has no icon-group resource is the soft `Ok(None)`; only a
/// located group whose container cannot be decoded is an error.

/// Locates the first icon group, checks it, and collects the metadata and
/// payload of every entry whose image resolves.
#[verifier::rlimit(100)]
#[verifier::spinoff_prover]
fn collect_group(data: &Vec<u8>, sb: usize, ns: usize, rbase: usize) -> (r: Option<
    (u16, Vec<Vec<u8>>, Vec<Vec<u8>>),
>)
    requires
        sb + 40 * ns <= data@.len(),
        spec_dir_ok(data@, rbase as int),
    ensures
        match r {
            None => spec_group_span(data@, sb as int, ns as int, rbase as int) is None
                || !spec_group_ok(group_of(data@, sb as int, ns as int, rbase as int))
                || spec_metas(
                data@,
                sb as int,
                ns as int,
                rbase as int,
                group_of(data@, sb as int, ns as int, rbase as int),
                0,
            ).len() == 0,
            Some(t) => {
                let g = group_of(data@, sb as int, ns as int, rbase as int);
                &&& spec_group_span(data@, sb as int, ns as int, rbase as int) is Some
                &&& spec_group_ok(g)
                &&& t.0 == spec_le16(g, 2)
                &&& t.1.deep_view() == spec_metas(data@, sb as int, ns as int, rbase as int, g, 0)
                &&& t.2.deep_view() == spec_pays(data@, sb as int, ns as int, rbase as int, g, 0)
                &&& t.1@.len() == t.2@.len()
                &&& t.1.deep_view().len() > 0
                &&& t.1@.len() <= 0xffff
            },
        },
{
    let n: usize = data.len();
    let gfield = match find_id_exec(data, rbase, 14) {
        None => {
            return None;
        },
        Some(f) => f,
    };
    let span = match entry_data_exec(data, sb, ns, rbase, gfield, 2) {
        None => {
            return None;
        },
        Some(p) => p,
    };
    let g = crate::bytes::sub_bytes(data, span.0, span.0 + span.1);
    proof {
        assert(g@ == group_of(data@, sb as int, ns as int, rbase as int));
    }
    if g.len() < 6 {
        return None;
    }
    if read_le16(&g, 0) != 0 {
        return None;
    }
    let gty = read_le16(&g, 2);
    if gty != 1 && gty != 2 {
        return None;
    }
    let gcount: usize = read_le16(&g, 4) as usize;
    if g.len() != 6 + 14 * gcount {
        return None;
    }
    proof {
        assert(spec_group_ok(g@));
    }
    let mut metas: Vec<Vec<u8>> = Vec::new();
    let mut pays: Vec<Vec<u8>> = Vec::new();
    let mut k: usize = 0;
    proof {
        assert(metas.deep_view() =~~= Seq::<Seq<u8>>::empty());
        assert(pays.deep_view() =~~= Seq::<Seq<u8>>::empty());
        assert(Seq::<Seq<u8>>::empty() + spec_metas(
            data@,
            sb as int,
            ns as int,
            rbase as int,
            g@,
            0,
        ) =~= spec_metas(data@, sb as int, ns as int, rbase as int, g@, 0));
        assert(Seq::<Seq<u8>>::empty() + spec_pays(
            data@,
            sb as int,
            ns as int,
            rbase as int,
            g@,
            0,
        ) =~= spec_pays(data@, sb as int, ns as int, rbase as int, g@, 0));
    }
    while k < gcount
        invariant
            k <= gcount,
            n == data@.len(),
            gcount == spec_le16(g@, 4),
            g@.len() == 6 + 14 * gcount,
            sb + 40 * ns <= data@.len(),
            spec_dir_ok(data@, rbase as int),
            metas@.len() == pays@.len(),
            metas@.len() <= k,
            spec_metas(data@, sb as int, ns as int, rbase as int, g@, 0) == metas.deep_view()
                + spec_metas(data@, sb as int, ns as int, rbase as int, g@, k as int),
            spec_pays(data@, sb as int, ns as int, rbase as int, g@, 0) == pays.deep_view()
                + spec_pays(data@, sb as int, ns as int, rbase as int, g@, k as int),
        decreases gcount - k,
    {
        let id = read_le16(&g, 6 + 14 * k + 12);
        proof {
            assert(id == grp_id(g@, k as int));
        }
        match icon_span_exec(data, sb, ns, rbase, id as u32) {
            None => {
                proof {
                    assert(spec_metas(data@, sb as int, ns as int, rbase as int, g@, k as int)
                        == spec_metas(data@, sb as int, ns as int, rbase as int, g@, k as int + 1));
                    assert(spec_pays(data@, sb as int, ns as int, rbase as int, g@, k as int)
                        == spec_pays(data@, sb as int, ns as int, rbase as int, g@, k as int + 1));
                }
            },
            Some(p) => {
                let meta = crate::bytes::sub_bytes(&g, 6 + 14 * k, 6 + 14 * k + 8);
                let pay = crate::bytes::sub_bytes(data, p.0, p.0 + p.1);
                let ghost mprev = metas.deep_view();
                let ghost pprev = pays.deep_view();
                proof {
                    assert(meta@ =~= grp_meta(g@, k as int));
                }
                metas.push(meta);
                pays.push(pay);
                proof {
                    assert(metas.deep_view() =~~= mprev + seq![grp_meta(g@, k as int)]);
                    assert(pays.deep_view() =~~= pprev + seq![
                        data@.subrange(p.0 as int, p.0 as int + p.1 as int),
                    ]);
                    assert(spec_metas(data@, sb as int, ns as int, rbase as int, g@, k as int)
                        =~= seq![grp_meta(g@, k as int)] + spec_metas(
                        data@,
                        sb as int,
                        ns as int,
                        rbase as int,
                        g@,
                        k as int + 1,
                    ));
                    assert(spec_pays(data@, sb as int, ns as int, rbase as int, g@, k as int)
                        =~= seq![data@.subrange(p.0 as int, p.0 as int + p.1 as int)] + spec_pays(
                        data@,
                        sb as int,
                        ns as int,
                        rbase as int,
                        g@,
                        k as int + 1,
                    ));
                    assert((mprev + seq![grp_meta(g@, k as int)]) + spec_metas(
                        data@,
                        sb as int,
                        ns as int,
                        rbase as int,
                        g@,
                        k as int + 1,
                    ) =~= mprev + spec_metas(data@, sb as int, ns as int, rbase as int, g@, k as int));
                    assert((pprev + seq![data@.subrange(p.0 as int, p.0 as int + p.1 as int)])
                        + spec_pays(data@, sb as int, ns as int, rbase as int, g@, k as int + 1)
                        =~= pprev + spec_pays(data@, sb as int, ns as int, rbase as int, g@, k as int));
                }
            },
        }
        k = k + 1;
    }
    proof {
        assert(spec_metas(data@, sb as int, ns as int, rbase as int, g@, gcount as int)
            =~= Seq::<Seq<u8>>::empty());
        assert(spec_pays(data@, sb as int, ns as int, rbase as int, g@, gcount as int)
            =~= Seq::<Seq<u8>>::empty());
        assert(metas.deep_view() =~= spec_metas(data@, sb as int, ns as int, rbase as int, g@, 0));
        assert(pays.deep_view() =~= spec_pays(data@, sb as int, ns as int, rbase as int, g@, 0));
    }
    if metas.len() == 0 {
        proof {
            assert(metas.deep_view().len() == 0);
        }
        return None;
    }
    proof {
        assert(metas.deep_view().len() == metas@.len());
        if metas@.len() > 0xffff {
            lemma_metas_bound(data@, sb as int, ns as int, rbase as int, g@, 0);
        }
    }
    Some((gty, metas, pays))
}

/// The group bytes the first icon-group span carves out; the empty string
/// when there is none.
pub open spec fn group_of(d: Seq<u8>, sb: int, ns: int, rbase: int) -> Seq<u8> {
    match spec_group_span(d, sb, ns, rbase) {
        None => Seq::empty(),
        Some(span) => d.subrange(span.0, span.0 + span.1),
    }
}

proof fn lemma_metas_bound(d: Seq<u8>, sb: int, ns: int, rbase: int, g: Seq<u8>, k: int)
    requires
        k >= 0,
    ensures
        spec_metas(d, sb, ns, rbase, g, k).len() <= if spec_le16(g, 4) - k >= 0 {
            spec_le16(g, 4) - k
        } else {
            0
        },
    decreases spec_le16(g, 4) - k,
{
    if k < spec_le16(g, 4) {
        lemma_metas_bound(d, sb, ns, rbase, g, k + 1);
    }
}

/// Finds the first icon group embedded in an executable and renders its
/// widest image as a PNG.
///
/// A file that is not an executable of either layout, has no resource
/// table, or has no icon-group resource is the soft `Ok(None)`; only a
/// located group whose container cannot be decoded is an error.
#[verifier::rlimit(100)]
#[verifier::spinoff_prover]
pub fn extract_icon_from_exe(data: &Vec<u8>) -> (r: Result<Option<Vec<u8>>, FloraLinkError>)
    ensures
        spec_pe_icon(data@) is None ==> r == Ok::<Option<Vec<u8>>, FloraLinkError>(None),
        spec_pe_icon(data@) matches Some(ico) ==> ((r matches Ok(o) && o is Some) <==> (
        crate::ico::ico_ok(ico) && crate::ico::ico_count(ico) > 0 && exists|i: int|
            #[trigger] crate::ico::is_best_icon(ico, i) && crate::ico::entry_render_safe(ico, i)
                && crate::ico::png_render_opt(ico, i) is Some)),
        spec_pe_icon(data@) matches Some(ico) ==> match r {
            Ok(opt) => opt matches Some(png) && crate::ico::ico_ok(ico) && crate::ico::ico_count(
                ico,
            ) > 0 && (exists|i: int|
                #[trigger] crate::ico::is_best_icon(ico, i) && crate::ico::entry_render_safe(
                    ico,
                    i,
                ) && crate::ico::png_render_opt(ico, i) == Some(png@)),
            Err(e) => (!crate::ico::ico_ok(ico) && e == FloraLinkError::BadContainer) || (
            crate::ico::ico_ok(ico) && crate::ico::ico_count(ico) == 0 && e
                == FloraLinkError::NoIcons) || (crate::ico::ico_ok(ico) && crate::ico::ico_count(
                ico,
            ) > 0 && e == FloraLinkError::DecodeFailed),
        },
{
    let n: usize = data.len();
    let is64: bool;
    if check_pe(data, true) {
        is64 = true;
    } else if check_pe(data, false) {
        is64 = false;
    } else {
        return Ok(None);
    }
    let pe: usize = read_le32(data, 0x3c) as usize;
    let sb: usize = pe + 24 + read_le16(data, pe + 20) as usize;
    let ns: usize = read_le16(data, pe + 6) as usize;
    proof {
        assert(sb == pe_sec_base(data@));
        assert(ns == pe_nsec(data@));
    }
    let dirs: usize = pe + 24 + if is64 {
        112
    } else {
        96
    };
    let rva = read_le32(data, dirs + 16);
    proof {
        assert(rva == pe_rsrc_rva(data@, is64));
    }
    if rva == 0 {
        return Ok(None);
    }
    let rbase64 = match rva_to_off(data, sb, ns, rva) {
        None => {
            return Ok(None);
        },
        Some(v) => v,
    };
    proof {
        assert(spec_pe_rbase(data@) == Some(rbase64 as int));
    }
    if (rbase64 as u128) + 16 > n as u128 {
        proof {
            assert(!spec_dir_ok(data@, rbase64 as int));
        }
        return Ok(None);
    }
    let rbase: usize = rbase64 as usize;
    match dir_n_exec(data, rbase) {
        None => {
            return Ok(None);
        },
        Some(_) => {},
    }
    let parts = match collect_group(data, sb, ns, rbase) {
        None => {
            return Ok(None);
        },
        Some(t) => t,
    };
    let (gty, metas, pays) = parts;
    let icobytes = match assemble_ico(gty, &metas, &pays) {
        None => {
            return Ok(None);
        },
        Some(v) => v,
    };
    proof {
        assert(spec_pe_icon(data@) == Some(icobytes@));
    }
    match crate::ico::extract_icon_from_ico(&icobytes) {
        Ok(png) => Ok(Some(png)),
        Err(e) => Err(e),
    }
}


} // verus!
