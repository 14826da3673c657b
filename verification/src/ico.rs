//! The icon-container format: a six-byte header followed by a directory of
//! sixteen-byte entries, each declaring an image's width and the span of its
//! raw data. The extractor picks the entry with the greatest declared width,
//! first occurrence winning ties, and renders it as a PNG.

use vstd::prelude::*;

use crate::bytes::{read_le16, read_le32, spec_le16, spec_le32};
use crate::icon::FloraLinkError;

verus! {

/// The header is sound: reserved word zero, resource type icon or cursor.
pub open spec fn ico_header_ok(s: Seq<u8>) -> bool {
    s.len() >= 6 && spec_le16(s, 0) == 0 && (spec_le16(s, 2) == 1 || spec_le16(s, 2) == 2)
}

/// The number of directory entries the header declares.
pub open spec fn ico_count(s: Seq<u8>) -> int {
    spec_le16(s, 4)
}

/// Byte offset of directory entry `k`.
pub open spec fn ico_entry_off(k: int) -> int {
    6 + 16 * k
}

/// Entry `k` is sound: reserved byte zero and its data span inside the file.
pub open spec fn ico_entry_ok(s: Seq<u8>, k: int) -> bool {
    let off = ico_entry_off(k);
    let data_size = spec_le32(s, off + 8);
    let data_off = spec_le32(s, off + 12);
    s[off + 3] == 0 && (data_size == 0 || data_off + data_size <= s.len())
}

/// The whole container parses: header, full directory, and every entry sound.
pub open spec fn ico_ok(s: Seq<u8>) -> bool {
    ico_header_ok(s) && 6 + 16 * ico_count(s) <= s.len() && (forall|k: int|
        0 <= k < ico_count(s) ==> ico_entry_ok(s, k))
}

/// The width entry `k` declares; the stored byte zero stands for 256.
pub open spec fn ico_entry_width(s: Seq<u8>, k: int) -> int {
    if s[ico_entry_off(k)] == 0 {
        256
    } else {
        s[ico_entry_off(k)] as int
    }
}

/// Index `i` holds the greatest value of `ws`, and no earlier index does.
pub open spec fn is_max_first(ws: Seq<u32>, i: int) -> bool {
    0 <= i < ws.len() && (forall|j: int| 0 <= j < ws.len() ==> ws[j] <= ws[i]) && (forall|j: int|
        0 <= j < i ==> ws[j] < ws[i])
}

/// Entry `i` is the one the extractor selects: maximal declared width,
/// ties broken by first occurrence in directory order.
pub open spec fn is_best_icon(s: Seq<u8>, i: int) -> bool {
    0 <= i < ico_count(s) && (forall|j: int|
        0 <= j < ico_count(s) ==> ico_entry_width(s, j) <= ico_entry_width(s, i)) && (forall|j: int|
        0 <= j < i ==> ico_entry_width(s, j) < ico_entry_width(s, i))
}

/// The selection rule picks exactly one entry: maximal declared width with
/// first occurrence breaking ties is unambiguous.
pub proof fn lemma_best_icon_unique(s: Seq<u8>, i1: int, i2: int)
    requires
        is_best_icon(s, i1),
        is_best_icon(s, i2),
    ensures
        i1 == i2,
{
    if i1 < i2 {
        assert(ico_entry_width(s, i1) < ico_entry_width(s, i2));
        assert(ico_entry_width(s, i2) <= ico_entry_width(s, i1));
    }
    if i2 < i1 {
        assert(ico_entry_width(s, i2) < ico_entry_width(s, i1));
        assert(ico_entry_width(s, i1) <= ico_entry_width(s, i2));
    }
}

/// Parses the directory and hands back the declared widths, or nothing when
/// the container is unsound.
pub fn parse_icon_widths(s: &Vec<u8>) -> (r: Option<Vec<u32>>)
    ensures
        match r {
            Some(ws) => ico_ok(s@) && ws@.len() == ico_count(s@) && (forall|k: int|
                0 <= k < ws@.len() ==> ws@[k] == ico_entry_width(s@, k)),
            None => !ico_ok(s@),
        },
{
    let n: usize = s.len();
    if n < 6 {
        return None;
    }
    if read_le16(s, 0) != 0 {
        return None;
    }
    let restype = read_le16(s, 2);
    if restype != 1 && restype != 2 {
        return None;
    }
    let count = read_le16(s, 4) as usize;
    if 6 + 16 * count > n {
        return None;
    }
    let mut ws: Vec<u32> = Vec::new();
    let mut k: usize = 0;
    while k < count
        invariant
            k <= count,
            count == ico_count(s@),
            n == s@.len(),
            6 + 16 * count <= s@.len(),
            ws@.len() == k,
            forall|j: int| 0 <= j < k ==> ico_entry_ok(s@, j),
            forall|j: int| 0 <= j < k ==> ws@[j] == ico_entry_width(s@, j),
        decreases count - k,
    {
        let off: usize = 6 + 16 * k;
        if s[off + 3] != 0 {
            proof {
                assert(ico_ok(s@) ==> ico_entry_ok(s@, k as int));
            }
            return None;
        }
        let data_size = read_le32(s, off + 8);
        let data_off = read_le32(s, off + 12);
        if data_size != 0 && (data_off as u64) + (data_size as u64) > (n as u64) {
            proof {
                assert(!ico_entry_ok(s@, k as int));
                assert(ico_ok(s@) ==> ico_entry_ok(s@, k as int));
            }
            return None;
        }
        proof {
            assert(ico_entry_ok(s@, k as int));
        }
        let wb = s[off];
        let w: u32 = if wb == 0 {
            256
        } else {
            wb as u32
        };
        ws.push(w);
        k = k + 1;
    }
    Some(ws)
}

/// Picks the index of the greatest width, first occurrence winning ties;
/// nothing when the list is empty.
pub fn select_widest(ws: &Vec<u32>) -> (r: Option<usize>)
    ensures
        (r is None) <==> ws@.len() == 0,
        r matches Some(i) ==> is_max_first(ws@, i as int),
{
    if ws.len() == 0 {
        return None;
    }
    let mut best: usize = 0;
    let mut j: usize = 1;
    while j < ws.len()
        invariant
            1 <= j <= ws@.len(),
            0 <= best < j,
            forall|k: int| 0 <= k < j ==> ws@[k] <= ws@[best as int],
            forall|k: int| 0 <= k < best ==> ws@[k] < ws@[best as int],
        decreases ws@.len() - j,
    {
        if ws[j] > ws[best] {
            best = j;
        }
        j = j + 1;
    }
    Some(best)
}

/// The widest bitmap the renderer is handed. A payload's bitmap header may
/// declare any dimensions, and the decoder's row arithmetic and pixel
/// buffer must stay in range, so an entry declaring more than this in
/// either direction is refused rather than decoded.
pub const MAX_RENDER_DIM: u32 = 4096;

/// The signature that marks an entry's payload as PNG-encoded.
pub open spec fn png_sig() -> Seq<u8> {
    seq![137u8, 80u8, 78u8, 71u8, 13u8, 10u8, 26u8, 10u8]
}

/// Entry `k`'s payload is safe to hand to the renderer. A PNG payload is
/// decoded under the decoder's own size limits, and one too short for a
/// bitmap header is refused cleanly by the decoder; any other payload must
/// declare bounded dimensions: a width within the cap and an even, doubled
/// height within twice the cap.
pub open spec fn entry_render_safe(s: Seq<u8>, k: int) -> bool {
    let dsize = spec_le32(s, ico_entry_off(k) + 8);
    let doff = spec_le32(s, ico_entry_off(k) + 12);
    dsize < 40 || {
        let p = s.subrange(doff, doff + dsize);
        p.subrange(0, 8) == png_sig() || {
            let w = spec_le32(p, 4);
            let h = spec_le32(p, 8);
            &&& 1 <= w <= MAX_RENDER_DIM as int
            &&& 2 <= h <= 2 * (MAX_RENDER_DIM as int)
            &&& h % 2 == 0
        }
    }
}

/// Checks that entry `k`'s payload is safe to hand to the renderer.
fn entry_render_safe_exec(s: &Vec<u8>, k: usize) -> (r: bool)
    requires
        ico_ok(s@),
        k < ico_count(s@),
    ensures
        r == entry_render_safe(s@, k as int),
{
    let n: usize = s.len();
    proof {
        assert(ico_entry_ok(s@, k as int));
    }
    let off: usize = 6 + 16 * k;
    let dsize = read_le32(s, off + 8);
    let doff = read_le32(s, off + 12);
    if dsize < 40 {
        return true;
    }
    let p: usize = doff as usize;
    let ghost payload = s@.subrange(doff as int, doff as int + dsize as int);
    proof {
        assert(forall|i: int| 0 <= i < dsize ==> payload[i] == s@[doff + i]);
    }
    let is_png = s[p] == 137 && s[p + 1] == 80 && s[p + 2] == 78 && s[p + 3] == 71 && s[p + 4]
        == 13 && s[p + 5] == 10 && s[p + 6] == 26 && s[p + 7] == 10;
    proof {
        if is_png {
            assert(payload.subrange(0, 8) =~= png_sig());
        } else {
            assert(payload.subrange(0, 8)[0] == payload[0]);
            assert(payload.subrange(0, 8)[1] == payload[1]);
            assert(payload.subrange(0, 8)[2] == payload[2]);
            assert(payload.subrange(0, 8)[3] == payload[3]);
            assert(payload.subrange(0, 8)[4] == payload[4]);
            assert(payload.subrange(0, 8)[5] == payload[5]);
            assert(payload.subrange(0, 8)[6] == payload[6]);
            assert(payload.subrange(0, 8)[7] == payload[7]);
            assert(payload.subrange(0, 8) != png_sig());
        }
    }
    if is_png {
        return true;
    }
    let w = read_le32(s, p + 4);
    let h = read_le32(s, p + 8);
    proof {
        assert(spec_le32(payload, 4) == spec_le32(s@, doff + 4));
        assert(spec_le32(payload, 8) == spec_le32(s@, doff + 8));
    }
    1 <= w && w <= MAX_RENDER_DIM && 2 <= h && h <= 2 * MAX_RENDER_DIM && h % 2 == 0
}

/// What the outside renderer produces for entry `index` of a container:
/// the PNG re-encoding of the entry's decoded image data, or nothing when
/// the container does not re-parse, the index is out of range, or the
/// entry's image data does not decode. Both the outcome and the bytes are
/// functions of the container bytes and the index alone.
pub uninterp spec fn png_render_opt(ico: Seq<u8>, index: int) -> Option<Seq<u8>>;

/// Relies on ico::IconDir::read, ico::IconDirEntry::decode and
/// ico::IconImage::write_png: together they decode one entry of an icon
/// container and write it back out as a PNG, a pure function of the container
/// bytes and the entry index, succeeding exactly when that function has a
/// result. The decoder's bitmap row arithmetic is unchecked, so a payload
/// whose header declares out-of-range dimensions is left out by the
/// precondition; under it every failure is a clean error.
#[verifier::external_body]
fn render_entry_png(data: &Vec<u8>, index: usize) -> (r: Result<Vec<u8>, FloraLinkError>)
    requires
        ico_ok(data@),
        index < ico_count(data@),
        entry_render_safe(data@, index as int),
    ensures
        r is Ok <==> png_render_opt(data@, index as int) is Some,
        r matches Ok(png) ==> Some(png@) == png_render_opt(data@, index as int),
        r matches Err(e) ==> e == FloraLinkError::DecodeFailed,
{
    let cursor = std::io::Cursor::new(&data[..]);
    let bad = FloraLinkError::DecodeFailed;
    let dir = match ico::IconDir::read(cursor) { Ok(d) => d, Err(_) => return Err(bad) };
    let entry = match dir.entries().get(index) { Some(e) => e, None => return Err(bad) };
    let image = match entry.decode() { Ok(i) => i, Err(_) => return Err(bad) };
    let mut png: Vec<u8> = Vec::new();
    match image.write_png(&mut png) { Ok(()) => Ok(png), Err(_) => Err(bad) }
}

/// Decodes an icon container and renders its widest entry as a PNG.
///
/// An unsound container is refused and an empty directory is the distinct
/// `NoIcons` error. On a container with entries the call succeeds exactly
/// when the selected entry stays within the renderer's dimension cap and
/// renders, with that entry's PNG; an entry declaring out-of-range
/// dimensions or carrying image data that cannot be decoded is a decode
/// failure.
pub fn extract_icon_from_ico(data: &Vec<u8>) -> (r: Result<Vec<u8>, FloraLinkError>)
    ensures
        !ico_ok(data@) ==> r == Err::<Vec<u8>, FloraLinkError>(FloraLinkError::BadContainer),
        ico_ok(data@) && ico_count(data@) == 0 ==> r == Err::<Vec<u8>, FloraLinkError>(
            FloraLinkError::NoIcons,
        ),
        ico_ok(data@) && ico_count(data@) > 0 ==> ((r is Ok) <==> exists|i: int|
            #[trigger] is_best_icon(data@, i) && entry_render_safe(data@, i) && png_render_opt(
                data@,
                i,
            ) is Some),
        ico_ok(data@) && ico_count(data@) > 0 ==> match r {
            Ok(png) => exists|i: int|
                #[trigger] is_best_icon(data@, i) && entry_render_safe(data@, i)
                    && png_render_opt(data@, i) == Some(png@),
            Err(e) => e == FloraLinkError::DecodeFailed,
        },
{
    let ws = match parse_icon_widths(data) {
        Some(ws) => ws,
        None => {
            return Err(FloraLinkError::BadContainer);
        },
    };
    let best = match select_widest(&ws) {
        Some(b) => b,
        None => {
            return Err(FloraLinkError::NoIcons);
        },
    };
    proof {
        assert(is_best_icon(data@, best as int));
    }
    if !entry_render_safe_exec(data, best) {
        proof {
            assert forall|i: int|
                is_best_icon(data@, i) implies !(entry_render_safe(data@, i) && png_render_opt(
                data@,
                i,
            ) is Some) by {
                lemma_best_icon_unique(data@, i, best as int);
            }
        }
        return Err(FloraLinkError::DecodeFailed);
    }
    match render_entry_png(data, best) {
        Ok(png) => Ok(png),
        Err(_) => {
            proof {
                assert forall|i: int|
                    is_best_icon(data@, i) implies !(entry_render_safe(data@, i)
                    && png_render_opt(data@, i) is Some) by {
                    lemma_best_icon_unique(data@, i, best as int);
                }
            }
            Err(FloraLinkError::DecodeFailed)
        },
    }
}

} // verus!
