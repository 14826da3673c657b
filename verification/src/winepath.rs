//! Pure translation between Windows path syntax and the host filesystem
//! layout used by a compatibility prefix.
//!
//! A host path is split into segments on `/`; a Windows path is split on both
//! `\` and `/`. Segments are the maximal nonempty runs of non-separator
//! bytes, so repeated separators never produce empty segments.

use vstd::prelude::*;

use crate::bytes::{
    ascii_lower, ascii_upper, bytes_eq, bytes_starts_with, push_bytes, spec_lower, spec_upper,
};

verus! {

/// Separator bytes: `/` always, `\` only in Windows paths.
pub open spec fn is_sep(c: u8, win: bool) -> bool {
    c == 47 || (win && c == 92)
}

/// Length of the maximal run of non-separator bytes at the front of `s`.
pub open spec fn seg_len(s: Seq<u8>, win: bool) -> nat
    decreases s.len(),
{
    if s.len() == 0 || is_sep(s[0], win) {
        0
    } else {
        1 + seg_len(s.drop_first(), win)
    }
}

pub proof fn lemma_seg_len_bound(s: Seq<u8>, win: bool)
    ensures
        seg_len(s, win) <= s.len(),
    decreases s.len(),
{
    if s.len() != 0 && !is_sep(s[0], win) {
        lemma_seg_len_bound(s.drop_first(), win);
    }
}

/// The nonempty segments of `s`, in order.
pub open spec fn segments(s: Seq<u8>, win: bool) -> Seq<Seq<u8>>
    decreases s.len(),
    via segments_dec
{
    if s.len() == 0 {
        Seq::empty()
    } else if is_sep(s[0], win) {
        segments(s.drop_first(), win)
    } else {
        seq![s.take(seg_len(s, win) as int)] + segments(s.skip(seg_len(s, win) as int), win)
    }
}

#[via_fn]
proof fn segments_dec(s: Seq<u8>, win: bool) {
    lemma_seg_len_bound(s, win);
}

/// Splits a path into its segments.
pub fn split_segments(s: &Vec<u8>, win: bool) -> (r: Vec<Vec<u8>>)
    ensures
        r.deep_view() == segments(s@, win),
{
    let mut r: Vec<Vec<u8>> = Vec::new();
    let mut i: usize = 0;
    proof {
        lemma_seg_len_bound(s@, win);
        assert(s@.skip(0) =~= s@);
        assert(r.deep_view() =~~= Seq::<Seq<u8>>::empty());
        assert(Seq::<Seq<u8>>::empty() + segments(s@, win) =~= segments(s@, win));
    }
    while i < s.len()
        invariant
            i <= s@.len(),
            segments(s@, win) == r.deep_view() + segments(s@.skip(i as int), win),
        decreases s@.len() - i,
    {
        proof {
            lemma_seg_len_bound(s@.skip(i as int), win);
        }
        if is_sep_byte(s[i], win) {
            proof {
                assert(s@.skip(i as int).drop_first() =~= s@.skip(i as int + 1));
            }
            i = i + 1;
        } else {
            let ghost suffix = s@.skip(i as int);
            let start = i;
            let mut seg: Vec<u8> = Vec::new();
            while i < s.len() && !is_sep_byte(s[i], win)
                invariant
                    start <= i <= s@.len(),
                    suffix == s@.skip(start as int),
                    seg@ == s@.subrange(start as int, i as int),
                    seg_len(suffix, win) == (i - start) + seg_len(s@.skip(i as int), win),
                    seg_len(s@.skip(i as int), win) <= s@.len() - i,
                decreases s@.len() - i,
            {
                proof {
                    assert(s@.skip(i as int)[0] == s@[i as int]);
                    assert(s@.skip(i as int).drop_first() =~= s@.skip(i as int + 1));
                    lemma_seg_len_bound(s@.skip(i as int + 1), win);
                }
                seg.push(s[i]);
                i = i + 1;
                proof {
                    assert(s@.subrange(start as int, i as int) == s@.subrange(
                        start as int,
                        i as int - 1,
                    ).push(s@[i as int - 1]));
                }
            }
            proof {
                if i < s@.len() {
                    assert(s@.skip(i as int)[0] == s@[i as int]);
                }
                assert(seg_len(s@.skip(i as int), win) == 0);
                assert(seg_len(suffix, win) == i - start);
                assert(suffix.take(seg_len(suffix, win) as int) =~= s@.subrange(
                    start as int,
                    i as int,
                ));
                assert(suffix.skip(seg_len(suffix, win) as int) =~= s@.skip(i as int));
                assert(segments(suffix, win) == seq![seg@] + segments(s@.skip(i as int), win));
            }
            let ghost prev = r.deep_view();
            r.push(seg);
            proof {
                assert(r.deep_view() =~~= prev + seq![seg@]);
                assert((prev + seq![seg@]) + segments(s@.skip(i as int), win) =~= prev + segments(
                    suffix,
                    win,
                ));
            }
        }
    }
    proof {
        assert(s@.skip(s@.len() as int) =~= Seq::<u8>::empty());
        assert(r.deep_view() =~= r.deep_view() + segments(s@.skip(s@.len() as int), win));
    }
    r
}

/// Executable separator test.
pub fn is_sep_byte(c: u8, win: bool) -> (r: bool)
    ensures
        r == is_sep(c, win),
{
    c == 47 || (win && c == 92)
}

/// One `push` of a path segment: a separator is inserted unless the base is
/// empty or already ends with the separator.
pub open spec fn join_one(base: Seq<u8>, seg: Seq<u8>, sep: u8) -> Seq<u8> {
    if base.len() == 0 || base.last() == sep {
        base + seg
    } else {
        base + seq![sep] + seg
    }
}

/// Pushing every segment in turn onto `base`.
pub open spec fn joined(base: Seq<u8>, segs: Seq<Seq<u8>>, sep: u8) -> Seq<u8>
    decreases segs.len(),
{
    if segs.len() == 0 {
        base
    } else {
        joined(join_one(base, segs.first(), sep), segs.drop_first(), sep)
    }
}

/// A path never shrinks when segments are pushed onto it.
pub proof fn lemma_joined_extends(base: Seq<u8>, segs: Seq<Seq<u8>>, sep: u8)
    ensures
        crate::bytes::is_prefix_of(base, joined(base, segs, sep)),
    decreases segs.len(),
{
    if segs.len() == 0 {
        assert(joined(base, segs, sep).take(base.len() as int) =~= base);
    } else {
        let ext = join_one(base, segs.first(), sep);
        lemma_joined_extends(ext, segs.drop_first(), sep);
        assert(ext.take(base.len() as int) =~= base);
        let full = joined(base, segs, sep);
        assert(full.take(ext.len() as int).take(base.len() as int) =~= full.take(
            base.len() as int,
        ));
    }
}

/// Joining a concatenated segment list is joining the two parts in turn.
pub proof fn lemma_joined_concat(base: Seq<u8>, s1: Seq<Seq<u8>>, s2: Seq<Seq<u8>>, sep: u8)
    ensures
        joined(base, s1 + s2, sep) == joined(joined(base, s1, sep), s2, sep),
    decreases s1.len(),
{
    if s1.len() == 0 {
        assert(s1 + s2 =~= s2);
    } else {
        let ext = join_one(base, s1.first(), sep);
        assert((s1 + s2).first() == s1.first());
        assert((s1 + s2).drop_first() =~= s1.drop_first() + s2);
        lemma_joined_concat(ext, s1.drop_first(), s2, sep);
    }
}

/// Appends segment `seg` to the path in `dst`.
pub fn push_seg(dst: &mut Vec<u8>, seg: &Vec<u8>, sep: u8)
    ensures
        final(dst)@ == join_one(old(dst)@, seg@, sep),
{
    if dst.len() != 0 && dst[dst.len() - 1] != sep {
        dst.push(sep);
        proof {
            assert(dst@ == old(dst)@ + seq![sep]);
        }
    }
    push_bytes(dst, seg);
}

/// Appends the segments `segs[from..]` to the path in `dst`.
pub fn join_from(dst: &mut Vec<u8>, segs: &Vec<Vec<u8>>, from: usize, sep: u8)
    requires
        from <= segs@.len(),
    ensures
        final(dst)@ == joined(old(dst)@, segs.deep_view().skip(from as int), sep),
{
    let mut j: usize = from;
    while j < segs.len()
        invariant
            from <= j <= segs@.len(),
            segs.deep_view().len() == segs@.len(),
            joined(old(dst)@, segs.deep_view().skip(from as int), sep) == joined(
                dst@,
                segs.deep_view().skip(j as int),
                sep,
            ),
        decreases segs@.len() - j,
    {
        let ghost dv = segs.deep_view();
        proof {
            assert(dv.skip(j as int).first() == dv[j as int]);
            assert(dv[j as int] =~= segs@[j as int]@);
            assert(dv.skip(j as int).drop_first() =~= dv.skip(j as int + 1));
        }
        push_seg(dst, &segs[j], sep);
        j = j + 1;
    }
    proof {
        assert(segs.deep_view().skip(segs@.len() as int) =~= Seq::<Seq<u8>>::empty());
    }
}

/// The `dosdevices` mapping directory name.
pub open spec fn dosdevices_name() -> Seq<u8> {
    seq![100u8, 111u8, 115u8, 100u8, 101u8, 118u8, 105u8, 99u8, 101u8, 115u8]
}

fn dosdevices_vec() -> (r: Vec<u8>)
    ensures
        r@ == dosdevices_name(),
{
    let mut r: Vec<u8> = Vec::new();
    r.push(100);
    r.push(111);
    r.push(115);
    r.push(100);
    r.push(101);
    r.push(118);
    r.push(105);
    r.push(99);
    r.push(101);
    r.push(115);
    proof {
        assert(r@ =~= dosdevices_name());
    }
    r
}

/// The `drive_` token that opens a directly-nested drive directory.
pub open spec fn drive_token() -> Seq<u8> {
    seq![100u8, 114u8, 105u8, 118u8, 101u8, 95u8]
}

fn drive_token_vec() -> (r: Vec<u8>)
    ensures
        r@ == drive_token(),
{
    let mut r: Vec<u8> = Vec::new();
    r.push(100);
    r.push(114);
    r.push(105);
    r.push(118);
    r.push(101);
    r.push(95);
    proof {
        assert(r@ =~= drive_token());
    }
    r
}

/// Whether a Windows path opens with a drive letter, `C:`.
pub open spec fn has_drive(w: Seq<u8>) -> bool {
    w.len() >= 2 && is_ascii_alpha(w[0]) && w[1] == 58
}

pub open spec fn is_ascii_alpha(c: u8) -> bool {
    (65 <= c && c <= 90) || (97 <= c && c <= 122)
}

/// The `c:` mapping directory of a drive letter, lower-cased.
pub open spec fn drive_dir_of(w: Seq<u8>) -> Seq<u8> {
    seq![spec_lower(w[0]), 58u8]
}

/// The host path a Windows path names under a prefix: with a drive letter it
/// lives below the prefix's `dosdevices/<letter>:` mapping, without one it is
/// a fragment directly below the prefix. Never fails.
pub open spec fn host_path_of(prefix: Seq<u8>, w: Seq<u8>) -> Seq<u8> {
    if has_drive(w) {
        joined(prefix, seq![dosdevices_name(), drive_dir_of(w)] + segments(w.skip(2), true), 47)
    } else {
        joined(prefix, segments(w, true), 47)
    }
}

/// Translates a Windows path to the host path it names under `wine_prefix`.
pub fn windows_to_unix(wine_prefix: &Vec<u8>, windows_path: &Vec<u8>) -> (r: Vec<u8>)
    ensures
        r@ == host_path_of(wine_prefix@, windows_path@),
{
    let mut out = crate::bytes::clone_bytes(wine_prefix);
    let n: usize = windows_path.len();
    if n >= 2 && is_alpha_byte(windows_path[0]) && windows_path[1] == 58 {
        let ghost all = seq![dosdevices_name(), drive_dir_of(windows_path@)] + segments(
            windows_path@.skip(2),
            true,
        );
        let dos = dosdevices_vec();
        push_seg(&mut out, &dos, 47);
        let mut drv: Vec<u8> = Vec::new();
        drv.push(ascii_lower(windows_path[0]));
        drv.push(58);
        push_seg(&mut out, &drv, 47);
        proof {
            assert(drv@ =~= drive_dir_of(windows_path@));
            assert(all.take(2) =~= seq![dosdevices_name(), drive_dir_of(windows_path@)]);
            assert(all.skip(2) =~= segments(windows_path@.skip(2), true));
            assert(all =~= all.take(2) + all.skip(2));
            lemma_joined_concat(wine_prefix@, all.take(2), all.skip(2), 47);
            assert(all.take(2).first() == dosdevices_name());
            assert(all.take(2).drop_first() =~= seq![drive_dir_of(windows_path@)]);
            let base1 = join_one(wine_prefix@, dosdevices_name(), 47);
            let base2 = join_one(base1, drive_dir_of(windows_path@), 47);
            assert(joined(wine_prefix@, all.take(2), 47) == joined(
                base1,
                seq![drive_dir_of(windows_path@)],
                47,
            ));
            assert(seq![drive_dir_of(windows_path@)].drop_first() =~= Seq::<Seq<u8>>::empty());
            assert(joined(base1, seq![drive_dir_of(windows_path@)], 47) == joined(
                base2,
                Seq::<Seq<u8>>::empty(),
                47,
            ));
            assert(joined(base2, Seq::<Seq<u8>>::empty(), 47) == base2);
            assert(out@ == joined(wine_prefix@, all.take(2), 47));
        }
        let rest = crate::bytes::sub_bytes(windows_path, 2, n);
        let segs = split_segments(&rest, true);
        proof {
            assert(rest@ =~= windows_path@.skip(2));
        }
        join_from(&mut out, &segs, 0, 47);
        proof {
            assert(segs.deep_view().skip(0) =~= segs.deep_view());
        }
        out
    } else {
        let segs = split_segments(windows_path, true);
        join_from(&mut out, &segs, 0, 47);
        proof {
            assert(segs.deep_view().skip(0) =~= segs.deep_view());
        }
        out
    }
}

fn is_alpha_byte(c: u8) -> (r: bool)
    ensures
        r == is_ascii_alpha(c),
{
    (65 <= c && c <= 90) || (97 <= c && c <= 122)
}

/// Whether a host path is absolute.
pub open spec fn is_abs(s: Seq<u8>) -> bool {
    s.len() > 0 && s[0] == 47
}

fn is_abs_exec(v: &Vec<u8>) -> (r: bool)
    ensures
        r == is_abs(v@),
{
    v.len() > 0 && v[0] == 47
}

/// Whether `b` is a prefix of the segment list `a`.
pub open spec fn seg_seq_prefix(a: Seq<Seq<u8>>, b: Seq<Seq<u8>>) -> bool {
    b.len() <= a.len() && a.take(b.len() as int) == b
}

fn segs_prefix_eq(us: &Vec<Vec<u8>>, ps: &Vec<Vec<u8>>) -> (r: bool)
    ensures
        r == seg_seq_prefix(us.deep_view(), ps.deep_view()),
{
    let ghost udv = us.deep_view();
    let ghost pdv = ps.deep_view();
    proof {
        assert(udv.len() == us@.len());
        assert(pdv.len() == ps@.len());
    }
    if ps.len() > us.len() {
        return false;
    }
    let mut j: usize = 0;
    while j < ps.len()
        invariant
            j <= ps@.len() <= us@.len(),
            udv == us.deep_view(),
            pdv == ps.deep_view(),
            udv.len() == us@.len(),
            pdv.len() == ps@.len(),
            forall|k: int| 0 <= k < j ==> udv[k] == pdv[k],
        decreases ps@.len() - j,
    {
        proof {
            assert(udv[j as int] =~= us@[j as int]@);
            assert(pdv[j as int] =~= ps@[j as int]@);
        }
        if !bytes_eq(&us[j], &ps[j]) {
            proof {
                assert(udv.take(pdv.len() as int)[j as int] != pdv[j as int]);
            }
            return false;
        }
        j = j + 1;
    }
    proof {
        assert(udv.take(pdv.len() as int) =~= pdv);
    }
    true
}

/// The prefix-relative condition of the `dosdevices` convention: the host
/// path lies below the prefix and its next segment is `dosdevices`.
pub open spec fn under_dosdevices(prefix: Seq<u8>, u: Seq<u8>) -> bool {
    let ps = segments(prefix, false);
    let us = segments(u, false);
    is_abs(u) == is_abs(prefix) && us.len() > ps.len() && us.take(ps.len() as int) == ps
        && us[ps.len() as int] == dosdevices_name()
}

/// The prefix-relative condition of the directly-nested convention: the host
/// path lies below the prefix and its next segment opens with `drive_`.
pub open spec fn under_drive(prefix: Seq<u8>, u: Seq<u8>) -> bool {
    let ps = segments(prefix, false);
    let us = segments(u, false);
    is_abs(u) == is_abs(prefix) && us.len() > ps.len() && us.take(ps.len() as int) == ps
        && crate::bytes::is_prefix_of(drive_token(), us[ps.len() as int])
}

/// ASCII upper-casing of a whole byte string.
pub open spec fn upper_all(s: Seq<u8>) -> Seq<u8> {
    s.map_values(|c: u8| spec_upper(c))
}

/// A segment with any trailing `:` removed.
pub open spec fn strip_colon(s: Seq<u8>) -> Seq<u8> {
    if s.len() > 0 && s.last() == 58 {
        s.drop_last()
    } else {
        s
    }
}

/// `C:\` from a `dosdevices` mapping directory name such as `c:`.
pub open spec fn drive_root(seg: Seq<u8>) -> Seq<u8> {
    upper_all(strip_colon(seg)) + seq![58u8, 92u8]
}

/// `C:\` from a directly-nested drive directory name such as `drive_c`.
pub open spec fn drive_root_dir(seg: Seq<u8>) -> Seq<u8> {
    upper_all(seg.skip(6)) + seq![58u8, 92u8]
}

/// The synthetic root every unmatched host path is expressed under.
pub open spec fn z_root() -> Seq<u8> {
    seq![90u8, 58u8, 92u8]
}

/// The Windows path a host path is expressed as, under a prefix: the
/// `dosdevices` convention wins over the directly-nested `drive_` convention,
/// and everything else is spelled out verbatim under `Z:\`. Never fails.
pub open spec fn win_path_of(prefix: Seq<u8>, u: Seq<u8>) -> Seq<u8> {
    let ps = segments(prefix, false);
    let us = segments(u, false);
    if under_dosdevices(prefix, u) {
        let rem = us.skip(ps.len() as int + 1);
        if rem.len() == 0 {
            z_root()
        } else {
            joined(drive_root(rem.first()), rem.drop_first(), 92)
        }
    } else if under_drive(prefix, u) {
        let rem = us.skip(ps.len() as int);
        joined(drive_root_dir(rem.first()), rem.drop_first(), 92)
    } else {
        joined(z_root(), us, 92)
    }
}

fn upper_all_exec(seg: &Vec<u8>) -> (r: Vec<u8>)
    ensures
        r@ == upper_all(seg@),
{
    let mut r: Vec<u8> = Vec::new();
    let mut i: usize = 0;
    while i < seg.len()
        invariant
            i <= seg@.len(),
            r@ == upper_all(seg@.take(i as int)),
        decreases seg@.len() - i,
    {
        r.push(ascii_upper(seg[i]));
        i = i + 1;
        proof {
            assert(upper_all(seg@.take(i as int)) =~= upper_all(seg@.take(i as int - 1)).push(
                spec_upper(seg@[i as int - 1]),
            ));
        }
    }
    proof {
        assert(seg@.take(seg@.len() as int) =~= seg@);
    }
    r
}

fn z_root_vec() -> (r: Vec<u8>)
    ensures
        r@ == z_root(),
{
    let mut r: Vec<u8> = Vec::new();
    r.push(90);
    r.push(58);
    r.push(92);
    proof {
        assert(r@ =~= z_root());
    }
    r
}

fn drive_root_exec(seg: &Vec<u8>) -> (r: Vec<u8>)
    ensures
        r@ == drive_root(seg@),
{
    let n: usize = seg.len();
    let core = if n > 0 && seg[n - 1] == 58 {
        crate::bytes::sub_bytes(seg, 0, n - 1)
    } else {
        crate::bytes::clone_bytes(seg)
    };
    proof {
        assert(core@ =~= strip_colon(seg@));
    }
    let mut r = upper_all_exec(&core);
    r.push(58);
    r.push(92);
    proof {
        assert(r@ =~= drive_root(seg@));
    }
    r
}

fn drive_root_dir_exec(seg: &Vec<u8>) -> (r: Vec<u8>)
    requires
        crate::bytes::is_prefix_of(drive_token(), seg@),
    ensures
        r@ == drive_root_dir(seg@),
{
    let n: usize = seg.len();
    let rest = crate::bytes::sub_bytes(seg, 6, n);
    proof {
        assert(rest@ =~= seg@.skip(6));
    }
    let mut r = upper_all_exec(&rest);
    r.push(58);
    r.push(92);
    proof {
        assert(r@ =~= drive_root_dir(seg@));
    }
    r
}

/// Expresses a host path in Windows syntax relative to `prefix`, by the
/// precedence `dosdevices`, then `drive_`, then the verbatim `Z:\` fallback.
pub fn unix_to_windows(prefix: &Vec<u8>, unix_path: &Vec<u8>) -> (r: Vec<u8>)
    ensures
        r@ == win_path_of(prefix@, unix_path@),
{
    let psegs = split_segments(prefix, false);
    let usegs = split_segments(unix_path, false);
    let ghost ps = segments(prefix@, false);
    let ghost us = segments(unix_path@, false);
    let same_root = is_abs_exec(unix_path) == is_abs_exec(prefix);
    let pl = psegs.len();
    proof {
        assert(psegs.deep_view().len() == psegs@.len());
        assert(usegs.deep_view().len() == usegs@.len());
    }
    let within = same_root && usegs.len() > pl && segs_prefix_eq(&usegs, &psegs);
    if within && bytes_eq(&usegs[pl], &dosdevices_vec()) {
        proof {
            assert(usegs.deep_view()[pl as int] =~= usegs@[pl as int]@);
            assert(under_dosdevices(prefix@, unix_path@));
        }
        if usegs.len() == pl + 1 {
            proof {
                assert(us.skip(pl as int + 1).len() == 0);
            }
            z_root_vec()
        } else {
            let ghost rem = us.skip(pl as int + 1);
            proof {
                assert(usegs.deep_view()[pl as int + 1] =~= usegs@[pl as int + 1]@);
                assert(rem.first() == us[pl as int + 1]);
            }
            let mut out = drive_root_exec(&usegs[pl + 1]);
            proof {
                assert(rem.drop_first() =~= usegs.deep_view().skip(pl as int + 2));
            }
            join_from(&mut out, &usegs, pl + 2, 92);
            out
        }
    } else if within && bytes_starts_with(&usegs[pl], &drive_token_vec()) {
        proof {
            assert(usegs.deep_view()[pl as int] =~= usegs@[pl as int]@);
            assert(under_drive(prefix@, unix_path@));
            assert(!under_dosdevices(prefix@, unix_path@));
            assert(us.skip(pl as int).first() == us[pl as int]);
        }
        let mut out = drive_root_dir_exec(&usegs[pl]);
        proof {
            assert(us.skip(pl as int).drop_first() =~= usegs.deep_view().skip(pl as int + 1));
        }
        join_from(&mut out, &usegs, pl + 1, 92);
        out
    } else {
        proof {
            if within {
                assert(usegs.deep_view()[pl as int] =~= usegs@[pl as int]@);
            }
            assert(!under_dosdevices(prefix@, unix_path@));
            assert(!under_drive(prefix@, unix_path@));
        }
        let mut out = z_root_vec();
        join_from(&mut out, &usegs, 0, 92);
        proof {
            assert(usegs.deep_view().skip(0) =~= usegs.deep_view());
        }
        out
    }
}

/// For every prefix and every Windows path that opens with a drive letter,
/// the host path starts with `prefix/dosdevices/<lower(letter)>:` and is
/// followed by exactly the path's own segments.
pub proof fn lemma_host_path_under_dosdevices(prefix: Seq<u8>, w: Seq<u8>)
    requires
        has_drive(w),
    ensures
        host_path_of(prefix, w) == joined(
            join_one(join_one(prefix, dosdevices_name(), 47), drive_dir_of(w), 47),
            segments(w.skip(2), true),
            47,
        ),
        crate::bytes::is_prefix_of(
            join_one(join_one(prefix, dosdevices_name(), 47), drive_dir_of(w), 47),
            host_path_of(prefix, w),
        ),
{
    let all = seq![dosdevices_name(), drive_dir_of(w)] + segments(w.skip(2), true);
    let head = seq![dosdevices_name(), drive_dir_of(w)];
    assert(all.take(2) =~= head);
    assert(all.skip(2) =~= segments(w.skip(2), true));
    assert(all =~= all.take(2) + all.skip(2));
    lemma_joined_concat(prefix, all.take(2), all.skip(2), 47);
    let base1 = join_one(prefix, dosdevices_name(), 47);
    let base2 = join_one(base1, drive_dir_of(w), 47);
    assert(head.first() == dosdevices_name());
    assert(head.drop_first() =~= seq![drive_dir_of(w)]);
    assert(joined(prefix, head, 47) == joined(base1, seq![drive_dir_of(w)], 47));
    assert(seq![drive_dir_of(w)].drop_first() =~= Seq::<Seq<u8>>::empty());
    assert(joined(base1, seq![drive_dir_of(w)], 47) == joined(base2, Seq::<Seq<u8>>::empty(), 47));
    assert(joined(base2, Seq::<Seq<u8>>::empty(), 47) == base2);
    lemma_joined_extends(base2, segments(w.skip(2), true), 47);
}

/// For every prefix and every host path below `prefix/dosdevices/<d>` with a
/// mapping directory `<d>`, the Windows form starts with the upper-cased
/// drive root `<D>:\` and continues with exactly the remaining segments; the
/// `dosdevices` segment itself is consumed.
pub proof fn lemma_win_path_under_dosdevices(prefix: Seq<u8>, u: Seq<u8>)
    requires
        under_dosdevices(prefix, u),
        segments(u, false).len() > segments(prefix, false).len() + 1,
    ensures
        ({
            let rem = segments(u, false).skip(segments(prefix, false).len() as int + 1);
            win_path_of(prefix, u) == joined(drive_root(rem.first()), rem.drop_first(), 92)
                && crate::bytes::is_prefix_of(drive_root(rem.first()), win_path_of(prefix, u))
        }),
{
    let rem = segments(u, false).skip(segments(prefix, false).len() as int + 1);
    lemma_joined_extends(drive_root(rem.first()), rem.drop_first(), 92);
}

/// The two conventions cannot both apply: `dosdevices` is not a `drive_`
/// directory name.
pub proof fn lemma_conventions_exclusive(prefix: Seq<u8>, u: Seq<u8>)
    ensures
        !(under_dosdevices(prefix, u) && under_drive(prefix, u)),
{
    if under_dosdevices(prefix, u) && under_drive(prefix, u) {
        let seg = segments(u, false)[segments(prefix, false).len() as int];
        assert(seg.take(drive_token().len() as int)[1] == seg[1]);
    }
}

/// For every prefix and every host path below `prefix/drive_<d>`, the
/// Windows form starts with the upper-cased drive root `<D>:\` taken from
/// the `drive_` directory name and continues with exactly the remaining
/// segments.
pub proof fn lemma_win_path_under_drive(prefix: Seq<u8>, u: Seq<u8>)
    requires
        under_drive(prefix, u),
    ensures
        ({
            let rem = segments(u, false).skip(segments(prefix, false).len() as int);
            win_path_of(prefix, u) == joined(drive_root_dir(rem.first()), rem.drop_first(), 92)
                && crate::bytes::is_prefix_of(drive_root_dir(rem.first()), win_path_of(prefix, u))
        }),
{
    lemma_conventions_exclusive(prefix, u);
    let rem = segments(u, false).skip(segments(prefix, false).len() as int);
    assert(rem.first() == segments(u, false)[segments(prefix, false).len() as int]);
    lemma_joined_extends(drive_root_dir(rem.first()), rem.drop_first(), 92);
}

/// A segment is well-formed: nonempty and free of separators.
pub open spec fn seg_wf(seg: Seq<u8>, win: bool) -> bool {
    seg.len() > 0 && (forall|i: int| 0 <= i < seg.len() ==> !is_sep(seg[i], win))
}

/// The opening run of non-separators is exactly what `seg_len` counts.
proof fn lemma_seg_len_run(s: Seq<u8>, win: bool)
    ensures
        forall|i: int| 0 <= i < seg_len(s, win) ==> !is_sep(#[trigger] s[i], win),
    decreases s.len(),
{
    if s.len() != 0 && !is_sep(s[0], win) {
        lemma_seg_len_run(s.drop_first(), win);
        lemma_seg_len_bound(s.drop_first(), win);
        assert forall|i: int| 0 <= i < seg_len(s, win) implies !is_sep(#[trigger] s[i], win) by {
            if i > 0 {
                assert(0 <= i - 1 < seg_len(s.drop_first(), win));
                assert(s.drop_first()[i - 1] == s[i]);
                assert(!is_sep(s.drop_first()[i - 1], win));
            }
        }
    }
}

/// Splitting yields well-formed segments.
pub proof fn lemma_segments_wf(s: Seq<u8>, win: bool)
    ensures
        forall|k: int|
            0 <= k < segments(s, win).len() ==> #[trigger] seg_wf(segments(s, win)[k], win),
    decreases s.len(),
{
    lemma_seg_len_bound(s, win);
    if s.len() == 0 {
        assert(segments(s, win) =~= Seq::<Seq<u8>>::empty());
    } else if is_sep(s[0], win) {
        lemma_segments_wf(s.drop_first(), win);
        assert(segments(s, win) == segments(s.drop_first(), win));
    } else {
        let k = seg_len(s, win) as int;
        lemma_seg_len_run(s, win);
        lemma_segments_wf(s.skip(k), win);
        assert(segments(s, win) == seq![s.take(k)] + segments(s.skip(k), win));
        assert forall|j: int|
            0 <= j < segments(s, win).len() implies #[trigger] seg_wf(
            segments(s, win)[j],
            win,
        ) by {
            if j == 0 {
                assert(segments(s, win)[0] == s.take(k));
                assert(seg_wf(s.take(k), win)) by {
                    assert forall|i: int|
                        0 <= i < s.take(k).len() implies !is_sep(#[trigger] s.take(k)[i], win) by {
                        assert(s.take(k)[i] == s[i]);
                        assert(!is_sep(s[i], win));
                    }
                }
            } else {
                assert(segments(s, win)[j] == segments(s.skip(k), win)[j - 1]);
                assert(seg_wf(segments(s.skip(k), win)[j - 1], win));
            }
        }
    }
}

/// Scanning the opening run cannot pass a separator that follows `b`.
proof fn lemma_seg_len_concat(b: Seq<u8>, rest: Seq<u8>, win: bool)
    requires
        rest.len() > 0,
        is_sep(rest[0], win),
    ensures
        seg_len(b + rest, win) == seg_len(b, win),
    decreases b.len(),
{
    if b.len() == 0 {
        assert(b + rest =~= rest);
    } else if is_sep(b[0], win) {
        assert((b + rest)[0] == b[0]);
    } else {
        assert((b + rest)[0] == b[0]);
        assert((b + rest).drop_first() =~= b.drop_first() + rest);
        lemma_seg_len_concat(b.drop_first(), rest, win);
    }
}

/// A separator splits cleanly: the segments of `b`, then those of `c`.
proof fn lemma_segments_split(b: Seq<u8>, c: Seq<u8>, win: bool)
    ensures
        segments(b + seq![47u8] + c, win) == segments(b, win) + segments(c, win),
    decreases b.len(),
{
    lemma_seg_len_bound(b, win);
    let whole = b + seq![47u8] + c;
    if b.len() == 0 {
        assert(whole.drop_first() =~= c);
        assert(segments(b, win) + segments(c, win) =~= segments(c, win));
    } else if is_sep(b[0], win) {
        assert(whole[0] == b[0]);
        assert(whole.drop_first() =~= b.drop_first() + seq![47u8] + c);
        lemma_segments_split(b.drop_first(), c, win);
    } else {
        assert(whole[0] == b[0]);
        assert(whole =~= b + (seq![47u8] + c));
        lemma_seg_len_concat(b, seq![47u8] + c, win);
        let k = seg_len(b, win) as int;
        assert(whole.take(k) =~= b.take(k));
        assert(whole.skip(k) =~= b.skip(k) + seq![47u8] + c);
        lemma_segments_split(b.skip(k), c, win);
        assert(segments(whole, win) == seq![b.take(k)] + (segments(b.skip(k), win) + segments(
            c,
            win,
        )));
        assert(segments(b, win) == seq![b.take(k)] + segments(b.skip(k), win));
        assert(seq![b.take(k)] + (segments(b.skip(k), win) + segments(c, win)) =~= (seq![
            b.take(k),
        ] + segments(b.skip(k), win)) + segments(c, win));
    }
}

/// A nonempty separator-free string is its own single segment.
proof fn lemma_sep_free_whole(seg: Seq<u8>, win: bool)
    requires
        seg_wf(seg, win),
    ensures
        seg_len(seg, win) == seg.len(),
        segments(seg, win) == seq![seg],
    decreases seg.len(),
{
    assert(!is_sep(seg[0], win));
    if seg.len() == 1 {
        assert(seg.drop_first() =~= Seq::<u8>::empty());
        assert(seg_len(Seq::<u8>::empty(), win) == 0);
        assert(seg_len(seg.drop_first(), win) == 0);
        assert(seg_len(seg, win) == 1);
        assert(seg.take(1) =~= seg);
        assert(seg.skip(1) =~= Seq::<u8>::empty());
        assert(segments(Seq::<u8>::empty(), win) == Seq::<Seq<u8>>::empty());
        assert(segments(seg, win) =~= seq![seg]);
    } else {
        assert(seg_wf(seg.drop_first(), win)) by {
            assert forall|i: int|
                0 <= i < seg.drop_first().len() implies !is_sep(
                #[trigger] seg.drop_first()[i],
                win,
            ) by {
                assert(seg.drop_first()[i] == seg[i + 1]);
                assert(!is_sep(seg[i + 1], win));
            }
        }
        lemma_sep_free_whole(seg.drop_first(), win);
        let k = seg_len(seg, win) as int;
        assert(k == seg.len());
        assert(seg.take(k) =~= seg);
        assert(seg.skip(k) =~= Seq::<u8>::empty());
        assert(segments(Seq::<u8>::empty(), win) == Seq::<Seq<u8>>::empty());
        assert(segments(seg, win) =~= seq![seg]);
    }
}

/// Splitting after one push recovers the pushed segment.
proof fn lemma_segments_join_one(b: Seq<u8>, seg: Seq<u8>, win: bool)
    requires
        seg_wf(seg, win),
    ensures
        segments(join_one(b, seg, 47), win) == segments(b, win) + seq![seg],
{
    lemma_sep_free_whole(seg, win);
    if b.len() == 0 {
        assert(join_one(b, seg, 47) =~= seg);
        assert(segments(b, win) + seq![seg] =~= seq![seg]);
    } else if b.last() == 47 {
        let front = b.drop_last();
        assert(b + seg =~= front + seq![47u8] + seg);
        lemma_segments_split(front, seg, win);
        assert(b =~= front + seq![47u8] + Seq::<u8>::empty());
        lemma_segments_split(front, Seq::<u8>::empty(), win);
        assert(segments(b, win) =~= segments(front, win) + segments(Seq::<u8>::empty(), win));
        assert(segments(Seq::<u8>::empty(), win) =~= Seq::<Seq<u8>>::empty());
        assert(segments(b, win) =~= segments(front, win));
        assert(join_one(b, seg, 47) =~= front + seq![47u8] + seg);
    } else {
        assert(join_one(b, seg, 47) =~= b + seq![47u8] + seg);
        lemma_segments_split(b, seg, win);
    }
}

/// Splitting a joined path recovers the joined segments.
pub proof fn lemma_segments_joined(b: Seq<u8>, segs: Seq<Seq<u8>>, win: bool)
    requires
        forall|k: int| 0 <= k < segs.len() ==> #[trigger] seg_wf(segs[k], win),
    ensures
        segments(joined(b, segs, 47), win) == segments(b, win) + segs,
    decreases segs.len(),
{
    if segs.len() == 0 {
        assert(segments(b, win) + segs =~= segments(b, win));
    } else {
        let ext = join_one(b, segs.first(), 47);
        lemma_segments_join_one(b, segs.first(), win);
        assert(forall|k: int|
            0 <= k < segs.drop_first().len() ==> segs.drop_first()[k] == segs[k + 1]);
        lemma_segments_joined(ext, segs.drop_first(), win);
        assert((segments(b, win) + seq![segs.first()]) + segs.drop_first() =~= segments(b, win)
            + segs);
    }
}

/// Translating a drive-lettered Windows path to its host form and back
/// recovers the upper-cased drive root and exactly the path's own segments:
/// the pair closes over the `dosdevices` convention.
pub proof fn lemma_round_trip_through_dosdevices(prefix: Seq<u8>, w: Seq<u8>)
    requires
        has_drive(w),
        is_abs(prefix),
    ensures
        win_path_of(prefix, host_path_of(prefix, w)) == joined(
            seq![spec_upper(w[0]), 58u8, 92u8],
            segments(w.skip(2), true),
            92,
        ),
{
    let dos = dosdevices_name();
    let drv = drive_dir_of(w);
    let segs_w = segments(w.skip(2), true);
    let all = seq![dos, drv] + segs_w;
    let host = host_path_of(prefix, w);
    assert(host == joined(prefix, all, 47));
    // every joined segment is nonempty and free of `/`
    lemma_segments_wf(w.skip(2), true);
    assert forall|k: int| 0 <= k < all.len() implies #[trigger] seg_wf(all[k], false) by {
        if k == 0 {
            assert(forall|i: int| 0 <= i < dos.len() ==> dos[i] != 47);
        } else if k == 1 {
            assert(drv[0] == spec_lower(w[0]));
            assert(drv[0] != 47);
            assert(drv[1] == 58);
        } else {
            assert(all[k] == segs_w[k - 2]);
            assert(seg_wf(segs_w[k - 2], true));
        }
    }
    lemma_segments_joined(prefix, all, false);
    let ps = segments(prefix, false);
    let us = segments(host, false);
    assert(us == ps + all);
    // the host path opens like the prefix, so it is absolute too
    lemma_joined_extends(prefix, all, 47);
    assert(host.take(prefix.len() as int)[0] == host[0]);
    assert(is_abs(host));
    assert(under_dosdevices(prefix, host)) by {
        assert(us.take(ps.len() as int) =~= ps);
        assert(us[ps.len() as int] == all[0]);
    }
    let rem = us.skip(ps.len() as int + 1);
    assert(rem =~= seq![drv] + segs_w);
    assert(rem.first() == drv);
    assert(rem.drop_first() =~= segs_w);
    // the mapping directory names the drive letter back, upper-cased
    assert(drive_root(drv) =~= seq![spec_upper(w[0]), 58u8, 92u8]) by {
        assert(drv.last() == 58);
        assert(strip_colon(drv) =~= seq![spec_lower(w[0])]);
        assert(upper_all(seq![spec_lower(w[0])]) =~= seq![spec_upper(spec_lower(w[0]))]);
        assert(spec_upper(spec_lower(w[0])) == spec_upper(w[0]));
    }
    assert(win_path_of(prefix, host) == joined(drive_root(rem.first()), rem.drop_first(), 92));
}

/// Any host path under neither convention is expressed verbatim under the
/// synthetic `Z:\` root, from its own segments, whatever the prefix.
pub proof fn lemma_win_path_fallback(prefix: Seq<u8>, u: Seq<u8>)
    requires
        !under_dosdevices(prefix, u),
        !under_drive(prefix, u),
    ensures
        win_path_of(prefix, u) == joined(z_root(), segments(u, false), 92),
        crate::bytes::is_prefix_of(z_root(), win_path_of(prefix, u)),
{
    lemma_joined_extends(z_root(), segments(u, false), 92);
}

} // verus!
