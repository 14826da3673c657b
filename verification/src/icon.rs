//! Classification of launch targets and the generic-icon fallback.
//!
//! A candidate file is classified from its bytes: native executables are
//! recognised by their binary signature, everything else is tried as a
//! Windows Shell Link, and what parses as neither is left unclassified.

use vstd::prelude::*;

use crate::shell_link::{
    parse_shell_link, spec_link_icon_location, spec_link_parses, spec_link_target,
};

verus! {

/// What kind of launch target a candidate file turned out to be.
#[derive(Debug)]
pub enum FloraLink {
    /// A native executable on the host, by its path
    LinuxExe(Vec<u8>),
    /// A shortcut naming an icon location, as a Windows path string
    WindowsIco(Vec<u8>),
    /// A shortcut naming its link target, as a Windows path string
    WindowsExe(Vec<u8>),
    /// Anything else, by its path
    Other(Vec<u8>),
}

/// Every error the icon pipeline can raise.
#[derive(Debug, Clone, Copy, PartialEq, Eq, Structural)]
pub enum FloraLinkError {
    /// A shortcut declared neither an icon location nor a link target
    LinkNoTarget,
    /// An executable had icon resources that could not be used
    IconNotFound,
    /// An icon container with an empty directory
    NoIcons,
    /// An icon container whose directory does not parse
    BadContainer,
    /// Image data that could not be decoded or re-encoded
    DecodeFailed,
}

/// The native-executable signature: the two magic bytes that open every
/// such image.
pub open spec fn spec_is_exe_signature(s: Seq<u8>) -> bool {
    s.len() > 1 && s[0] == 0x4d && s[1] == 0x5a
}

/// Signature test on a candidate's first bytes.
pub fn is_exe_signature(data: &Vec<u8>) -> (r: bool)
    ensures
        r == spec_is_exe_signature(data@),
{
    data.len() > 1 && data[0] == 0x4d && data[1] == 0x5a
}

/// NUL bytes stripped from both ends of a string.
pub open spec fn spec_trim_nul(s: Seq<u8>) -> Seq<u8>
    decreases s.len(),
{
    if s.len() == 0 {
        s
    } else if s.first() == 0 {
        spec_trim_nul(s.drop_first())
    } else if s.last() == 0 {
        spec_trim_nul(s.drop_last())
    } else {
        s
    }
}

/// Strips NUL padding bytes from both ends of a string.
pub fn trim_nul(s: &Vec<u8>) -> (r: Vec<u8>)
    ensures
        r@ == spec_trim_nul(s@),
{
    let mut lo: usize = 0;
    let mut hi: usize = s.len();
    proof {
        assert(s@.subrange(0, s@.len() as int) =~= s@);
    }
    while lo < hi && s[lo] == 0
        invariant
            0 <= lo <= hi <= s@.len(),
            hi == s@.len(),
            spec_trim_nul(s@) == spec_trim_nul(s@.subrange(lo as int, hi as int)),
        decreases hi - lo,
    {
        proof {
            let sub = s@.subrange(lo as int, hi as int);
            assert(sub.first() == s@[lo as int]);
            assert(sub.drop_first() =~= s@.subrange(lo as int + 1, hi as int));
        }
        lo = lo + 1;
    }
    while lo < hi && s[hi - 1] == 0
        invariant
            0 <= lo <= hi <= s@.len(),
            spec_trim_nul(s@) == spec_trim_nul(s@.subrange(lo as int, hi as int)),
            lo < hi ==> s@[lo as int] != 0,
        decreases hi - lo,
    {
        proof {
            let sub = s@.subrange(lo as int, hi as int);
            assert(sub.first() == s@[lo as int]);
            assert(sub.last() == s@[hi as int - 1]);
            assert(sub.drop_last() =~= s@.subrange(lo as int, hi as int - 1));
        }
        hi = hi - 1;
    }
    let r = crate::bytes::sub_bytes(s, lo, hi);
    proof {
        let sub = s@.subrange(lo as int, hi as int);
        if sub.len() != 0 {
            assert(sub.first() == s@[lo as int]);
            assert(sub.last() == s@[hi as int - 1]);
        }
        assert(spec_trim_nul(sub) == sub);
    }
    r
}

/// A sound Shell Link whose icon-location string is nonempty once its NUL
/// padding is stripped: the shortcut names an icon.
pub open spec fn spec_link_names_icon(data: Seq<u8>) -> bool {
    spec_link_icon_location(data) matches Some(loc) && spec_trim_nul(loc).len() > 0
}

/// Decides what kind of launch target the file at `path` is, from its bytes.
///
/// The native-executable signature wins outright; otherwise a structurally
/// sound Shell Link with a nonempty icon-location string names an icon, one
/// with a link target names an executable, and one with neither is the
/// distinct no-target error. Bytes that parse as nothing are unclassified.
pub fn find_lnk_exe_location(path: &Vec<u8>, data: &Vec<u8>) -> (r: Result<
    FloraLink,
    FloraLinkError,
>)
    ensures
        spec_is_exe_signature(data@) ==> (r matches Ok(FloraLink::LinuxExe(p)) && p@ == path@),
        !spec_is_exe_signature(data@) && !spec_link_parses(data@) ==> (r matches Ok(
            FloraLink::Other(p),
        ) && p@ == path@),
        !spec_is_exe_signature(data@) && spec_link_parses(data@) && spec_link_names_icon(data@)
            ==> (r matches Ok(FloraLink::WindowsIco(p)) && p@ == spec_trim_nul(
            spec_link_icon_location(data@).unwrap(),
        )),
        !spec_is_exe_signature(data@) && spec_link_parses(data@) && !spec_link_names_icon(data@)
            && spec_link_target(data@) is Some ==> (r matches Ok(FloraLink::WindowsExe(p)) && p@
            == spec_trim_nul(spec_link_target(data@).unwrap())),
        !spec_is_exe_signature(data@) && spec_link_parses(data@) && !spec_link_names_icon(data@)
            && spec_link_target(data@) is None ==> r == Err::<FloraLink, FloraLinkError>(
            FloraLinkError::LinkNoTarget,
        ),
{
    if is_exe_signature(data) {
        return Ok(FloraLink::LinuxExe(crate::bytes::clone_bytes(path)));
    }
    match parse_shell_link(data) {
        None => Ok(FloraLink::Other(crate::bytes::clone_bytes(path))),
        Some(strings) => {
            match strings.icon_location {
                Some(loc) => {
                    let trimmed = trim_nul(&loc);
                    if trimmed.len() > 0 {
                        return Ok(FloraLink::WindowsIco(trimmed));
                    }
                },
                None => {},
            }
            match strings.link_target {
                Some(t) => Ok(FloraLink::WindowsExe(trim_nul(&t))),
                None => Err(FloraLinkError::LinkNoTarget),
            }
        },
    }
}

} // verus!
