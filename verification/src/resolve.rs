//! Resolving the icon of one app: which extraction to attempt for a
//! classified target, and how every outcome degrades to a generic icon
//! name instead of failing the caller.

use vstd::prelude::*;

use crate::icon::FloraLink;
use crate::winepath::host_path_of;

verus! {

/// The extraction a classified target calls for, with the host path to
/// read: a shortcut's icon location and a shortcut's target are translated
/// under the prefix, a native executable is read where it is, and an
/// unclassified file gets no extraction at all.
pub enum IconAction {
    /// Read an icon container at this host path
    ExtractContainer(Vec<u8>),
    /// Search an executable at this host path for icon resources
    ExtractExecutable(Vec<u8>),
    /// Skip extraction; only the generic name lookup applies
    GenericOnly(Vec<u8>),
}

/// Decides the extraction step for a classification, under a prefix.
pub fn icon_plan(prefix: &Vec<u8>, resolution: &FloraLink) -> (r: IconAction)
    ensures
        match resolution {
            FloraLink::WindowsIco(loc) => r matches IconAction::ExtractContainer(p) && p@
                == host_path_of(prefix@, loc@),
            FloraLink::WindowsExe(t) => r matches IconAction::ExtractExecutable(p) && p@
                == host_path_of(prefix@, t@),
            FloraLink::LinuxExe(q) => r matches IconAction::ExtractExecutable(p) && p@ == q@,
            FloraLink::Other(q) => r matches IconAction::GenericOnly(p) && p@ == q@,
        },
{
    match resolution {
        FloraLink::WindowsIco(loc) => IconAction::ExtractContainer(
            crate::winepath::windows_to_unix(prefix, loc),
        ),
        FloraLink::WindowsExe(t) => IconAction::ExtractExecutable(
            crate::winepath::windows_to_unix(prefix, t),
        ),
        FloraLink::LinuxExe(q) => IconAction::ExtractExecutable(crate::bytes::clone_bytes(q)),
        FloraLink::Other(q) => IconAction::GenericOnly(crate::bytes::clone_bytes(q)),
    }
}

/// The icon reference handed back to the caller: a freshly written raster
/// file, or a symbolic icon name from the generic lookup.
pub enum ResolvedIcon {
    /// The raster file at this path
    PngFile(String),
    /// A symbolic icon name
    Generic(String),
}

/// The name the generic-icon lookup settles on: the icon-theme database's
/// answer when it has one, else the fixed fallback name. The lookup itself
/// reads the machine's database, so the caller runs it and hands the answer
/// in.
pub fn icon_name_or_fallback(found: Option<String>) -> (r: String)
    ensures
        match found {
            Some(n) => r@ == n@,
            None => r@ == "applications-other"@,
        },
{
    match found {
        Some(n) => n,
        None => String::from_str("applications-other"),
    }
}

/// The image a container extraction yields, if any: every error degrades to
/// nothing, so the caller falls back to the generic icon name instead of
/// failing.
pub fn icon_from_container_outcome(r: Result<Vec<u8>, crate::icon::FloraLinkError>) -> (o: Option<
    Vec<u8>,
>)
    ensures
        match r {
            Ok(png) => o matches Some(q) && q@ == png@,
            Err(_) => o is None,
        },
{
    match r {
        Ok(png) => Some(png),
        Err(_) => None,
    }
}

/// The image an executable extraction yields, if any: the soft no-icon
/// answer and every error alike degrade to nothing, so the caller falls
/// back to the generic icon name instead of failing.
pub fn icon_from_executable_outcome(
    r: Result<Option<Vec<u8>>, crate::icon::FloraLinkError>,
) -> (o: Option<Vec<u8>>)
    ensures
        match r {
            Ok(found) => match found {
                Some(png) => o matches Some(q) && q@ == png@,
                None => o is None,
            },
            Err(_) => o is None,
        },
{
    match r {
        Ok(Some(png)) => Some(png),
        Ok(None) => None,
        Err(_) => None,
    }
}

/// The reference the caller uses after an extraction attempt: the written
/// raster file when extraction succeeded, else the generic icon name.
/// Extraction failure never propagates past this point.
pub fn resolved_icon(extracted: bool, png_path: &String, generic_name: String) -> (r: ResolvedIcon)
    ensures
        extracted ==> (r matches ResolvedIcon::PngFile(p) && p@ == png_path@),
        !extracted ==> (r matches ResolvedIcon::Generic(g) && g@ == generic_name@),
{
    if extracted {
        ResolvedIcon::PngFile(png_path.clone())
    } else {
        ResolvedIcon::Generic(generic_name)
    }
}

} // verus!
