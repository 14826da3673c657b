use flora::ico::{extract_icon_from_ico, parse_icon_widths, select_widest};
use flora::icon::{find_lnk_exe_location, FloraLink, FloraLinkError};
use flora::pe::extract_icon_from_exe;
use flora::resolve::{
    icon_from_container_outcome, icon_from_executable_outcome, icon_name_or_fallback, icon_plan,
    resolved_icon, IconAction, ResolvedIcon,
};

fn push16(v: &mut Vec<u8>, x: u16) {
    v.extend_from_slice(&x.to_le_bytes());
}

fn push32(v: &mut Vec<u8>, x: u32) {
    v.extend_from_slice(&x.to_le_bytes());
}

/// A 1x1 32-bit bitmap icon image payload: header, one pixel, one mask row.
fn bmp_icon_payload() -> Vec<u8> {
    let mut p = Vec::new();
    push32(&mut p, 40); // header size
    push32(&mut p, 1); // width
    push32(&mut p, 2); // doubled height
    push16(&mut p, 1); // planes
    push16(&mut p, 32); // bits per pixel
    push32(&mut p, 0); // compression
    push32(&mut p, 0); // image size
    push32(&mut p, 0);
    push32(&mut p, 0);
    push32(&mut p, 0);
    push32(&mut p, 0);
    p.extend_from_slice(&[0x40, 0x80, 0xc0, 0xff]); // one BGRA pixel
    p.extend_from_slice(&[0, 0, 0, 0]); // mask row
    p
}

/// A container with a single 1x1 entry.
fn one_entry_ico() -> Vec<u8> {
    let payload = bmp_icon_payload();
    let mut v = Vec::new();
    push16(&mut v, 0);
    push16(&mut v, 1);
    push16(&mut v, 1);
    v.push(1); // width
    v.push(1); // height
    v.push(0); // colours
    v.push(0); // reserved
    push16(&mut v, 1); // planes
    push16(&mut v, 32); // bpp
    push32(&mut v, payload.len() as u32);
    push32(&mut v, 22); // offset: 6 + 16
    v.extend_from_slice(&payload);
    v
}

/// A directory of four data-less entries with the given width bytes.
fn widths_only_ico(widths: &[u8]) -> Vec<u8> {
    let mut v = Vec::new();
    push16(&mut v, 0);
    push16(&mut v, 1);
    push16(&mut v, widths.len() as u16);
    for w in widths {
        v.push(*w);
        v.push(*w);
        v.push(0);
        v.push(0);
        push16(&mut v, 1);
        push16(&mut v, 32);
        push32(&mut v, 0); // no data
        push32(&mut v, 0);
    }
    v
}

#[test]
fn widest_entry_wins_with_first_occurrence_ties() {
    let ws: Vec<u32> = vec![16, 32, 48, 256];
    assert_eq!(select_widest(&ws), Some(3));

    let tie: Vec<u32> = vec![48, 16, 48];
    assert_eq!(select_widest(&tie), Some(0));

    let empty: Vec<u32> = vec![];
    assert_eq!(select_widest(&empty), None);
}

#[test]
fn declared_width_zero_stands_for_256() {
    // Widths 16, 32, 48 and the stored zero byte, which declares 256.
    let ico = widths_only_ico(&[16, 32, 48, 0]);
    let ws = parse_icon_widths(&ico).unwrap();
    assert_eq!(ws, vec![16u32, 32, 48, 256]);
    assert_eq!(select_widest(&ws), Some(3));
}

#[test]
fn extract_from_container_writes_png() {
    let ico = one_entry_ico();
    let png = extract_icon_from_ico(&ico).unwrap();
    assert_eq!(&png[0..8], &[0x89, 0x50, 0x4e, 0x47, 0x0d, 0x0a, 0x1a, 0x0a]);
}

#[test]
fn empty_container_is_the_no_icons_error() {
    let mut v = Vec::new();
    push16(&mut v, 0);
    push16(&mut v, 1);
    push16(&mut v, 0);
    assert_eq!(extract_icon_from_ico(&v), Err(FloraLinkError::NoIcons));
}

#[test]
fn unsound_container_is_refused() {
    let garbage = vec![1u8, 2, 3];
    assert_eq!(extract_icon_from_ico(&garbage), Err(FloraLinkError::BadContainer));
}

#[test]
fn oversized_bitmap_declaration_is_refused_not_decoded() {
    // A sound directory whose single entry is a bitmap header declaring a
    // width of 2^27 at 32 bits per pixel: the renderer's dimension cap
    // refuses it instead of handing it to the decoder.
    let mut v = Vec::new();
    push16(&mut v, 0);
    push16(&mut v, 1);
    push16(&mut v, 1);
    v.push(0); // declared width 256
    v.push(0);
    v.push(0);
    v.push(0);
    push16(&mut v, 1);
    push16(&mut v, 32);
    push32(&mut v, 40);
    push32(&mut v, 22);
    push32(&mut v, 40); // bitmap header size
    push32(&mut v, 0x0800_0000); // width 2^27
    push32(&mut v, 2); // doubled height
    push16(&mut v, 1); // planes
    push16(&mut v, 32); // bits per pixel
    v.extend_from_slice(&[0u8; 24]);
    assert_eq!(v.len(), 62);
    assert_eq!(extract_icon_from_ico(&v), Err(FloraLinkError::DecodeFailed));
}

#[test]
fn undecodable_entry_is_a_decode_failure() {
    let mut v = Vec::new();
    push16(&mut v, 0);
    push16(&mut v, 1);
    push16(&mut v, 1);
    v.push(16);
    v.push(16);
    v.push(0);
    v.push(0);
    push16(&mut v, 1);
    push16(&mut v, 32);
    push32(&mut v, 4);
    push32(&mut v, 22);
    v.extend_from_slice(&[9, 9, 9, 9]);
    assert_eq!(extract_icon_from_ico(&v), Err(FloraLinkError::DecodeFailed));
}

/// A tiny executable whose single section holds one icon group with one
/// image, in either header layout.
fn pe_with_icon_in(is64: bool) -> Vec<u8> {
    let payload = bmp_icon_payload();
    let mut v = vec![0u8; 0x40];
    v[0] = 0x4d;
    v[1] = 0x5a;
    v[0x3c] = 0x40; // header offset
    // signature
    v.extend_from_slice(&[0x50, 0x45, 0, 0]);
    let opt_size: usize = if is64 { 240 } else { 224 };
    // object header: machine, one section, timestamps, symbols
    let mut coff = Vec::new();
    push16(&mut coff, if is64 { 0x8664 } else { 0x014c });
    push16(&mut coff, 1); // sections
    push32(&mut coff, 0);
    push32(&mut coff, 0);
    push32(&mut coff, 0);
    push16(&mut coff, opt_size as u16); // optional header size
    push16(&mut coff, 0x22);
    v.extend_from_slice(&coff);
    // optional header
    let mut opt = vec![0u8; opt_size];
    if is64 {
        opt[0] = 0x0b;
        opt[1] = 0x02; // magic
        opt[108] = 16; // directory count
    } else {
        opt[0] = 0x0b;
        opt[1] = 0x01;
        opt[92] = 16;
    }
    // resource directory entry: rva 0x1000, a generous size
    let dirs: usize = if is64 { 112 } else { 96 };
    opt[dirs + 16] = 0x00;
    opt[dirs + 17] = 0x10;
    opt[dirs + 20] = 0x00;
    opt[dirs + 21] = 0x02;
    v.extend_from_slice(&opt);
    // one section: virtual 0x1000, raw data at 0x200
    let mut sec = vec![0u8; 40];
    sec[0] = b'.';
    sec[1] = b'r';
    sec[2] = b's';
    sec[3] = b'r';
    sec[4] = b'c';
    sec[8] = 0x00;
    sec[9] = 0x02; // virtual size 0x200
    sec[12] = 0x00;
    sec[13] = 0x10; // virtual address 0x1000
    sec[16] = 0x00;
    sec[17] = 0x02; // raw size 0x200
    sec[20] = 0x00;
    sec[21] = 0x02; // raw offset 0x200
    v.extend_from_slice(&sec);
    while v.len() < 0x200 {
        v.push(0);
    }
    // resource section
    let mut r = Vec::new();
    // root: two id entries, RT_ICON and RT_GROUP_ICON
    r.extend_from_slice(&[0u8; 12]);
    push16(&mut r, 0); // named
    push16(&mut r, 2); // ids
    push32(&mut r, 3); // RT_ICON
    push32(&mut r, 0x8000_0030);
    push32(&mut r, 14); // RT_GROUP_ICON
    push32(&mut r, 0x8000_0060);
    while r.len() < 0x30 {
        r.push(0);
    }
    // icon directory: one id entry, icon number one
    r.extend_from_slice(&[0u8; 12]);
    push16(&mut r, 0);
    push16(&mut r, 1);
    push32(&mut r, 1);
    push32(&mut r, 0x8000_0048);
    while r.len() < 0x48 {
        r.push(0);
    }
    // icon language directory: one entry pointing at the image data entry
    r.extend_from_slice(&[0u8; 12]);
    push16(&mut r, 0);
    push16(&mut r, 1);
    push32(&mut r, 0x409);
    push32(&mut r, 0x90);
    while r.len() < 0x60 {
        r.push(0);
    }
    // group directory: one id entry
    r.extend_from_slice(&[0u8; 12]);
    push16(&mut r, 0);
    push16(&mut r, 1);
    push32(&mut r, 1);
    push32(&mut r, 0x8000_0078);
    while r.len() < 0x78 {
        r.push(0);
    }
    // group language directory: one entry pointing at the group data entry
    r.extend_from_slice(&[0u8; 12]);
    push16(&mut r, 0);
    push16(&mut r, 1);
    push32(&mut r, 0x409);
    push32(&mut r, 0xa0);
    while r.len() < 0x90 {
        r.push(0);
    }
    // data entry for the image: rva 0x10b0, its size
    push32(&mut r, 0x10b0);
    push32(&mut r, payload.len() as u32);
    push32(&mut r, 0);
    push32(&mut r, 0);
    // data entry for the group: rva 0x10e0
    push32(&mut r, 0x10e0);
    push32(&mut r, 20);
    push32(&mut r, 0);
    push32(&mut r, 0);
    while r.len() < 0xb0 {
        r.push(0);
    }
    // the image payload
    r.extend_from_slice(&payload);
    while r.len() < 0xe0 {
        r.push(0);
    }
    // the group resource: one 16x16 entry naming icon number one
    push16(&mut r, 0);
    push16(&mut r, 1);
    push16(&mut r, 1);
    r.push(16);
    r.push(16);
    r.push(0);
    r.push(0);
    push16(&mut r, 1);
    push16(&mut r, 32);
    push32(&mut r, payload.len() as u32);
    push16(&mut r, 1);
    v.extend_from_slice(&r);
    v
}

fn pe_with_icon() -> Vec<u8> {
    pe_with_icon_in(true)
}

#[test]
fn executable_icon_is_found_and_rendered() {
    let exe = pe_with_icon();
    let png = extract_icon_from_exe(&exe).unwrap().unwrap();
    assert_eq!(&png[0..8], &[0x89, 0x50, 0x4e, 0x47, 0x0d, 0x0a, 0x1a, 0x0a]);
}

#[test]
fn the_32_bit_layout_is_recognised_too() {
    let exe = pe_with_icon_in(false);
    let png = extract_icon_from_exe(&exe).unwrap().unwrap();
    assert_eq!(&png[0..8], &[0x89, 0x50, 0x4e, 0x47, 0x0d, 0x0a, 0x1a, 0x0a]);
}

#[test]
fn non_executable_bytes_are_the_soft_answer() {
    let garbage = vec![7u8; 128];
    assert_eq!(extract_icon_from_exe(&garbage), Ok(None));
}

#[test]
fn executable_without_resources_is_the_soft_answer() {
    let mut exe = pe_with_icon();
    // Clear the resource-directory virtual address.
    let dirs = 0x40 + 24 + 112;
    exe[dirs + 16] = 0;
    exe[dirs + 17] = 0;
    assert_eq!(extract_icon_from_exe(&exe), Ok(None));
}

fn lnk_header(flags: u32) -> Vec<u8> {
    let mut v = Vec::new();
    push32(&mut v, 0x4c);
    v.extend_from_slice(&[
        0x01, 0x14, 0x02, 0x00, 0x00, 0x00, 0x00, 0x00, 0xc0, 0x00, 0x00, 0x00, 0x00, 0x00, 0x00,
        0x46,
    ]);
    push32(&mut v, flags);
    push32(&mut v, 0); // attributes
    v.extend_from_slice(&[0u8; 24]); // times
    push32(&mut v, 0); // file size
    push32(&mut v, 0); // icon index
    push32(&mut v, 1); // show command
    push16(&mut v, 0); // hotkey
    push16(&mut v, 0);
    push32(&mut v, 0);
    push32(&mut v, 0);
    v
}

#[test]
fn shortcut_with_icon_location_names_an_icon() {
    // An icon-location string with NUL padding and no link target.
    let mut v = lnk_header(0x40);
    let icon = b"C:\\icons\\app.ico\0\0";
    push16(&mut v, icon.len() as u16);
    v.extend_from_slice(icon);
    match find_lnk_exe_location(&b"/tmp/x.lnk".to_vec(), &v).unwrap() {
        FloraLink::WindowsIco(loc) => assert_eq!(loc, b"C:\\icons\\app.ico".to_vec()),
        other => panic!("unexpected classification: {:?}", other),
    }
}

#[test]
fn shortcut_with_target_names_an_executable() {
    let mut v = lnk_header(0x02);
    // LinkInfo: header, volume block, base path, common path suffix.
    let mut li = Vec::new();
    push32(&mut li, 61); // block size
    push32(&mut li, 0x1c); // header size
    push32(&mut li, 1); // volume id and base path present
    push32(&mut li, 0x1c); // volume offset
    push32(&mut li, 0x30); // base path offset
    push32(&mut li, 0); // no network link
    push32(&mut li, 53); // suffix offset
    push32(&mut li, 0x14); // volume: size
    push32(&mut li, 0); // volume: drive type
    push32(&mut li, 0); // volume: serial
    push32(&mut li, 0x10); // volume: label offset
    li.extend_from_slice(&[0, 0, 0, 0]); // empty label
    li.extend_from_slice(b"C:\\T\0");
    li.extend_from_slice(b"app.exe\0");
    assert_eq!(li.len(), 61);
    v.extend_from_slice(&li);
    match find_lnk_exe_location(&b"/tmp/x.lnk".to_vec(), &v).unwrap() {
        FloraLink::WindowsExe(t) => assert_eq!(t, b"C:\\T\\app.exe".to_vec()),
        other => panic!("unexpected classification: {:?}", other),
    }
}

#[test]
fn unicode_shortcut_strings_decode_to_utf8() {
    // The unicode flag with an icon-location string holding a code point
    // outside the basic range.
    let mut v = lnk_header(0x40 | 0x80);
    let icon: Vec<u16> = "C:\\caf\u{e9}.ico".encode_utf16().collect();
    push16(&mut v, icon.len() as u16);
    for u in icon {
        push16(&mut v, u);
    }
    match find_lnk_exe_location(&b"/tmp/x.lnk".to_vec(), &v).unwrap() {
        FloraLink::WindowsIco(loc) => {
            assert_eq!(String::from_utf8(loc).unwrap(), "C:\\caf\u{e9}.ico")
        },
        other => panic!("unexpected classification: {:?}", other),
    }
}

#[test]
fn code_page_shortcut_strings_decode_to_utf8() {
    // The byte 0x80 of the code page stands for the euro sign.
    let mut v = lnk_header(0x40);
    let icon = [b'C', b':', b'\\', 0x80, b'.', b'i', b'c', b'o'];
    push16(&mut v, icon.len() as u16);
    v.extend_from_slice(&icon);
    match find_lnk_exe_location(&b"/tmp/x.lnk".to_vec(), &v).unwrap() {
        FloraLink::WindowsIco(loc) => {
            assert_eq!(String::from_utf8(loc).unwrap(), "C:\\\u{20ac}.ico")
        },
        other => panic!("unexpected classification: {:?}", other),
    }
}

#[test]
fn shortcut_without_icon_or_target_is_the_no_target_error() {
    let v = lnk_header(0);
    assert!(matches!(
        find_lnk_exe_location(&b"/tmp/x.lnk".to_vec(), &v),
        Err(FloraLinkError::LinkNoTarget)
    ));
}

#[test]
fn unparseable_bytes_are_unclassified() {
    let v = vec![0u8; 40];
    match find_lnk_exe_location(&b"/tmp/readme.txt".to_vec(), &v).unwrap() {
        FloraLink::Other(p) => assert_eq!(p, b"/tmp/readme.txt".to_vec()),
        other => panic!("unexpected classification: {:?}", other),
    }
}

#[test]
fn native_signature_wins_over_shortcut_parsing() {
    let mut v = lnk_header(0x40);
    v[0] = 0x4d;
    v[1] = 0x5a;
    match find_lnk_exe_location(&b"/tmp/tool".to_vec(), &v).unwrap() {
        FloraLink::LinuxExe(p) => assert_eq!(p, b"/tmp/tool".to_vec()),
        other => panic!("unexpected classification: {:?}", other),
    }
}

#[test]
fn icon_plan_follows_the_classification() {
    let prefix = b"/wine/prefix".to_vec();
    match icon_plan(&prefix, &FloraLink::WindowsIco(b"C:\\i.ico".to_vec())) {
        IconAction::ExtractContainer(p) => {
            assert_eq!(p, b"/wine/prefix/dosdevices/c:/i.ico".to_vec())
        },
        _ => panic!("wrong plan"),
    }
    match icon_plan(&prefix, &FloraLink::WindowsExe(b"C:\\a.exe".to_vec())) {
        IconAction::ExtractExecutable(p) => {
            assert_eq!(p, b"/wine/prefix/dosdevices/c:/a.exe".to_vec())
        },
        _ => panic!("wrong plan"),
    }
    match icon_plan(&prefix, &FloraLink::LinuxExe(b"/usr/bin/tool".to_vec())) {
        IconAction::ExtractExecutable(p) => assert_eq!(p, b"/usr/bin/tool".to_vec()),
        _ => panic!("wrong plan"),
    }
    match icon_plan(&prefix, &FloraLink::Other(b"/tmp/readme".to_vec())) {
        IconAction::GenericOnly(p) => assert_eq!(p, b"/tmp/readme".to_vec()),
        _ => panic!("wrong plan"),
    }
}

#[test]
fn extraction_failure_degrades_to_the_generic_name() {
    let png = String::from("/icons/a.png");
    match resolved_icon(true, &png, String::from("applications-other")) {
        ResolvedIcon::PngFile(p) => assert_eq!(p, "/icons/a.png"),
        _ => panic!("wrong resolution"),
    }
    match resolved_icon(false, &png, String::from("applications-other")) {
        ResolvedIcon::Generic(g) => assert_eq!(g, "applications-other"),
        _ => panic!("wrong resolution"),
    }
}

#[test]
fn generic_icon_name_falls_back_when_the_lookup_knows_nothing() {
    assert_eq!(
        icon_name_or_fallback(Some(String::from("text-x-generic"))),
        "text-x-generic"
    );
    assert_eq!(icon_name_or_fallback(None), "applications-other");
}

#[test]
fn container_extraction_errors_degrade_to_nothing() {
    assert_eq!(
        icon_from_container_outcome(Ok(vec![1u8, 2, 3])),
        Some(vec![1u8, 2, 3])
    );
    assert_eq!(
        icon_from_container_outcome(Err(FloraLinkError::DecodeFailed)),
        None
    );
    assert_eq!(icon_from_container_outcome(Err(FloraLinkError::NoIcons)), None);
}

#[test]
fn executable_extraction_errors_degrade_to_nothing() {
    assert_eq!(
        icon_from_executable_outcome(Ok(Some(vec![9u8]))),
        Some(vec![9u8])
    );
    assert_eq!(icon_from_executable_outcome(Ok(None)), None);
    assert_eq!(
        icon_from_executable_outcome(Err(FloraLinkError::BadContainer)),
        None
    );
}
