use flora::winepath::{unix_to_windows, windows_to_unix};

fn b(s: &str) -> Vec<u8> {
    s.as_bytes().to_vec()
}

fn s(v: Vec<u8>) -> String {
    String::from_utf8(v).unwrap()
}

#[test]
fn unix_to_windows_root() {
    let prefix = b("/wine/prefix");
    let unix_path = b("/home/seed/Downloads/setup.exe");

    assert_eq!(
        s(unix_to_windows(&prefix, &unix_path)),
        "Z:\\home\\seed\\Downloads\\setup.exe"
    );
}

#[test]
fn unix_to_windows_dosdevice() {
    let prefix = b("/wine/prefix");
    let unix_path = b(
        "/wine/prefix/dosdevices/c:/ProgramData/Microsoft/Windows/Start Menu/Programs/Seed/Seed.lnk",
    );

    assert_eq!(
        s(unix_to_windows(&prefix, &unix_path)),
        "C:\\ProgramData\\Microsoft\\Windows\\Start Menu\\Programs\\Seed\\Seed.lnk"
    );
}

#[test]
fn unix_to_windows_drive() {
    let prefix = b("/wine/prefix");
    let unix_path =
        b("/wine/prefix/drive_c/ProgramData/Microsoft/Windows/Start Menu/Programs/Seed/Seed.lnk");

    assert_eq!(
        s(unix_to_windows(&prefix, &unix_path)),
        "C:\\ProgramData\\Microsoft\\Windows\\Start Menu\\Programs\\Seed\\Seed.lnk"
    );
}

#[test]
fn windows_to_unix_test() {
    let prefix = b("/wine/prefix");
    let windows_path =
        b("C:\\ProgramData\\Microsoft\\Windows\\Start Menu\\Programs\\Seed\\Seed.lnk");

    assert_eq!(
        s(windows_to_unix(&prefix, &windows_path)),
        "/wine/prefix/dosdevices/c:/ProgramData/Microsoft/Windows/Start Menu/Programs/Seed/Seed.lnk"
    );
}

#[test]
fn windows_to_unix_without_drive_letter() {
    let prefix = b("/wine/prefix");
    let windows_path = b("Games\\Tool.exe");

    assert_eq!(
        s(windows_to_unix(&prefix, &windows_path)),
        "/wine/prefix/Games/Tool.exe"
    );
}

#[test]
fn windows_to_unix_keeps_dot_segments() {
    let prefix = b("/p");
    let windows_path = b("C:\\a\\..\\b");

    assert_eq!(s(windows_to_unix(&prefix, &windows_path)), "/p/dosdevices/c:/a/../b");
}

#[test]
fn unix_to_windows_empty_path() {
    let prefix = b("/wine/prefix");
    let unix_path = b("");

    assert_eq!(s(unix_to_windows(&prefix, &unix_path)), "Z:\\");
}

#[test]
fn unix_to_windows_dosdevice_drive_only() {
    let prefix = b("/wine/prefix");
    let unix_path = b("/wine/prefix/dosdevices/d:");

    assert_eq!(s(unix_to_windows(&prefix, &unix_path)), "D:\\");
}

#[test]
fn windows_to_unix_lowers_the_drive_letter() {
    let prefix = b("/wine/prefix");
    let windows_path = b("c:\\Games\\Tool.exe");

    assert_eq!(
        s(windows_to_unix(&prefix, &windows_path)),
        "/wine/prefix/dosdevices/c:/Games/Tool.exe"
    );
}

#[test]
fn windows_to_unix_drive_relative_path() {
    let prefix = b("/wine/prefix");
    let windows_path = b("C:Games\\Tool.exe");

    assert_eq!(
        s(windows_to_unix(&prefix, &windows_path)),
        "/wine/prefix/dosdevices/c:/Games/Tool.exe"
    );
}

#[test]
fn round_trip_closes_over_dosdevices() {
    let prefix = b("/wine/prefix");
    let windows_path = b("c:\\Games\\Tool.exe");

    let host = windows_to_unix(&prefix, &windows_path);
    let back = unix_to_windows(&prefix, &host);
    assert_eq!(s(back), "C:\\Games\\Tool.exe");
}

#[test]
fn round_trip_is_asymmetric_for_drive_convention() {
    // A host path under the directly-nested drive convention maps to a
    // drive-letter Windows path, but translating that Windows path back
    // assumes the mapping-directory convention: the pair does not close.
    let prefix = b("/wine/prefix");
    let host = b("/wine/prefix/drive_c/Games/Tool.exe");

    let win = unix_to_windows(&prefix, &host);
    assert_eq!(s(win.clone()), "C:\\Games\\Tool.exe");

    let back = windows_to_unix(&prefix, &win);
    assert_eq!(s(back), "/wine/prefix/dosdevices/c:/Games/Tool.exe");
}
