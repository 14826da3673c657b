//! The runner layer: resolving which prefix and runtime a seed launches
//! with, the words of the launch command, and the Start Menu locations a
//! prefix carries.

use vstd::prelude::*;

use crate::config::FloraConfig;
use crate::dirs::FloraDirs;
use crate::errors::FloraError;
use crate::seed::{FloraProtonSeed, FloraSeedSettings, FloraWineSeed};
use crate::strpath::{clone_opt_string, join_path, opt_string_view, spec_join};

verus! {

/// What the word splitter makes of a launcher command: the split depends on
/// the string alone, and a string with an unclosed quote or a trailing
/// escape yields nothing.
pub uninterp spec fn shell_words(s: Seq<char>) -> Option<Seq<Seq<char>>>;

/// Relies on shlex::split for the word split of a launcher command.
#[verifier::external_body]
fn shell_split(s: &str) -> (r: Option<Vec<String>>)
    ensures
        match r {
            Some(v) => shell_words(s@) == Some(v.deep_view()),
            None => shell_words(s@) is None,
        },
{
    shlex::split(s)
}

/// Relies on whoami::username: the name answers from the environment;
/// nothing is promised of it.
#[verifier::external_body]
fn current_username() -> (r: Option<String>) {
    match whoami::username() {
        Ok(u) => Some(u),
        Err(_) => None,
    }
}

/// The launcher command a seed's settings carry, if any.
pub open spec fn spec_launcher(settings: Option<Box<FloraSeedSettings>>) -> Option<Seq<char>> {
    match settings {
        Some(s) => opt_string_view(s.launcher_command),
        None => None,
    }
}

/// The words a command line opens with: the launcher words when a launcher
/// is set, handed the program as its last argument; else the program alone.
/// An unsplittable or empty launcher command is refused.
pub open spec fn spec_launch_head(launcher: Option<Seq<char>>, program: Seq<char>) -> Result<
    Seq<Seq<char>>,
    FloraError,
> {
    match launcher {
        None => Ok(seq![program]),
        Some(l) => match shell_words(l) {
            None => Err(FloraError::IncorrectLauncher),
            Some(ws) => if ws.len() == 0 {
                Err(FloraError::IncorrectLauncher)
            } else {
                Ok(ws.push(program))
            },
        },
    }
}

/// Builds the opening words of a launch: launcher words, then the program.
fn launch_head(launcher: &Option<String>, program: &String) -> (r: Result<Vec<String>, FloraError>)
    ensures
        match r {
            Ok(v) => spec_launch_head(opt_string_view(*launcher), program@) == Ok::<
                _,
                FloraError,
            >(v.deep_view()),
            Err(e) => spec_launch_head(opt_string_view(*launcher), program@) == Err::<
                Seq<Seq<char>>,
                FloraError,
            >(e),
        },
{
    match launcher {
        None => {
            let mut v: Vec<String> = Vec::new();
            v.push(program.clone());
            proof {
                assert(v.deep_view() =~~= seq![program@]);
            }
            Ok(v)
        },
        Some(l) => {
            match shell_split(l.as_str()) {
                None => Err(FloraError::IncorrectLauncher),
                Some(ws) => {
                    if ws.len() == 0 {
                        proof {
                            assert(ws.deep_view().len() == 0);
                        }
                        return Err(FloraError::IncorrectLauncher);
                    }
                    let ghost prev = ws.deep_view();
                    let mut v = ws;
                    v.push(program.clone());
                    proof {
                        assert(v.deep_view() =~~= prev.push(program@));
                    }
                    Ok(v)
                },
            }
        },
    }
}

/// A resolved Wine launch environment.
pub struct FloraWineRunner {
    pub name: String,
    pub launcher_command: Option<String>,
    pub prefix: String,
    pub runtime: String,
}

/// The prefix a Wine seed launches in: the seed's own, else the configured
/// default, else the well-known fallback under the root.
pub open spec fn spec_wine_prefix(
    dirs_root: Seq<char>,
    config: FloraConfig,
    seed: FloraWineSeed,
) -> Seq<char> {
    match seed.wine_prefix {
        Some(p) => p@,
        None => match config.wine {
            Some(wc) => wc.default_wine_prefix@,
            None => spec_join(dirs_root, "prefixes/default"@),
        },
    }
}

/// The runtime directory a Wine seed launches with: the seed's own under
/// the runtime root, else a nonempty configured default under the runtime
/// root, else the system installation.
pub open spec fn spec_wine_runtime(
    dirs_root: Seq<char>,
    config: FloraConfig,
    seed: FloraWineSeed,
) -> Seq<char> {
    match seed.wine_runtime {
        Some(rt) => spec_join(spec_join(dirs_root, "wine"@), rt@),
        None => match config.wine {
            Some(wc) => match wc.default_wine_runtime {
                Some(d) => if d@.len() > 0 {
                    spec_join(spec_join(dirs_root, "wine"@), d@)
                } else {
                    "/usr"@
                },
                None => "/usr"@,
            },
            None => "/usr"@,
        },
    }
}

impl FloraWineRunner {
    /// Resolves a Wine seed's launch environment. Whether the resolved
    /// runtime directory exists on disk is the caller's check.
    pub fn prepare(
        name: &str,
        dirs: &FloraDirs,
        config: &FloraConfig,
        settings: &Option<Box<FloraSeedSettings>>,
        wine_seed: &FloraWineSeed,
    ) -> (r: FloraWineRunner)
        ensures
            r.name@ == name@,
            opt_string_view(r.launcher_command) == spec_launcher(*settings),
            r.prefix@ == spec_wine_prefix(dirs.flora_root@, *config, *wine_seed),
            r.runtime@ == spec_wine_runtime(dirs.flora_root@, *config, *wine_seed),
    {
        let prefix = match &wine_seed.wine_prefix {
            Some(p) => p.clone(),
            None => match &config.wine {
                Some(wc) => wc.default_wine_prefix.clone(),
                None => dirs.get_fallback_prefix(),
            },
        };
        let runtime = match &wine_seed.wine_runtime {
            Some(rt) => {
                let root = dirs.get_wine_root();
                join_path(root.as_str(), rt.as_str())
            },
            None => {
                let mut chosen: Option<String> = None;
                match &config.wine {
                    Some(wc) => {
                        match &wc.default_wine_runtime {
                            Some(d) => {
                                if d.unicode_len() > 0 {
                                    let root = dirs.get_wine_root();
                                    chosen = Some(join_path(root.as_str(), d.as_str()));
                                }
                            },
                            None => {},
                        }
                    },
                    None => {},
                }
                match chosen {
                    Some(c) => c,
                    None => String::from_str("/usr"),
                }
            },
        };
        let launcher_command = match settings {
            Some(s) => clone_opt_string(&s.launcher_command),
            None => None,
        };
        FloraWineRunner { name: name.to_owned(), launcher_command, prefix, runtime }
    }

    /// The runtime directory and prefix a launch uses.
    pub fn gather_command_info(&self) -> (r: (String, String))
        ensures
            r.0@ == self.runtime@,
            r.1@ == self.prefix@,
    {
        (self.runtime.clone(), self.prefix.clone())
    }

    /// The interpreter a launch runs: the runtime's own binary, or the
    /// system one when no runtime directory is set.
    pub fn wine_exe(&self) -> (r: String)
        ensures
            r@ == (if self.runtime@.len() > 0 {
                spec_join(self.runtime@, "bin/wine"@)
            } else {
                spec_join(self.runtime@, "/usr/bin/wine"@)
            }),
    {
        if self.runtime.unicode_len() > 0 {
            join_path(self.runtime.as_str(), "bin/wine")
        } else {
            join_path(self.runtime.as_str(), "/usr/bin/wine")
        }
    }

    /// The words of a launch: the launcher command's words, the
    /// interpreter, then the arguments.
    pub fn launch_argv(&self, args: &Vec<String>) -> (r: Result<Vec<String>, FloraError>)
        ensures
            ({
                let exe = if self.runtime@.len() > 0 {
                    spec_join(self.runtime@, "bin/wine"@)
                } else {
                    spec_join(self.runtime@, "/usr/bin/wine"@)
                };
                match spec_launch_head(opt_string_view(self.launcher_command), exe) {
                    Err(e) => r == Err::<Vec<String>, FloraError>(e),
                    Ok(head) => r matches Ok(v) && v.deep_view() == head + args.deep_view(),
                }
            }),
    {
        let exe = self.wine_exe();
        let mut head = match launch_head(&self.launcher_command, &exe) {
            Ok(h) => h,
            Err(e) => {
                return Err(e);
            },
        };
        append_strings(&mut head, args);
        Ok(head)
    }

    /// The per-user Start Menu directory of this prefix, for a given user.
    pub fn start_menu_dir_for_user(&self, username: &str) -> (r: String)
        ensures
            r@ == spec_join(
                spec_join(spec_join(self.prefix@, "drive_c/users"@), username@),
                "AppData/Roaming/Microsoft/Windows/Start Menu"@,
            ),
    {
        let a = join_path(self.prefix.as_str(), "drive_c/users");
        let b = join_path(a.as_str(), username);
        join_path(b.as_str(), "AppData/Roaming/Microsoft/Windows/Start Menu")
    }

    /// The per-user Start Menu directory of this prefix, for whoever is
    /// running now.
    pub fn get_start_menu_dir(&self) -> (r: String)
        ensures
            exists|u: Seq<char>|
                r@ == spec_join(
                    spec_join(spec_join(self.prefix@, "drive_c/users"@), u),
                    "AppData/Roaming/Microsoft/Windows/Start Menu"@,
                ),
    {
        let user = match current_username() {
            Some(u) => u,
            None => String::new(),
        };
        let r = self.start_menu_dir_for_user(user.as_str());
        proof {
            assert(r@ == spec_join(
                spec_join(spec_join(self.prefix@, "drive_c/users"@), user@),
                "AppData/Roaming/Microsoft/Windows/Start Menu"@,
            ));
        }
        r
    }

    /// The machine-wide Start Menu directory of this prefix.
    pub fn get_system_start_menu_dir(&self) -> (r: String)
        ensures
            r@ == spec_join(self.prefix@, "drive_c/ProgramData/Microsoft/Windows/Start Menu"@),
    {
        join_path(self.prefix.as_str(), "drive_c/ProgramData/Microsoft/Windows/Start Menu")
    }
}

/// A resolved Proton launch environment.
pub struct FloraProtonRunner {
    pub name: String,
    pub launcher_command: Option<String>,
    pub prefix: String,
    pub runtime: String,
    pub umu: String,
    pub game_id: Option<String>,
    pub store: Option<String>,
}

/// The prefix a Proton seed launches in: the seed's own, else the
/// configured default, else the well-known fallback under the root.
pub open spec fn spec_proton_prefix(
    dirs_root: Seq<char>,
    config: FloraConfig,
    seed: FloraProtonSeed,
) -> Seq<char> {
    match seed.proton_prefix {
        Some(p) => p@,
        None => match config.proton {
            Some(pc) => pc.default_proton_prefix@,
            None => spec_join(dirs_root, "prefixes/proton"@),
        },
    }
}

impl FloraProtonRunner {
    /// Resolves a Proton seed's launch environment. The runtime directory
    /// and the launcher binary are resolved by the caller, which can look
    /// at the disk; the prefix precedence is decided here.
    pub fn prepare(
        name: &str,
        dirs: &FloraDirs,
        config: &FloraConfig,
        settings: &Option<Box<FloraSeedSettings>>,
        proton_seed: &FloraProtonSeed,
        runtime: String,
        umu: String,
    ) -> (r: FloraProtonRunner)
        ensures
            r.name@ == name@,
            opt_string_view(r.launcher_command) == spec_launcher(*settings),
            r.prefix@ == spec_proton_prefix(dirs.flora_root@, *config, *proton_seed),
            r.runtime@ == runtime@,
            r.umu@ == umu@,
            opt_string_view(r.game_id) == opt_string_view(proton_seed.game_id),
            opt_string_view(r.store) == opt_string_view(proton_seed.store),
    {
        let prefix = match &proton_seed.proton_prefix {
            Some(p) => p.clone(),
            None => match &config.proton {
                Some(pc) => pc.default_proton_prefix.clone(),
                None => dirs.get_fallback_prefix_proton(),
            },
        };
        let launcher_command = match settings {
            Some(s) => clone_opt_string(&s.launcher_command),
            None => None,
        };
        FloraProtonRunner {
            name: name.to_owned(),
            launcher_command,
            prefix,
            runtime,
            umu,
            game_id: clone_opt_string(&proton_seed.game_id),
            store: clone_opt_string(&proton_seed.store),
        }
    }

    /// The runtime directory and prefix a launch uses.
    pub fn gather_command_info(&self) -> (r: (String, String))
        ensures
            r.0@ == self.runtime@,
            r.1@ == self.prefix@,
    {
        (self.runtime.clone(), self.prefix.clone())
    }

    /// The words of a launch: the launcher command's words, the launcher
    /// binary, then the arguments.
    pub fn launch_argv(&self, args: &Vec<String>) -> (r: Result<Vec<String>, FloraError>)
        ensures
            match spec_launch_head(opt_string_view(self.launcher_command), self.umu@) {
                Err(e) => r == Err::<Vec<String>, FloraError>(e),
                Ok(head) => r matches Ok(v) && v.deep_view() == head + args.deep_view(),
            },
    {
        let mut head = match launch_head(&self.launcher_command, &self.umu) {
            Ok(h) => h,
            Err(e) => {
                return Err(e);
            },
        };
        append_strings(&mut head, args);
        Ok(head)
    }

    /// The per-user Start Menu directory of this prefix; the user inside a
    /// Proton prefix has a fixed name.
    pub fn get_start_menu_dir(&self) -> (r: String)
        ensures
            r@ == spec_join(
                spec_join(spec_join(self.prefix@, "drive_c/users"@), "steamuser"@),
                "AppData/Roaming/Microsoft/Windows/Start Menu"@,
            ),
    {
        let a = join_path(self.prefix.as_str(), "drive_c/users");
        let b = join_path(a.as_str(), "steamuser");
        join_path(b.as_str(), "AppData/Roaming/Microsoft/Windows/Start Menu")
    }

    /// The machine-wide Start Menu directory of this prefix.
    pub fn get_system_start_menu_dir(&self) -> (r: String)
        ensures
            r@ == spec_join(self.prefix@, "drive_c/ProgramData/Microsoft/Windows/Start Menu"@),
    {
        join_path(self.prefix.as_str(), "drive_c/ProgramData/Microsoft/Windows/Start Menu")
    }
}

/// Appends owned copies of all of `src` to `dst`.
fn append_strings(dst: &mut Vec<String>, src: &Vec<String>)
    ensures
        final(dst).deep_view() == old(dst).deep_view() + src.deep_view(),
{
    let n = src.len();
    let mut i: usize = 0;
    proof {
        assert(old(dst).deep_view() + src.deep_view().take(0) =~= old(dst).deep_view());
    }
    while i < n
        invariant
            i <= n,
            n == src@.len(),
            src.deep_view().len() == n,
            dst.deep_view() == old(dst).deep_view() + src.deep_view().take(i as int),
        decreases n - i,
    {
        let ghost prev = dst.deep_view();
        proof {
            assert(src.deep_view()[i as int] =~= src@[i as int]@);
        }
        dst.push(src[i].clone());
        i = i + 1;
        proof {
            assert(dst.deep_view() =~~= prev.push(src@[i - 1]@));
            assert(src.deep_view().take(i as int) =~= src.deep_view().take(i as int - 1).push(
                src.deep_view()[i as int - 1],
            ));
            assert(dst.deep_view() =~= old(dst).deep_view() + src.deep_view().take(i as int));
        }
    }
    proof {
        assert(src.deep_view().take(n as int) =~= src.deep_view());
    }
}

/// The candidate directories a Proton runtime of the given name may live
/// in, in precedence order: the library's own runtime root, the local
/// Steam tools directory, an optional sandboxed Steam tools directory
/// under the home directory, and the system-wide tools directory.
pub fn proton_tool_candidates(dirs: &FloraDirs, home: &Option<String>, name: &str) -> (r: (
    String,
    String,
    Option<String>,
    String,
))
    ensures
        r.0@ == spec_join(spec_join(dirs.flora_root@, "proton"@), name@),
        r.1@ == spec_join(dirs.steam_compat_dir@, name@),
        match r.2 {
            Some(f) => *home matches Some(h) && f@ == spec_join(
                spec_join(h@, ".var/app/com.valvesoftware.Steam/.steam/root/compatibilitytools.d"@),
                name@,
            ),
            None => *home is None,
        },
        r.3@ == spec_join("/usr/share/steam/compatibilitytools.d"@, name@),
{
    let root = dirs.get_proton_root();
    let flora = join_path(root.as_str(), name);
    let steam_root = dirs.get_proton_root_steam();
    let steam = join_path(steam_root.as_str(), name);
    let flatpak = match home {
        Some(h) => {
            let f = join_path(
                h.as_str(),
                ".var/app/com.valvesoftware.Steam/.steam/root/compatibilitytools.d",
            );
            Some(join_path(f.as_str(), name))
        },
        None => None,
    };
    let system = join_path("/usr/share/steam/compatibilitytools.d", name);
    (flora, steam, flatpak, system)
}

/// Picks the Proton runtime directory from the candidates, given which of
/// them exist on disk: the first existing candidate wins, and a runtime
/// found in the sandboxed Steam directory is still launched through the
/// local Steam tools path. A name found nowhere is handed back as it is.
pub fn pick_proton_tool(
    flora: &String,
    steam: &String,
    system: &String,
    name: &str,
    flora_exists: bool,
    steam_exists: bool,
    flatpak_exists: bool,
    system_exists: bool,
) -> (r: String)
    ensures
        r@ == (if flora_exists {
            flora@
        } else if steam_exists {
            steam@
        } else if flatpak_exists {
            steam@
        } else if system_exists {
            system@
        } else {
            name@
        }),
{
    if flora_exists {
        flora.clone()
    } else if steam_exists {
        steam.clone()
    } else if flatpak_exists {
        steam.clone()
    } else if system_exists {
        system.clone()
    } else {
        name.to_owned()
    }
}

/// Byte strings equal up to ASCII case.
pub open spec fn eq_ignore_case(a: Seq<u8>, b: Seq<u8>) -> bool {
    a.len() == b.len() && (forall|i: int|
        0 <= i < a.len() ==> crate::bytes::spec_lower(a[i]) == crate::bytes::spec_lower(b[i]))
}

fn bytes_eq_ignore_case(a: &Vec<u8>, b: &Vec<u8>) -> (r: bool)
    ensures
        r == eq_ignore_case(a@, b@),
{
    if a.len() != b.len() {
        return false;
    }
    let mut i: usize = 0;
    while i < a.len()
        invariant
            i <= a@.len(),
            a@.len() == b@.len(),
            forall|j: int|
                0 <= j < i ==> crate::bytes::spec_lower(a@[j]) == crate::bytes::spec_lower(b@[j]),
        decreases a@.len() - i,
    {
        if crate::bytes::ascii_lower(a[i]) != crate::bytes::ascii_lower(b[i]) {
            return false;
        }
        i = i + 1;
    }
    true
}

/// The file name of a host path: its last segment; empty for a path with
/// no segments.
pub open spec fn file_name_of(p: Seq<u8>) -> Seq<u8> {
    let segs = crate::winepath::segments(p, false);
    if segs.len() > 0 {
        segs.last()
    } else {
        Seq::empty()
    }
}

fn file_name_exec(p: &Vec<u8>) -> (r: Vec<u8>)
    ensures
        r@ == file_name_of(p@),
{
    let segs = crate::winepath::split_segments(p, false);
    let n = segs.len();
    proof {
        assert(segs.deep_view().len() == segs@.len());
    }
    if n == 0 {
        Vec::new()
    } else {
        proof {
            assert(segs.deep_view()[n - 1] =~= segs@[n - 1]@);
        }
        crate::bytes::clone_bytes(&segs[n - 1])
    }
}

/// The position after the last dot of a file name, ignoring a leading dot;
/// nothing when the name has no extension.
pub open spec fn spec_ext_split(seg: Seq<u8>) -> Option<int>
    decreases seg.len(),
{
    if seg.len() <= 1 {
        None
    } else if seg.last() == 46 {
        Some(seg.len() - 1)
    } else {
        spec_ext_split(seg.drop_last())
    }
}

/// Finds the last dot of a file name, ignoring a leading dot.
fn ext_split(seg: &Vec<u8>) -> (r: Option<usize>)
    ensures
        match r {
            Some(i) => spec_ext_split(seg@) == Some(i as int) && 1 <= i < seg@.len(),
            None => spec_ext_split(seg@) is None,
        },
{
    let mut k: usize = seg.len();
    proof {
        assert(seg@.take(seg@.len() as int) =~= seg@);
    }
    while k > 1
        invariant
            k <= seg@.len(),
            spec_ext_split(seg@) == spec_ext_split(seg@.take(k as int)),
        decreases k,
    {
        proof {
            let sub = seg@.take(k as int);
            assert(sub.last() == seg@[k as int - 1]);
            assert(sub.drop_last() =~= seg@.take(k as int - 1));
        }
        if seg[k - 1] == 46 {
            return Some(k - 1);
        }
        k = k - 1;
    }
    proof {
        assert(seg@.take(k as int).len() <= 1);
    }
    None
}

/// Whether a host path names a shortcut file: its file name has the
/// shortcut extension, exactly.
pub open spec fn is_lnk_path(p: Seq<u8>) -> bool {
    let seg = file_name_of(p);
    match spec_ext_split(seg) {
        None => false,
        Some(i) => seg.skip(i + 1) == seq![108u8, 110u8, 107u8],
    }
}

/// The stem of a shortcut's file name: everything before the extension dot.
pub open spec fn lnk_stem(p: Seq<u8>) -> Seq<u8> {
    let seg = file_name_of(p);
    match spec_ext_split(seg) {
        None => seg,
        Some(i) => seg.take(i),
    }
}

/// The shortcut file name a menu entry of this name would have.
pub open spec fn lnk_name_of(menu_name: Seq<u8>) -> Seq<u8> {
    menu_name + seq![46u8, 108u8, 110u8, 107u8]
}

/// The first path whose file name is the menu entry's shortcut name, up to
/// ASCII case, from `k` on.
pub open spec fn spec_menu_match(paths: Seq<Seq<u8>>, want: Seq<u8>, k: int) -> Option<int>
    decreases paths.len() - k,
{
    if k < 0 || k >= paths.len() {
        None
    } else if eq_ignore_case(file_name_of(paths[k]), want) {
        Some(k)
    } else {
        spec_menu_match(paths, want, k + 1)
    }
}

/// Finds the Start Menu entry of the given name among the candidate paths
/// and expresses it in Windows syntax; the name match ignores ASCII case.
/// No candidate of that name is the distinct not-found error.
pub fn get_start_menu_entry_location(
    prefix: &Vec<u8>,
    paths: &Vec<Vec<u8>>,
    menu_name: &Vec<u8>,
) -> (r: Result<Vec<u8>, FloraError>)
    ensures
        match r {
            Ok(v) => exists|i: int|
                #[trigger] spec_menu_match(paths.deep_view(), lnk_name_of(menu_name@), 0) == Some(
                    i,
                ) && v@ == crate::winepath::win_path_of(prefix@, paths.deep_view()[i]),
            Err(e) => e == FloraError::StartMenuNotFound && spec_menu_match(
                paths.deep_view(),
                lnk_name_of(menu_name@),
                0,
            ) is None,
        },
{
    let mut want = crate::bytes::clone_bytes(menu_name);
    want.push(46);
    want.push(108);
    want.push(110);
    want.push(107);
    proof {
        assert(want@ =~= lnk_name_of(menu_name@));
    }
    let n = paths.len();
    let ghost dv = paths.deep_view();
    proof {
        assert(dv.len() == paths@.len());
    }
    let mut k: usize = 0;
    while k < n
        invariant
            k <= n,
            n == paths@.len(),
            dv == paths.deep_view(),
            dv.len() == n,
            want@ == lnk_name_of(menu_name@),
            spec_menu_match(dv, lnk_name_of(menu_name@), 0) == spec_menu_match(
                dv,
                lnk_name_of(menu_name@),
                k as int,
            ),
        decreases n - k,
    {
        proof {
            assert(dv[k as int] =~= paths@[k as int]@);
        }
        let name = file_name_exec(&paths[k]);
        if bytes_eq_ignore_case(&name, &want) {
            let win = crate::winepath::unix_to_windows(prefix, &paths[k]);
            return Ok(win);
        }
        k = k + 1;
    }
    Err(FloraError::StartMenuNotFound)
}

/// The name and location views of a Start Menu item list.
pub open spec fn menu_item_views(
    items: Seq<crate::responses::FloraSeedStartMenuItem>,
) -> Seq<(Seq<u8>, Seq<u8>)> {
    items.map_values(
        |it: crate::responses::FloraSeedStartMenuItem|
            (it.start_menu_name@, it.start_menu_location@),
    )
}

/// The shortcut entries among the candidate paths, as stem and Windows
/// location, in order, from `k` on.
pub open spec fn spec_menu_items(prefix: Seq<u8>, paths: Seq<Seq<u8>>, k: int) -> Seq<
    (Seq<u8>, Seq<u8>),
>
    decreases paths.len() - k,
{
    if k < 0 || k >= paths.len() {
        Seq::empty()
    } else {
        let rest = spec_menu_items(prefix, paths, k + 1);
        if is_lnk_path(paths[k]) {
            seq![(lnk_stem(paths[k]), crate::winepath::win_path_of(prefix, paths[k]))] + rest
        } else {
            rest
        }
    }
}

/// Lists the shortcut entries among the candidate paths, each as its stem
/// and its location in Windows syntax.
pub fn list_start_menu_entries(prefix: &Vec<u8>, paths: &Vec<Vec<u8>>) -> (r: Vec<
    crate::responses::FloraSeedStartMenuItem,
>)
    ensures
        menu_item_views(r@) == spec_menu_items(prefix@, paths.deep_view(), 0),
{
    let n = paths.len();
    let ghost dv = paths.deep_view();
    let mut out: Vec<crate::responses::FloraSeedStartMenuItem> = Vec::new();
    proof {
        assert(dv.len() == paths@.len());
        assert(menu_item_views(out@) =~~= Seq::<(Seq<u8>, Seq<u8>)>::empty());
        assert(Seq::<(Seq<u8>, Seq<u8>)>::empty() + spec_menu_items(prefix@, dv, 0)
            =~= spec_menu_items(prefix@, dv, 0));
    }
    let mut k: usize = 0;
    while k < n
        invariant
            k <= n,
            n == paths@.len(),
            dv == paths.deep_view(),
            dv.len() == n,
            spec_menu_items(prefix@, dv, 0) == menu_item_views(out@) + spec_menu_items(
                prefix@,
                dv,
                k as int,
            ),
        decreases n - k,
    {
        proof {
            assert(dv[k as int] =~= paths@[k as int]@);
        }
        let name = file_name_exec(&paths[k]);
        let nl: usize = name.len();
        let is_lnk = match ext_split(&name) {
            None => false,
            Some(i) => {
                let ext = crate::bytes::sub_bytes(&name, i + 1, nl);
                proof {
                    assert(ext@ =~= name@.skip(i as int + 1));
                }
                ext.len() == 3 && ext[0] == 108 && ext[1] == 110 && ext[2] == 107
            },
        };
        proof {
            if is_lnk {
                assert(name@.skip(spec_ext_split(name@).unwrap() + 1) =~= seq![
                    108u8,
                    110u8,
                    107u8,
                ]);
            }
            assert(is_lnk == is_lnk_path(dv[k as int]));
        }
        if is_lnk {
            let stem = match ext_split(&name) {
                Some(i) => crate::bytes::sub_bytes(&name, 0, i),
                None => crate::bytes::clone_bytes(&name),
            };
            proof {
                assert(stem@ =~= lnk_stem(dv[k as int]));
            }
            let win = crate::winepath::unix_to_windows(prefix, &paths[k]);
            let ghost prev = menu_item_views(out@);
            out.push(
                crate::responses::FloraSeedStartMenuItem {
                    start_menu_name: stem,
                    start_menu_location: win,
                },
            );
            proof {
                assert(menu_item_views(out@) =~= prev.push(
                    (lnk_stem(dv[k as int]), crate::winepath::win_path_of(prefix@, dv[k as int])),
                ));
                assert(spec_menu_items(prefix@, dv, k as int) =~= seq![
                    (lnk_stem(dv[k as int]), crate::winepath::win_path_of(prefix@, dv[k as int])),
                ] + spec_menu_items(prefix@, dv, k as int + 1));
                assert((prev + seq![
                    (lnk_stem(dv[k as int]), crate::winepath::win_path_of(prefix@, dv[k as int])),
                ]) + spec_menu_items(prefix@, dv, k as int + 1) =~= prev + spec_menu_items(
                    prefix@,
                    dv,
                    k as int,
                ));
            }
        } else {
            proof {
                assert(spec_menu_items(prefix@, dv, k as int) == spec_menu_items(
                    prefix@,
                    dv,
                    k as int + 1,
                ));
            }
        }
        k = k + 1;
    }
    proof {
        assert(spec_menu_items(prefix@, dv, n as int) =~= Seq::<(Seq<u8>, Seq<u8>)>::empty());
        assert(menu_item_views(out@) =~= menu_item_views(out@) + spec_menu_items(
            prefix@,
            dv,
            n as int,
        ));
    }
    out
}

} // verus!
