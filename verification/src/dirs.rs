//! The directory layout the library works in: everything hangs off one
//! root, plus the desktop-entry directories of the host environment.

use vstd::prelude::*;

use crate::errors::FloraError;
use crate::strpath::{join_path, spec_join};

verus! {

/// The resolved directory layout.
pub struct FloraDirs {
    /// The root every seed, runtime, prefix, log and icon lives under
    pub flora_root: String,
    pub applications_entry_dir: String,
    pub config_menu_dir: String,
    pub applications_directory_dir: String,
    pub steam_compat_dir: String,
}

impl FloraDirs {
    pub fn get_seed_root(&self) -> (r: String)
        ensures
            r@ == spec_join(self.flora_root@, "seeds"@),
    {
        join_path(self.flora_root.as_str(), "seeds")
    }

    pub fn get_wine_root(&self) -> (r: String)
        ensures
            r@ == spec_join(self.flora_root@, "wine"@),
    {
        join_path(self.flora_root.as_str(), "wine")
    }

    pub fn get_proton_root(&self) -> (r: String)
        ensures
            r@ == spec_join(self.flora_root@, "proton"@),
    {
        join_path(self.flora_root.as_str(), "proton")
    }

    pub fn get_proton_root_steam(&self) -> (r: String)
        ensures
            r@ == self.steam_compat_dir@,
    {
        self.steam_compat_dir.clone()
    }

    pub fn get_umu_root(&self) -> (r: String)
        ensures
            r@ == spec_join(self.flora_root@, "umu"@),
    {
        join_path(self.flora_root.as_str(), "umu")
    }

    pub fn get_log_root(&self) -> (r: String)
        ensures
            r@ == spec_join(self.flora_root@, "logs"@),
    {
        join_path(self.flora_root.as_str(), "logs")
    }

    pub fn get_prefixes_root(&self) -> (r: String)
        ensures
            r@ == spec_join(self.flora_root@, "prefixes"@),
    {
        join_path(self.flora_root.as_str(), "prefixes")
    }

    pub fn get_icons_root(&self) -> (r: String)
        ensures
            r@ == spec_join(self.flora_root@, "icons"@),
    {
        join_path(self.flora_root.as_str(), "icons")
    }

    pub fn get_fallback_prefix(&self) -> (r: String)
        ensures
            r@ == spec_join(self.flora_root@, "prefixes/default"@),
    {
        join_path(self.flora_root.as_str(), "prefixes/default")
    }

    pub fn get_fallback_prefix_proton(&self) -> (r: String)
        ensures
            r@ == spec_join(self.flora_root@, "prefixes/proton"@),
    {
        join_path(self.flora_root.as_str(), "prefixes/proton")
    }

    pub fn get_desktop_entry_file(&self, name: &str, application_name: &str) -> (r: String)
        ensures
            r@ == spec_join(
                self.applications_entry_dir@,
                name@ + "_"@ + application_name@ + ".desktop"@,
            ),
    {
        let mut file = String::from_str(name);
        file.append("_");
        file.append(application_name);
        file.append(".desktop");
        join_path(self.applications_entry_dir.as_str(), file.as_str())
    }

    pub fn get_desktop_directory_file(&self) -> (r: String)
        ensures
            r@ == spec_join(self.applications_directory_dir@, "flora.directory"@),
    {
        join_path(self.applications_directory_dir.as_str(), "flora.directory")
    }

    pub fn get_desktop_menu_file(&self) -> (r: String)
        ensures
            r@ == spec_join(self.config_menu_dir@, "flora.menu"@),
    {
        join_path(self.config_menu_dir.as_str(), "flora.menu")
    }

    pub fn get_icon_file(&self, name: &str, app_name: &str) -> (r: String)
        ensures
            r@ == spec_join(
                spec_join(self.flora_root@, "icons"@),
                name@ + "_"@ + app_name@ + ".png"@,
            ),
    {
        let root = self.get_icons_root();
        let mut file = String::from_str(name);
        file.append("_");
        file.append(app_name);
        file.append(".png");
        join_path(root.as_str(), file.as_str())
    }
}

/// What the host environment names its data and configuration directories.
/// Relies on directories::BaseDirs::new, which answers from the
/// environment; nothing is promised of the two paths.
#[verifier::external_body]
fn base_dirs() -> (r: Option<(String, String)>) {
    match directories::BaseDirs::new() {
        None => None,
        Some(b) => Some(
            (
                b.data_dir().to_string_lossy().into_owned(),
                b.config_dir().to_string_lossy().into_owned(),
            ),
        ),
    }
}

impl FloraDirs {
    /// Lays the directories out under the given root and the environment's
    /// data and configuration directories.
    pub fn from_dirs(flora_root: String, data_dir: &str, config_dir: &str) -> (r: FloraDirs)
        ensures
            r.flora_root@ == flora_root@,
            r.applications_entry_dir@ == spec_join(data_dir@, "applications/flora"@),
            r.applications_directory_dir@ == spec_join(data_dir@, "desktop-directories"@),
            r.config_menu_dir@ == spec_join(config_dir@, "menus/applications-merged"@),
            r.steam_compat_dir@ == spec_join(data_dir@, "Steam/compatibilitytools.d"@),
    {
        FloraDirs {
            flora_root,
            applications_entry_dir: join_path(data_dir, "applications/flora"),
            applications_directory_dir: join_path(data_dir, "desktop-directories"),
            config_menu_dir: join_path(config_dir, "menus/applications-merged"),
            steam_compat_dir: join_path(data_dir, "Steam/compatibilitytools.d"),
        }
    }

    /// Resolves the layout from the host environment; without a usable home
    /// there is no layout.
    pub fn new(flora_root: String) -> (r: Result<FloraDirs, FloraError>)
        ensures
            r matches Ok(d) ==> d.flora_root@ == flora_root@,
            r matches Err(e) ==> e == FloraError::NoValidHome,
    {
        match base_dirs() {
            None => Err(FloraError::NoValidHome),
            Some(dirs) => {
                let (data_dir, config_dir) = dirs;
                Ok(FloraDirs::from_dirs(flora_root, data_dir.as_str(), config_dir.as_str()))
            },
        }
    }
}

} // verus!
