//! The command-line surface as plain data: what was asked for, free of any
//! argument-parsing machinery. The binary parses its arguments into its own
//! mirror of these types and converts.

use vstd::prelude::*;

verus! {

/// The whole invocation.
pub struct Cli {
    pub command: Commands,
}

/// The top-level commands.
pub enum Commands {
    /// Manage seeds
    Seed(SeedOpts),
    /// Manage apps in a seed
    App(AppOpts),
    /// Query Start Menu entries in a seed and create app entries from them
    StartMenu(StartMenuOpts),
    /// Launch the seed's prefix configuration dialog
    Config(RunOpts),
    /// Launch the trick tooling for the seed's prefix
    Tricks(RunOpts),
    /// Run an application in a seed
    Run(RunOpts),
    /// Generate menu entries for launching apps from the application menu
    GenerateMenu,
}

pub struct SeedOpts {
    pub commands: SeedCommands,
}

pub enum SeedCommands {
    /// List all seeds
    List(ListOpts),
    /// Create a seed
    Create(CreateOpts),
    /// Set a seed's properties
    Configure(SetOpts),
    /// Remove a seed
    Delete(DeleteOpts),
    /// Show a seed's information
    Info(InfoOpts),
}

pub struct CreateOpts {
    pub commands: CreateCommands,
}

pub enum CreateCommands {
    /// Create a Wine seed
    Wine(CreateWineOpts),
    /// Create a Proton seed
    Proton(CreateProtonOpts),
}

pub struct CreateSeedOpts {
    /// Name of seed
    pub name: String,
    /// Launcher command for applications
    pub launcher: Option<String>,
}

pub struct CreateSeedDefaultOpts {
    /// Default application name for the seed
    pub app_name: String,
    /// Default executable location for the seed
    pub app_location: String,
}

pub struct CreateWineOpts {
    pub seed: CreateSeedOpts,
    pub default_opts: Option<CreateSeedDefaultOpts>,
    /// Wine prefix for the seed
    pub wine_prefix: Option<String>,
    /// Wine runtime for the seed
    pub wine_runtime: Option<String>,
}

pub struct CreateProtonOpts {
    pub seed: CreateSeedOpts,
    pub default_opts: Option<CreateSeedDefaultOpts>,
    /// Proton prefix for the seed
    pub proton_prefix: Option<String>,
    /// Proton runtime for the seed
    pub proton_runtime: Option<String>,
    /// Game id handed to the launcher
    pub game_id: Option<String>,
    /// Store handed to the launcher
    pub store: Option<String>,
}

pub struct SetOpts {
    pub commands: SetCommands,
}

pub enum SetCommands {
    /// Set properties of a Wine seed
    Wine(SetWineOpts),
    /// Set properties of a Proton seed
    Proton(SetProtonOpts),
}

pub struct SetSeedOpts {
    /// Name of seed
    pub name: String,
}

pub struct SetWineOpts {
    pub seed: SetSeedOpts,
    pub wine_prefix: Option<String>,
    pub wine_runtime: Option<String>,
}

pub struct SetProtonOpts {
    pub seed: SetSeedOpts,
    pub proton_prefix: Option<String>,
    pub proton_runtime: Option<String>,
    pub game_id: Option<String>,
    pub store: Option<String>,
}

pub struct DeleteOpts {
    /// Name of seed
    pub name: String,
}

pub struct ListOpts {
    /// Long format of list
    pub long: bool,
}

pub struct InfoOpts {
    /// Name of seed
    pub name: String,
}

pub struct AppOpts {
    pub commands: AppCommands,
}

pub enum AppCommands {
    /// List all apps in a seed
    List(AppListOpts),
    /// Add an app to a seed
    Add(AppAddOpts),
    /// Update an app in a seed
    Update(AppUpdateOpts),
    /// Rename an app in a seed
    Rename(AppRenameOpts),
    /// Remove an app from a seed
    Delete(AppDeleteOpts),
}

pub struct AppSeedOpts {
    /// Name of seed
    pub name: String,
}

pub struct AppListOpts {
    pub seed: AppSeedOpts,
    /// Long format
    pub long: bool,
}

pub struct AppAddOpts {
    pub seed: AppSeedOpts,
    /// Name for the app
    pub app_name: String,
    /// Location for the app
    pub app_location: String,
}

pub struct AppUpdateOpts {
    pub seed: AppSeedOpts,
    /// Name for the app
    pub app_name: String,
    /// Location for the app
    pub app_location: Option<String>,
}

pub struct AppRenameOpts {
    pub seed: AppSeedOpts,
    /// Old name of the app
    pub old_application_name: String,
    /// New name of the app
    pub new_application_name: String,
}

pub struct AppDeleteOpts {
    pub seed: AppSeedOpts,
    /// Name for the app
    pub application_name: String,
}

pub struct StartMenuOpts {
    pub commands: StartMenuCommands,
}

pub enum StartMenuCommands {
    /// List all Start Menu entries in a seed
    List(StartMenuListOpts),
    /// Generate an app based on a Start Menu entry
    CreateApp(StartMenuGenerateAppOpts),
}

pub struct StartMenuListOpts {
    /// Name of seed
    pub name: String,
    /// Long format
    pub long: bool,
}

pub struct StartMenuGenerateAppOpts {
    /// Name of seed
    pub name: String,
    /// Name of the Start Menu entry
    pub app_name: String,
    /// Command override for the created app
    pub app_command: Option<String>,
}

pub struct RunOpts {
    /// Name of seed
    pub name: String,
    /// What to launch
    pub args: Option<Vec<String>>,
    /// Run an app entry
    pub app: bool,
    /// Redirect program output to the log files
    pub quiet: bool,
    /// Wait until the app exits
    pub wait: bool,
}

/// One row of the seed table.
pub struct SeedTableRow<'a> {
    pub name: &'a str,
    pub prefix: &'a str,
    pub runtime: &'a str,
    pub game_id: &'a str,
    pub store: &'a str,
}

/// One row of the app table.
pub struct SeedAppTableRow<'a> {
    pub application_name: &'a str,
    pub application_location: &'a str,
}

/// One row of the Start Menu table.
pub struct SeedStartMenuTableRow<'a> {
    pub name: &'a str,
    pub location: &'a str,
}

} // verus!
