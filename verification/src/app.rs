//! One launchable app and the options a caller describes it with.

use vstd::prelude::*;

use crate::config::FloraConfig;
use crate::errors::FloraError;
use crate::strpath::{opt_str_view, own_opt_str, resolve_prefix, spec_resolve_prefix};

verus! {

/// Which runner an app is configured for, with that runner's settings.
pub enum FloraAppType {
    /// Wine app
    Wine(FloraAppWineConfig),
    /// Proton app
    Proton(FloraAppProtonConfig),
}

pub struct FloraAppWineConfig {
    pub wine_prefix: Option<String>,
    pub wine_runtime: Option<String>,
}

pub struct FloraAppProtonConfig {
    pub proton_prefix: Option<String>,
    pub proton_runtime: Option<String>,
    pub game_id: Option<String>,
    pub store: Option<String>,
}

/// The stored form of one app.
pub struct FloraApp {
    pub pretty_name: String,
    pub executable_location: String,
    pub app_type: FloraAppType,
}

/// The options a caller describes a new app with.
pub enum FloraAppOptions {
    WineOptions(FloraAppWineOptions),
    ProtonOptions(FloraAppProtonOptions),
}

pub struct FloraAppWineOptions {
    pub pretty_name: Option<String>,
    pub executable_location: String,
    pub wine_prefix: Option<String>,
    pub wine_runner: Option<String>,
}

pub struct FloraAppProtonOptions {
    pub pretty_name: Option<String>,
    pub executable_location: String,
    pub proton_prefix: Option<String>,
    pub proton_runtime: Option<String>,
    pub game_id: Option<String>,
    pub store: Option<String>,
}

impl FloraApp {
    /// Converts the options a caller passed into the stored form of an app.
    ///
    /// The app's own prefix wins over the configured default; a relative
    /// prefix lives under the configured prefix location. Options of a
    /// runner kind whose configuration section is missing are refused.
    pub fn from_options(config: &FloraConfig, name: &String, app_options: &FloraAppOptions) -> (r:
        Result<FloraApp, FloraError>)
        ensures
            ({
                match app_options {
                    FloraAppOptions::WineOptions(opts) => match config.wine {
                        Some(wc) => match r {
                            Ok(app) => {
                                &&& app.pretty_name@ == (match opts.pretty_name {
                                    Some(p) => p@,
                                    None => name@,
                                })
                                &&& app.executable_location@ == opts.executable_location@
                                &&& app.app_type matches FloraAppType::Wine(w)
                                &&& crate::strpath::opt_string_view(w.wine_prefix) == Some(
                                    spec_resolve_prefix(
                                        wc.wine_prefix_location@,
                                        wc.default_wine_prefix@,
                                        crate::strpath::opt_string_view(opts.wine_prefix),
                                    ),
                                )
                                &&& crate::strpath::opt_string_view(w.wine_runtime)
                                    == crate::strpath::opt_string_view(opts.wine_runner)
                            },
                            Err(_) => false,
                        },
                        None => r == Err::<FloraApp, FloraError>(FloraError::MissingRunnerConfig),
                    },
                    FloraAppOptions::ProtonOptions(opts) => match config.proton {
                        Some(pc) => match r {
                            Ok(app) => {
                                &&& app.pretty_name@ == (match opts.pretty_name {
                                    Some(p) => p@,
                                    None => name@,
                                })
                                &&& app.executable_location@ == opts.executable_location@
                                &&& app.app_type matches FloraAppType::Proton(p)
                                &&& crate::strpath::opt_string_view(p.proton_prefix) == Some(
                                    spec_resolve_prefix(
                                        pc.proton_prefix_location@,
                                        pc.default_proton_prefix@,
                                        crate::strpath::opt_string_view(opts.proton_prefix),
                                    ),
                                )
                                &&& crate::strpath::opt_string_view(p.proton_runtime)
                                    == crate::strpath::opt_string_view(opts.proton_runtime)
                                &&& crate::strpath::opt_string_view(p.game_id)
                                    == crate::strpath::opt_string_view(opts.game_id)
                                &&& crate::strpath::opt_string_view(p.store)
                                    == crate::strpath::opt_string_view(opts.store)
                            },
                            Err(_) => false,
                        },
                        None => r == Err::<FloraApp, FloraError>(FloraError::MissingRunnerConfig),
                    },
                }
            }),
    {
        match app_options {
            FloraAppOptions::WineOptions(opts) => {
                match &config.wine {
                    Some(wine_config) => {
                        let pretty_name = match &opts.pretty_name {
                            Some(p) => p.clone(),
                            None => name.clone(),
                        };
                        let req: Option<&str> = match &opts.wine_prefix {
                            Some(p) => Some(p.as_str()),
                            None => None,
                        };
                        let prefix = resolve_prefix(
                            wine_config.wine_prefix_location.as_str(),
                            wine_config.default_wine_prefix.as_str(),
                            &req,
                        );
                        Ok(
                            FloraApp {
                                pretty_name,
                                executable_location: opts.executable_location.clone(),
                                app_type: FloraAppType::Wine(
                                    FloraAppWineConfig {
                                        wine_prefix: Some(prefix),
                                        wine_runtime: crate::strpath::clone_opt_string(
                                            &opts.wine_runner,
                                        ),
                                    },
                                ),
                            },
                        )
                    },
                    None => Err(FloraError::MissingRunnerConfig),
                }
            },
            FloraAppOptions::ProtonOptions(opts) => {
                match &config.proton {
                    Some(proton_config) => {
                        let pretty_name = match &opts.pretty_name {
                            Some(p) => p.clone(),
                            None => name.clone(),
                        };
                        let req: Option<&str> = match &opts.proton_prefix {
                            Some(p) => Some(p.as_str()),
                            None => None,
                        };
                        let prefix = resolve_prefix(
                            proton_config.proton_prefix_location.as_str(),
                            proton_config.default_proton_prefix.as_str(),
                            &req,
                        );
                        Ok(
                            FloraApp {
                                pretty_name,
                                executable_location: opts.executable_location.clone(),
                                app_type: FloraAppType::Proton(
                                    FloraAppProtonConfig {
                                        proton_prefix: Some(prefix),
                                        proton_runtime: crate::strpath::clone_opt_string(
                                            &opts.proton_runtime,
                                        ),
                                        game_id: crate::strpath::clone_opt_string(&opts.game_id),
                                        store: crate::strpath::clone_opt_string(&opts.store),
                                    },
                                ),
                            },
                        )
                    },
                    None => Err(FloraError::MissingRunnerConfig),
                }
            },
        }
    }
}

} // verus!
