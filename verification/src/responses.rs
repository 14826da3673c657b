//! Answers the manager hands back to the caller.

use vstd::prelude::*;

use crate::seed::{FloraSeed, FloraSeedType};
use crate::strpath::{clone_opt_string, opt_string_view};

verus! {

/// A seed described for display.
pub struct FloraSeedItem {
    pub name: String,
    pub pretty_name: String,
    pub executable_location: String,
    pub seed_type: FloraSeedTypeItem,
}

/// The runner settings of a displayed seed.
pub enum FloraSeedTypeItem {
    Wine(FloraWineSeedItem),
    Proton(FloraProtonSeedItem),
}

pub struct FloraWineSeedItem {
    pub wine_prefix: Option<String>,
    pub wine_runtime: Option<String>,
}

pub struct FloraProtonSeedItem {
    pub proton_prefix: Option<String>,
    pub proton_runtime: Option<String>,
    pub game_id: Option<String>,
    pub store: Option<String>,
}

/// One Start Menu entry of a seed, with its location already expressed in
/// Windows syntax as UTF-8 bytes.
pub struct FloraSeedStartMenuItem {
    pub start_menu_name: Vec<u8>,
    pub start_menu_location: Vec<u8>,
}

impl FloraSeedItem {
    /// Describes a stored seed: its name, its first app (blank when it has
    /// none), and its runner settings.
    pub fn from_config(name: &String, config: &FloraSeed) -> (r: FloraSeedItem)
        ensures
            r.name@ == name@,
            r.pretty_name@ == (if config.apps@.len() > 0 {
                config.apps@[0].application_name@
            } else {
                Seq::<char>::empty()
            }),
            r.executable_location@ == (if config.apps@.len() > 0 {
                config.apps@[0].application_location@
            } else {
                Seq::<char>::empty()
            }),
            match config.seed_type {
                FloraSeedType::Wine(w) => {
                    &&& r.seed_type matches FloraSeedTypeItem::Wine(wi)
                    &&& opt_string_view(wi.wine_prefix) == opt_string_view(w.wine_prefix)
                    &&& opt_string_view(wi.wine_runtime) == opt_string_view(w.wine_runtime)
                },
                FloraSeedType::Proton(p) => {
                    &&& r.seed_type matches FloraSeedTypeItem::Proton(pi)
                    &&& opt_string_view(pi.proton_prefix) == opt_string_view(p.proton_prefix)
                    &&& opt_string_view(pi.proton_runtime) == opt_string_view(p.proton_runtime)
                    &&& opt_string_view(pi.game_id) == opt_string_view(p.game_id)
                    &&& opt_string_view(pi.store) == opt_string_view(p.store)
                },
            },
    {
        let (pretty_name, executable_location) = if config.apps.len() > 0 {
            (
                config.apps[0].application_name.clone(),
                config.apps[0].application_location.clone(),
            )
        } else {
            (String::new(), String::new())
        };
        FloraSeedItem {
            name: name.clone(),
            pretty_name,
            executable_location,
            seed_type: match &config.seed_type {
                FloraSeedType::Wine(w) => FloraSeedTypeItem::Wine(
                    FloraWineSeedItem {
                        wine_prefix: clone_opt_string(&w.wine_prefix),
                        wine_runtime: clone_opt_string(&w.wine_runtime),
                    },
                ),
                FloraSeedType::Proton(p) => FloraSeedTypeItem::Proton(
                    FloraProtonSeedItem {
                        proton_prefix: clone_opt_string(&p.proton_prefix),
                        proton_runtime: clone_opt_string(&p.proton_runtime),
                        game_id: clone_opt_string(&p.game_id),
                        store: clone_opt_string(&p.store),
                    },
                ),
            },
        }
    }
}

} // verus!
