//! One seed: a single Wine or Proton configuration with its own prefix and
//! its list of launchable apps.

use vstd::prelude::*;

use crate::config::FloraConfig;
use crate::errors::FloraError;
use crate::requests::{FloraCreateSeed, FloraSeedAppOperations, FloraUpdateSeed};
use crate::strpath::{
    clone_opt_string, opt_string_view, opt_str_view, own_opt_str, resolve_prefix,
    spec_resolve_prefix,
};

verus! {

/// Which runner a seed is configured for, with that runner's settings.
pub enum FloraSeedType {
    /// Wine seed
    Wine(FloraWineSeed),
    /// Proton seed
    Proton(FloraProtonSeed),
}

pub struct FloraWineSeed {
    pub wine_prefix: Option<String>,
    pub wine_runtime: Option<String>,
}

pub struct FloraProtonSeed {
    pub proton_prefix: Option<String>,
    pub proton_runtime: Option<String>,
    pub game_id: Option<String>,
    pub store: Option<String>,
}

/// The stored form of one seed.
pub struct FloraSeed {
    pub settings: Option<Box<FloraSeedSettings>>,
    pub apps: Vec<FloraSeedApp>,
    pub seed_type: FloraSeedType,
}

pub struct FloraSeedSettings {
    pub launcher_command: Option<String>,
}

/// One app entry of a seed.
pub struct FloraSeedApp {
    pub application_name: String,
    pub application_location: String,
}

/// The name and location views of an app list.
pub open spec fn app_views(apps: Seq<FloraSeedApp>) -> Seq<(Seq<char>, Seq<char>)> {
    apps.map_values(|a: FloraSeedApp| (a.application_name@, a.application_location@))
}

/// First index holding an app of the given name, from `k` on.
pub open spec fn spec_find_app(s: Seq<(Seq<char>, Seq<char>)>, name: Seq<char>, k: int) -> Option<
    int,
>
    decreases s.len() - k,
{
    if k < 0 || k >= s.len() {
        None
    } else if s[k].0 == name {
        Some(k)
    } else {
        spec_find_app(s, name, k + 1)
    }
}

/// What one edit does to an app list: adding an app of a taken name and
/// touching an app of an unknown name are the two errors.
pub open spec fn spec_apply_op(
    s: Seq<(Seq<char>, Seq<char>)>,
    op: FloraSeedAppOperations,
) -> Result<Seq<(Seq<char>, Seq<char>)>, FloraError> {
    match op {
        FloraSeedAppOperations::Add(a) => match spec_find_app(s, a.application_name@, 0) {
            Some(_) => Err(FloraError::SeedAppExists),
            None => Ok(s.push((a.application_name@, a.application_location@))),
        },
        FloraSeedAppOperations::Update(u) => match spec_find_app(s, u.application_name@, 0) {
            None => Err(FloraError::SeedNoApp),
            Some(i) => Ok(
                s.update(
                    i,
                    (
                        s[i].0,
                        match u.application_location {
                            Some(l) => l@,
                            None => s[i].1,
                        },
                    ),
                ),
            ),
        },
        FloraSeedAppOperations::Rename(rn) => match spec_find_app(
            s,
            rn.old_application_name@,
            0,
        ) {
            None => Err(FloraError::SeedNoApp),
            Some(i) => Ok(s.update(i, (rn.new_application_name@, s[i].1))),
        },
        FloraSeedAppOperations::Delete(del) => match spec_find_app(s, del.application_name@, 0) {
            None => Err(FloraError::SeedNoApp),
            Some(i) => Ok(s.remove(i)),
        },
    }
}

/// The edits applied in order, from `k` on; the first error wins and
/// abandons the rest.
pub open spec fn spec_apply_ops(
    s: Seq<(Seq<char>, Seq<char>)>,
    ops: Seq<FloraSeedAppOperations>,
    k: int,
) -> Result<Seq<(Seq<char>, Seq<char>)>, FloraError>
    decreases ops.len() - k,
{
    if k < 0 || k >= ops.len() {
        Ok(s)
    } else {
        match spec_apply_op(s, ops[k]) {
            Err(e) => Err(e),
            Ok(s2) => spec_apply_ops(s2, ops, k + 1),
        }
    }
}

/// Folding one more edit onto the end of a batch applies it to the batch's
/// result.
proof fn lemma_apply_ops_push(
    s: Seq<(Seq<char>, Seq<char>)>,
    ops: Seq<FloraSeedAppOperations>,
    j: int,
    op: FloraSeedAppOperations,
)
    requires
        0 <= j <= ops.len(),
    ensures
        spec_apply_ops(s, ops.push(op), j) == (match spec_apply_ops(s, ops, j) {
            Ok(s2) => spec_apply_op(s2, op),
            Err(e) => Err(e),
        }),
    decreases ops.len() - j,
{
    if j == ops.len() {
        assert(ops.push(op)[j] == op);
        assert(spec_apply_ops(s, ops, j) == Ok::<_, FloraError>(s));
        match spec_apply_op(s, op) {
            Err(_) => {},
            Ok(s2) => {
                assert(spec_apply_ops(s2, ops.push(op), j + 1) == Ok::<_, FloraError>(s2));
            },
        }
    } else {
        assert(ops.push(op)[j] == ops[j]);
        match spec_apply_op(s, ops[j]) {
            Err(_) => {},
            Ok(s2) => {
                lemma_apply_ops_push(s2, ops, j + 1, op);
            },
        }
    }
}

/// First index holding an app of the given name.
fn find_app(apps: &Vec<FloraSeedApp>, name: &str) -> (r: Option<usize>)
    ensures
        match r {
            Some(i) => spec_find_app(app_views(apps@), name@, 0) == Some(i as int) && i
                < apps@.len(),
            None => spec_find_app(app_views(apps@), name@, 0) is None,
        },
{
    let n = apps.len();
    let mut k: usize = 0;
    while k < n
        invariant
            k <= n,
            n == apps@.len(),
            app_views(apps@).len() == n,
            spec_find_app(app_views(apps@), name@, 0) == spec_find_app(
                app_views(apps@),
                name@,
                k as int,
            ),
        decreases n - k,
    {
        proof {
            assert(app_views(apps@)[k as int] == (
                apps@[k as int].application_name@,
                apps@[k as int].application_location@,
            ));
        }
        if apps[k].application_name == name.to_owned() {
            return Some(k);
        }
        k = k + 1;
    }
    None
}

impl FloraSeed {
    /// Merges an update request into the seed's settings. A request of the
    /// wrong runner kind changes nothing and is refused.
    pub fn merge_options(&mut self, seed_opts: &FloraUpdateSeed) -> (r: Result<(), FloraError>)
        ensures
            match (seed_opts, &old(self).seed_type) {
                (FloraUpdateSeed::WineOptions(u), FloraSeedType::Wine(w0)) => {
                    &&& r == Ok::<(), FloraError>(())
                    &&& final(self).seed_type matches FloraSeedType::Wine(w)
                    &&& opt_string_view(w.wine_prefix) == (match u.wine_prefix {
                        Some(p) => Some(p@),
                        None => opt_string_view(w0.wine_prefix),
                    })
                    &&& opt_string_view(w.wine_runtime) == (match u.wine_runtime {
                        Some(p) => Some(p@),
                        None => opt_string_view(w0.wine_runtime),
                    })
                    &&& final(self).apps == old(self).apps
                    &&& final(self).settings == old(self).settings
                },
                (FloraUpdateSeed::ProtonOptions(u), FloraSeedType::Proton(p0)) => {
                    &&& r == Ok::<(), FloraError>(())
                    &&& final(self).seed_type matches FloraSeedType::Proton(p)
                    &&& opt_string_view(p.proton_prefix) == (match u.proton_prefix {
                        Some(v) => Some(v@),
                        None => opt_string_view(p0.proton_prefix),
                    })
                    &&& opt_string_view(p.proton_runtime) == (match u.proton_runtime {
                        Some(v) => Some(v@),
                        None => opt_string_view(p0.proton_runtime),
                    })
                    &&& opt_string_view(p.game_id) == (match u.game_id {
                        Some(v) => Some(v@),
                        None => opt_string_view(p0.game_id),
                    })
                    &&& opt_string_view(p.store) == (match u.store {
                        Some(v) => Some(v@),
                        None => opt_string_view(p0.store),
                    })
                    &&& final(self).apps == old(self).apps
                    &&& final(self).settings == old(self).settings
                },
                _ => r == Err::<(), FloraError>(FloraError::SeedUpdateMismatch) && *final(self)
                    == *old(self),
            },
    {
        match (seed_opts, &self.seed_type) {
            (FloraUpdateSeed::WineOptions(u), FloraSeedType::Wine(w0)) => {
                let new_wine = FloraWineSeed {
                    wine_prefix: match u.wine_prefix {
                        Some(p) => Some(p.to_owned()),
                        None => clone_opt_string(&w0.wine_prefix),
                    },
                    wine_runtime: match u.wine_runtime {
                        Some(p) => Some(p.to_owned()),
                        None => clone_opt_string(&w0.wine_runtime),
                    },
                };
                self.seed_type = FloraSeedType::Wine(new_wine);
                Ok(())
            },
            (FloraUpdateSeed::ProtonOptions(u), FloraSeedType::Proton(p0)) => {
                let new_proton = FloraProtonSeed {
                    proton_prefix: match u.proton_prefix {
                        Some(p) => Some(p.to_owned()),
                        None => clone_opt_string(&p0.proton_prefix),
                    },
                    proton_runtime: match u.proton_runtime {
                        Some(p) => Some(p.to_owned()),
                        None => clone_opt_string(&p0.proton_runtime),
                    },
                    game_id: match u.game_id {
                        Some(p) => Some(p.to_owned()),
                        None => clone_opt_string(&p0.game_id),
                    },
                    store: match u.store {
                        Some(p) => Some(p.to_owned()),
                        None => clone_opt_string(&p0.store),
                    },
                };
                self.seed_type = FloraSeedType::Proton(new_proton);
                Ok(())
            },
            _ => Err(FloraError::SeedUpdateMismatch),
        }
    }

    /// Applies a batch of app-list edits in order; the first failing edit
    /// refuses the batch, and the edits before it stay applied.
    pub fn update_apps(&mut self, seed_ops: &Vec<FloraSeedAppOperations>) -> (r: Result<
        (),
        FloraError,
    >)
        ensures
            match r {
                Ok(()) => spec_apply_ops(app_views(old(self).apps@), seed_ops@, 0) == Ok::<
                    _,
                    FloraError,
                >(app_views(final(self).apps@)),
                Err(e) => spec_apply_ops(app_views(old(self).apps@), seed_ops@, 0) == Err::<
                    Seq<(Seq<char>, Seq<char>)>,
                    FloraError,
                >(e) && exists|k: int|
                    0 <= k < seed_ops@.len() && #[trigger] spec_apply_ops(
                        app_views(old(self).apps@),
                        seed_ops@.take(k),
                        0,
                    ) == Ok::<_, FloraError>(app_views(final(self).apps@)) && spec_apply_op(
                        app_views(final(self).apps@),
                        seed_ops@[k],
                    ) == Err::<Seq<(Seq<char>, Seq<char>)>, FloraError>(e),
            },
            final(self).seed_type == old(self).seed_type,
            final(self).settings == old(self).settings,
    {
        let n = seed_ops.len();
        let mut k: usize = 0;
        proof {
            assert(seed_ops@.take(0) =~= Seq::<FloraSeedAppOperations>::empty());
            assert(spec_apply_ops(
                app_views(self.apps@),
                Seq::<FloraSeedAppOperations>::empty(),
                0,
            ) == Ok::<_, FloraError>(app_views(self.apps@)));
        }
        while k < n
            invariant
                k <= n,
                n == seed_ops@.len(),
                spec_apply_ops(app_views(old(self).apps@), seed_ops@, 0) == spec_apply_ops(
                    app_views(self.apps@),
                    seed_ops@,
                    k as int,
                ),
                spec_apply_ops(app_views(old(self).apps@), seed_ops@.take(k as int), 0) == Ok::<
                    _,
                    FloraError,
                >(app_views(self.apps@)),
                self.seed_type == old(self).seed_type,
                self.settings == old(self).settings,
            decreases n - k,
        {
            let ghost views0 = app_views(self.apps@);
            match &seed_ops[k] {
                FloraSeedAppOperations::Add(a) => {
                    match find_app(&self.apps, a.application_name) {
                        Some(_) => {
                            proof {
                                assert(spec_apply_ops(
                                    app_views(old(self).apps@),
                                    seed_ops@.take(k as int),
                                    0,
                                ) == Ok::<_, FloraError>(app_views(self.apps@)));
                            }
                            return Err(FloraError::SeedAppExists);
                        },
                        None => {
                            self.apps.push(
                                FloraSeedApp {
                                    application_name: a.application_name.to_owned(),
                                    application_location: a.application_location.to_owned(),
                                },
                            );
                            proof {
                                assert(app_views(self.apps@) =~= views0.push(
                                    (a.application_name@, a.application_location@),
                                ));
                            }
                        },
                    }
                },
                FloraSeedAppOperations::Update(u) => {
                    match find_app(&self.apps, u.application_name) {
                        None => {
                            proof {
                                assert(spec_apply_ops(
                                    app_views(old(self).apps@),
                                    seed_ops@.take(k as int),
                                    0,
                                ) == Ok::<_, FloraError>(app_views(self.apps@)));
                            }
                            return Err(FloraError::SeedNoApp);
                        },
                        Some(i) => {
                            let old_app = self.apps.remove(i);
                            let new_loc = match u.application_location {
                                Some(l) => l.to_owned(),
                                None => old_app.application_location,
                            };
                            self.apps.insert(
                                i,
                                FloraSeedApp {
                                    application_name: old_app.application_name,
                                    application_location: new_loc,
                                },
                            );
                            proof {
                                assert(app_views(self.apps@) =~= views0.update(
                                    i as int,
                                    (
                                        views0[i as int].0,
                                        match u.application_location {
                                            Some(l) => l@,
                                            None => views0[i as int].1,
                                        },
                                    ),
                                ));
                            }
                        },
                    }
                },
                FloraSeedAppOperations::Rename(rn) => {
                    match find_app(&self.apps, rn.old_application_name) {
                        None => {
                            proof {
                                assert(spec_apply_ops(
                                    app_views(old(self).apps@),
                                    seed_ops@.take(k as int),
                                    0,
                                ) == Ok::<_, FloraError>(app_views(self.apps@)));
                            }
                            return Err(FloraError::SeedNoApp);
                        },
                        Some(i) => {
                            let old_app = self.apps.remove(i);
                            self.apps.insert(
                                i,
                                FloraSeedApp {
                                    application_name: rn.new_application_name.to_owned(),
                                    application_location: old_app.application_location,
                                },
                            );
                            proof {
                                assert(app_views(self.apps@) =~= views0.update(
                                    i as int,
                                    (rn.new_application_name@, views0[i as int].1),
                                ));
                            }
                        },
                    }
                },
                FloraSeedAppOperations::Delete(del) => {
                    match find_app(&self.apps, del.application_name) {
                        None => {
                            proof {
                                assert(spec_apply_ops(
                                    app_views(old(self).apps@),
                                    seed_ops@.take(k as int),
                                    0,
                                ) == Ok::<_, FloraError>(app_views(self.apps@)));
                            }
                            return Err(FloraError::SeedNoApp);
                        },
                        Some(i) => {
                            self.apps.remove(i);
                            proof {
                                assert(app_views(self.apps@) =~= views0.remove(i as int));
                            }
                        },
                    }
                },
            }
            proof {
                assert(spec_apply_op(views0, seed_ops@[k as int]) == Ok::<_, FloraError>(
                    app_views(self.apps@),
                ));
                assert(seed_ops@.take(k as int + 1) =~= seed_ops@.take(k as int).push(
                    seed_ops@[k as int],
                ));
                lemma_apply_ops_push(
                    app_views(old(self).apps@),
                    seed_ops@.take(k as int),
                    0,
                    seed_ops@[k as int],
                );
            }
            k = k + 1;
        }
        Ok(())
    }
}

impl FloraSeed {
    /// The app a launch request names: the one with the given name, or the
    /// first app when no name is given; a seed without a matching app has
    /// nothing to launch.
    pub fn select_app(&self, app_name: &Option<String>) -> (r: Result<&FloraSeedApp, FloraError>)
        ensures
            match app_name {
                Some(n) => match spec_find_app(app_views(self.apps@), n@, 0) {
                    Some(i) => r matches Ok(a) && a.application_name@ == app_views(
                        self.apps@,
                    )[i].0 && a.application_location@ == app_views(self.apps@)[i].1,
                    None => r == Err::<&FloraSeedApp, FloraError>(FloraError::SeedNoApp),
                },
                None => if self.apps@.len() > 0 {
                    r matches Ok(a) && a.application_name@ == self.apps@[0].application_name@
                        && a.application_location@ == self.apps@[0].application_location@
                } else {
                    r == Err::<&FloraSeedApp, FloraError>(FloraError::SeedNoApp)
                },
            },
    {
        match app_name {
            Some(n) => match find_app(&self.apps, n.as_str()) {
                Some(i) => {
                    proof {
                        assert(app_views(self.apps@)[i as int] == (
                            self.apps@[i as int].application_name@,
                            self.apps@[i as int].application_location@,
                        ));
                    }
                    Ok(&self.apps[i])
                },
                None => Err(FloraError::SeedNoApp),
            },
            None => {
                if self.apps.len() > 0 {
                    Ok(&self.apps[0])
                } else {
                    Err(FloraError::SeedNoApp)
                }
            },
        }
    }
}

impl FloraSeed {
    /// Converts the options a caller passed into the stored form of a seed.
    ///
    /// The requested prefix resolves against the configured prefix location
    /// and default; options of a runner kind whose configuration section is
    /// missing are refused; a default application, when given, becomes the
    /// single app of the new seed.
    pub fn from_options(config: &FloraConfig, seed_opts: &FloraCreateSeed) -> (r: Result<
        FloraSeed,
        FloraError,
    >)
        ensures
            match seed_opts {
                FloraCreateSeed::WineOptions(opts) => match config.wine {
                    Some(wc) => match r {
                        Ok(seed) => {
                            &&& seed.settings is None
                            &&& app_views(seed.apps@) == (match opts.default_application {
                                Some(da) => seq![(da.application_name@, da.application_location@)],
                                None => Seq::<(Seq<char>, Seq<char>)>::empty(),
                            })
                            &&& seed.seed_type matches FloraSeedType::Wine(w)
                            &&& opt_string_view(w.wine_prefix) == Some(
                                spec_resolve_prefix(
                                    wc.wine_prefix_location@,
                                    wc.default_wine_prefix@,
                                    opt_str_view(opts.wine_prefix),
                                ),
                            )
                            &&& opt_string_view(w.wine_runtime) == opt_str_view(opts.wine_runner)
                        },
                        Err(_) => false,
                    },
                    None => r == Err::<FloraSeed, FloraError>(FloraError::MissingRunnerConfig),
                },
                FloraCreateSeed::ProtonOptions(opts) => match config.proton {
                    Some(pc) => match r {
                        Ok(seed) => {
                            &&& seed.settings is None
                            &&& app_views(seed.apps@) == (match opts.default_application {
                                Some(da) => seq![(da.application_name@, da.application_location@)],
                                None => Seq::<(Seq<char>, Seq<char>)>::empty(),
                            })
                            &&& seed.seed_type matches FloraSeedType::Proton(p)
                            &&& opt_string_view(p.proton_prefix) == Some(
                                spec_resolve_prefix(
                                    pc.proton_prefix_location@,
                                    pc.default_proton_prefix@,
                                    opt_str_view(opts.proton_prefix),
                                ),
                            )
                            &&& opt_string_view(p.proton_runtime) == opt_str_view(
                                opts.proton_runtime,
                            )
                            &&& opt_string_view(p.game_id) == opt_str_view(opts.game_id)
                            &&& opt_string_view(p.store) == opt_str_view(opts.store)
                        },
                        Err(_) => false,
                    },
                    None => r == Err::<FloraSeed, FloraError>(FloraError::MissingRunnerConfig),
                },
            },
    {
        match seed_opts {
            FloraCreateSeed::WineOptions(opts) => {
                match &config.wine {
                    Some(wine_opts) => {
                        let mut apps: Vec<FloraSeedApp> = Vec::new();
                        match &opts.default_application {
                            Some(da) => {
                                apps.push(
                                    FloraSeedApp {
                                        application_name: da.application_name.to_owned(),
                                        application_location: da.application_location.to_owned(),
                                    },
                                );
                            },
                            None => {},
                        }
                        proof {
                            assert(app_views(apps@) =~= (match opts.default_application {
                                Some(da) => seq![(da.application_name@, da.application_location@)],
                                None => Seq::<(Seq<char>, Seq<char>)>::empty(),
                            }));
                        }
                        let prefix = resolve_prefix(
                            wine_opts.wine_prefix_location.as_str(),
                            wine_opts.default_wine_prefix.as_str(),
                            &opts.wine_prefix,
                        );
                        Ok(
                            FloraSeed {
                                settings: None,
                                apps,
                                seed_type: FloraSeedType::Wine(
                                    FloraWineSeed {
                                        wine_prefix: Some(prefix),
                                        wine_runtime: own_opt_str(&opts.wine_runner),
                                    },
                                ),
                            },
                        )
                    },
                    None => Err(FloraError::MissingRunnerConfig),
                }
            },
            FloraCreateSeed::ProtonOptions(opts) => {
                match &config.proton {
                    Some(proton_opts) => {
                        let mut apps: Vec<FloraSeedApp> = Vec::new();
                        match &opts.default_application {
                            Some(da) => {
                                apps.push(
                                    FloraSeedApp {
                                        application_name: da.application_name.to_owned(),
                                        application_location: da.application_location.to_owned(),
                                    },
                                );
                            },
                            None => {},
                        }
                        proof {
                            assert(app_views(apps@) =~= (match opts.default_application {
                                Some(da) => seq![(da.application_name@, da.application_location@)],
                                None => Seq::<(Seq<char>, Seq<char>)>::empty(),
                            }));
                        }
                        let prefix = resolve_prefix(
                            proton_opts.proton_prefix_location.as_str(),
                            proton_opts.default_proton_prefix.as_str(),
                            &opts.proton_prefix,
                        );
                        Ok(
                            FloraSeed {
                                settings: None,
                                apps,
                                seed_type: FloraSeedType::Proton(
                                    FloraProtonSeed {
                                        proton_prefix: Some(prefix),
                                        proton_runtime: own_opt_str(&opts.proton_runtime),
                                        game_id: own_opt_str(&opts.game_id),
                                        store: own_opt_str(&opts.store),
                                    },
                                ),
                            },
                        )
                    },
                    None => Err(FloraError::MissingRunnerConfig),
                }
            },
        }
    }
}

} // verus!
