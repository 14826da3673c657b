use flora::app::{FloraApp, FloraAppOptions, FloraAppType, FloraAppWineOptions};
use flora::config::{FloraConfig, FloraProtonConfig, FloraWineConfig};
use flora::dirs::FloraDirs;
use flora::errors::FloraError;
use flora::requests::{
    FloraCreateProtonSeed, FloraCreateSeed, FloraCreateSeedApp, FloraCreateWineSeed,
    FloraDeleteSeedApp, FloraRenameSeedApp, FloraSeedAppOperations, FloraUpdateProtonSeed,
    FloraUpdateSeed, FloraUpdateSeedApp, FloraUpdateWineSeed,
};
use flora::responses::{FloraSeedItem, FloraSeedTypeItem};
use flora::runners::{
    get_start_menu_entry_location, list_start_menu_entries, pick_proton_tool,
    proton_tool_candidates, FloraProtonRunner, FloraWineRunner,
};
use flora::seed::{FloraSeed, FloraSeedApp, FloraSeedSettings, FloraSeedType, FloraWineSeed};

fn wine_config() -> FloraConfig {
    FloraConfig {
        wine: Some(FloraWineConfig {
            wine_prefix_location: String::from("/data/prefixes"),
            default_wine_prefix: String::from("/data/prefixes/default"),
            default_wine_runtime: None,
        }),
        proton: None,
    }
}

fn sample_seed() -> FloraSeed {
    FloraSeed {
        settings: None,
        apps: vec![FloraSeedApp {
            application_name: String::from("Editor"),
            application_location: String::from("C:\\Editor\\editor.exe"),
        }],
        seed_type: FloraSeedType::Wine(FloraWineSeed {
            wine_prefix: Some(String::from("/data/prefixes/editor")),
            wine_runtime: None,
        }),
    }
}

#[test]
fn app_options_resolve_relative_prefix_under_location() {
    let config = wine_config();
    let options = FloraAppOptions::WineOptions(FloraAppWineOptions {
        pretty_name: None,
        executable_location: String::from("C:\\Tool\\tool.exe"),
        wine_prefix: Some(String::from("tool")),
        wine_runner: None,
    });
    let app = FloraApp::from_options(&config, &String::from("tool"), &options).unwrap();
    assert_eq!(app.pretty_name, "tool");
    assert_eq!(app.executable_location, "C:\\Tool\\tool.exe");
    match app.app_type {
        FloraAppType::Wine(w) => {
            assert_eq!(w.wine_prefix.as_deref(), Some("/data/prefixes/tool"));
            assert_eq!(w.wine_runtime, None);
        },
        _ => panic!("wrong app type"),
    }
}

#[test]
fn app_options_keep_absolute_prefix() {
    let config = wine_config();
    let options = FloraAppOptions::WineOptions(FloraAppWineOptions {
        pretty_name: Some(String::from("Nice")),
        executable_location: String::from("C:\\Tool\\tool.exe"),
        wine_prefix: Some(String::from("/elsewhere/pfx")),
        wine_runner: Some(String::from("wine-9")),
    });
    let app = FloraApp::from_options(&config, &String::from("tool"), &options).unwrap();
    assert_eq!(app.pretty_name, "Nice");
    match app.app_type {
        FloraAppType::Wine(w) => {
            assert_eq!(w.wine_prefix.as_deref(), Some("/elsewhere/pfx"));
            assert_eq!(w.wine_runtime.as_deref(), Some("wine-9"));
        },
        _ => panic!("wrong app type"),
    }
}

#[test]
fn app_options_without_config_section_are_refused() {
    let config = FloraConfig { wine: None, proton: None };
    let options = FloraAppOptions::WineOptions(FloraAppWineOptions {
        pretty_name: None,
        executable_location: String::from("C:\\x.exe"),
        wine_prefix: None,
        wine_runner: None,
    });
    assert!(matches!(
        FloraApp::from_options(&config, &String::from("x"), &options),
        Err(FloraError::MissingRunnerConfig)
    ));
}

#[test]
fn seed_creation_takes_default_application() {
    let config = wine_config();
    let request = FloraCreateSeed::WineOptions(FloraCreateWineSeed {
        default_application: Some(FloraCreateSeedApp {
            application_name: "Editor",
            application_location: "C:\\Editor\\editor.exe",
        }),
        wine_prefix: None,
        wine_runner: None,
    });
    let seed = FloraSeed::from_options(&config, &request).unwrap();
    assert_eq!(seed.apps.len(), 1);
    assert_eq!(seed.apps[0].application_name, "Editor");
    match seed.seed_type {
        FloraSeedType::Wine(w) => {
            assert_eq!(w.wine_prefix.as_deref(), Some("/data/prefixes/default"));
        },
        _ => panic!("wrong seed type"),
    }
}

#[test]
fn proton_seed_creation_without_section_is_refused() {
    let config = wine_config();
    let request = FloraCreateSeed::ProtonOptions(FloraCreateProtonSeed {
        default_application: None,
        proton_prefix: None,
        proton_runtime: None,
        game_id: None,
        store: None,
    });
    assert!(matches!(
        FloraSeed::from_options(&config, &request),
        Err(FloraError::MissingRunnerConfig)
    ));
}

#[test]
fn merging_the_wrong_seed_kind_is_refused() {
    let mut seed = sample_seed();
    let update = FloraUpdateSeed::ProtonOptions(FloraUpdateProtonSeed {
        proton_prefix: Some("/x"),
        proton_runtime: None,
        game_id: None,
        store: None,
    });
    assert!(matches!(seed.merge_options(&update), Err(FloraError::SeedUpdateMismatch)));
    match seed.seed_type {
        FloraSeedType::Wine(w) => {
            assert_eq!(w.wine_prefix.as_deref(), Some("/data/prefixes/editor"))
        },
        _ => panic!("wrong seed type"),
    }
}

#[test]
fn merging_updates_only_the_given_fields() {
    let mut seed = sample_seed();
    let update = FloraUpdateSeed::WineOptions(FloraUpdateWineSeed {
        wine_prefix: None,
        wine_runtime: Some("wine-10"),
    });
    seed.merge_options(&update).unwrap();
    match seed.seed_type {
        FloraSeedType::Wine(w) => {
            assert_eq!(w.wine_prefix.as_deref(), Some("/data/prefixes/editor"));
            assert_eq!(w.wine_runtime.as_deref(), Some("wine-10"));
        },
        _ => panic!("wrong seed type"),
    }
}

#[test]
fn app_edits_apply_in_order() {
    let mut seed = sample_seed();
    let ops = vec![
        FloraSeedAppOperations::Add(FloraCreateSeedApp {
            application_name: "Game",
            application_location: "C:\\Game\\game.exe",
        }),
        FloraSeedAppOperations::Update(FloraUpdateSeedApp {
            application_name: "Editor",
            application_location: Some("C:\\Editor\\editor2.exe"),
        }),
        FloraSeedAppOperations::Rename(FloraRenameSeedApp {
            old_application_name: "Game",
            new_application_name: "Game II",
        }),
    ];
    seed.update_apps(&ops).unwrap();
    assert_eq!(seed.apps.len(), 2);
    assert_eq!(seed.apps[0].application_name, "Editor");
    assert_eq!(seed.apps[0].application_location, "C:\\Editor\\editor2.exe");
    assert_eq!(seed.apps[1].application_name, "Game II");

    let del = vec![FloraSeedAppOperations::Delete(FloraDeleteSeedApp {
        application_name: "Editor",
    })];
    seed.update_apps(&del).unwrap();
    assert_eq!(seed.apps.len(), 1);
    assert_eq!(seed.apps[0].application_name, "Game II");
}

#[test]
fn adding_a_taken_app_name_is_refused() {
    let mut seed = sample_seed();
    let ops = vec![FloraSeedAppOperations::Add(FloraCreateSeedApp {
        application_name: "Editor",
        application_location: "C:\\x.exe",
    })];
    assert!(matches!(seed.update_apps(&ops), Err(FloraError::SeedAppExists)));
}

#[test]
fn touching_an_unknown_app_is_refused() {
    let mut seed = sample_seed();
    let ops = vec![FloraSeedAppOperations::Update(FloraUpdateSeedApp {
        application_name: "Missing",
        application_location: None,
    })];
    assert!(matches!(seed.update_apps(&ops), Err(FloraError::SeedNoApp)));
}

#[test]
fn launch_requests_select_by_name_or_first() {
    let mut seed = sample_seed();
    seed.apps.push(FloraSeedApp {
        application_name: String::from("Game"),
        application_location: String::from("C:\\Game\\game.exe"),
    });

    let by_name = seed.select_app(&Some(String::from("Game"))).unwrap();
    assert_eq!(by_name.application_location, "C:\\Game\\game.exe");

    let first = seed.select_app(&None).unwrap();
    assert_eq!(first.application_name, "Editor");

    assert!(matches!(
        seed.select_app(&Some(String::from("Missing"))),
        Err(FloraError::SeedNoApp)
    ));

    let empty = FloraSeed { settings: None, apps: vec![], seed_type: sample_seed().seed_type };
    assert!(matches!(empty.select_app(&None), Err(FloraError::SeedNoApp)));
}

#[test]
fn seed_item_describes_first_app() {
    let seed = sample_seed();
    let item = FloraSeedItem::from_config(&String::from("editor"), &seed);
    assert_eq!(item.name, "editor");
    assert_eq!(item.pretty_name, "Editor");
    assert_eq!(item.executable_location, "C:\\Editor\\editor.exe");
    match item.seed_type {
        FloraSeedTypeItem::Wine(w) => {
            assert_eq!(w.wine_prefix.as_deref(), Some("/data/prefixes/editor"))
        },
        _ => panic!("wrong item type"),
    }
}

fn layout() -> FloraDirs {
    FloraDirs::from_dirs(String::from("/data/flora"), "/home/u/.local/share", "/home/u/.config")
}

#[test]
fn directory_layout_hangs_off_the_root() {
    let dirs = layout();
    assert_eq!(dirs.get_seed_root(), "/data/flora/seeds");
    assert_eq!(dirs.get_wine_root(), "/data/flora/wine");
    assert_eq!(dirs.get_proton_root(), "/data/flora/proton");
    assert_eq!(dirs.get_log_root(), "/data/flora/logs");
    assert_eq!(dirs.get_prefixes_root(), "/data/flora/prefixes");
    assert_eq!(dirs.get_icons_root(), "/data/flora/icons");
    assert_eq!(dirs.get_fallback_prefix(), "/data/flora/prefixes/default");
    assert_eq!(dirs.get_fallback_prefix_proton(), "/data/flora/prefixes/proton");
    assert_eq!(
        dirs.get_proton_root_steam(),
        "/home/u/.local/share/Steam/compatibilitytools.d"
    );
    assert_eq!(
        dirs.get_desktop_entry_file("seed", "app"),
        "/home/u/.local/share/applications/flora/seed_app.desktop"
    );
    assert_eq!(
        dirs.get_desktop_directory_file(),
        "/home/u/.local/share/desktop-directories/flora.directory"
    );
    assert_eq!(
        dirs.get_desktop_menu_file(),
        "/home/u/.config/menus/applications-merged/flora.menu"
    );
    assert_eq!(dirs.get_icon_file("seed", "app"), "/data/flora/icons/seed_app.png");
}

#[test]
fn wine_runner_resolves_prefix_and_runtime() {
    let dirs = layout();
    let config = wine_config();
    let wine_seed = FloraWineSeed {
        wine_prefix: None,
        wine_runtime: Some(String::from("wine-9")),
    };
    let runner = FloraWineRunner::prepare("editor", &dirs, &config, &None, &wine_seed);
    assert_eq!(runner.prefix, "/data/prefixes/default");
    assert_eq!(runner.runtime, "/data/flora/wine/wine-9");
    assert_eq!(
        runner.get_system_start_menu_dir(),
        "/data/prefixes/default/drive_c/ProgramData/Microsoft/Windows/Start Menu"
    );
    let (runtime, prefix) = runner.gather_command_info();
    assert_eq!(runtime, "/data/flora/wine/wine-9");
    assert_eq!(prefix, "/data/prefixes/default");
}

#[test]
fn wine_launch_words_include_launcher_and_interpreter() {
    let dirs = layout();
    let config = wine_config();
    let wine_seed = FloraWineSeed { wine_prefix: None, wine_runtime: None };
    let settings = Some(Box::new(FloraSeedSettings {
        launcher_command: Some(String::from("env FOO=1")),
    }));
    let runner = FloraWineRunner::prepare("editor", &dirs, &config, &settings, &wine_seed);
    let args = vec![String::from("winecfg")];
    let argv = runner.launch_argv(&args).unwrap();
    assert_eq!(argv, vec!["env", "FOO=1", "/usr/bin/wine", "winecfg"]);
}

#[test]
fn unusable_launcher_commands_are_refused() {
    let dirs = layout();
    let config = wine_config();
    let wine_seed = FloraWineSeed { wine_prefix: None, wine_runtime: None };
    let unclosed = Some(Box::new(FloraSeedSettings {
        launcher_command: Some(String::from("\"unclosed")),
    }));
    let runner = FloraWineRunner::prepare("editor", &dirs, &config, &unclosed, &wine_seed);
    assert!(matches!(
        runner.launch_argv(&vec![]),
        Err(FloraError::IncorrectLauncher)
    ));
    let empty = Some(Box::new(FloraSeedSettings { launcher_command: Some(String::new()) }));
    let runner = FloraWineRunner::prepare("editor", &dirs, &config, &empty, &wine_seed);
    assert!(matches!(
        runner.launch_argv(&vec![]),
        Err(FloraError::IncorrectLauncher)
    ));
}

#[test]
fn proton_runner_keeps_resolved_runtime_and_launcher_binary() {
    let dirs = layout();
    let config = FloraConfig {
        wine: None,
        proton: Some(FloraProtonConfig {
            proton_prefix_location: String::from("/data/prefixes"),
            default_proton_prefix: String::from("/data/prefixes/proton"),
            default_proton_runtime: String::from("GE"),
        }),
    };
    let proton_seed = flora::seed::FloraProtonSeed {
        proton_prefix: None,
        proton_runtime: None,
        game_id: Some(String::from("123")),
        store: None,
    };
    let runner = FloraProtonRunner::prepare(
        "game",
        &dirs,
        &config,
        &None,
        &proton_seed,
        String::from("/data/flora/proton/GE"),
        String::from("umu-run"),
    );
    assert_eq!(runner.prefix, "/data/prefixes/proton");
    assert_eq!(runner.game_id.as_deref(), Some("123"));
    let argv = runner.launch_argv(&vec![String::from("game.exe")]).unwrap();
    assert_eq!(argv, vec!["umu-run", "game.exe"]);
    assert_eq!(
        runner.get_start_menu_dir(),
        "/data/prefixes/proton/drive_c/users/steamuser/AppData/Roaming/Microsoft/Windows/Start Menu"
    );
}

#[test]
fn per_user_start_menu_dir_lies_under_the_prefix() {
    let dirs = layout();
    let config = wine_config();
    let wine_seed = FloraWineSeed { wine_prefix: None, wine_runtime: None };
    let runner = FloraWineRunner::prepare("editor", &dirs, &config, &None, &wine_seed);
    let dir = runner.get_start_menu_dir();
    assert!(dir.starts_with("/data/prefixes/default/drive_c/users/"));
    assert!(dir.ends_with("AppData/Roaming/Microsoft/Windows/Start Menu"));
}

#[test]
fn directory_layout_resolves_from_the_environment() {
    match FloraDirs::new(String::from("/data/flora")) {
        Ok(dirs) => assert_eq!(dirs.flora_root, "/data/flora"),
        Err(e) => assert!(matches!(e, FloraError::NoValidHome)),
    }
}

#[test]
fn proton_tool_candidates_follow_precedence() {
    let dirs = layout();
    let home = Some(String::from("/home/u"));
    let (flora, steam, flatpak, system) = proton_tool_candidates(&dirs, &home, "GE");
    assert_eq!(flora, "/data/flora/proton/GE");
    assert_eq!(steam, "/home/u/.local/share/Steam/compatibilitytools.d/GE");
    assert_eq!(
        flatpak.as_deref(),
        Some("/home/u/.var/app/com.valvesoftware.Steam/.steam/root/compatibilitytools.d/GE")
    );
    assert_eq!(system, "/usr/share/steam/compatibilitytools.d/GE");

    assert_eq!(pick_proton_tool(&flora, &steam, &system, "GE", true, false, false, false), flora);
    assert_eq!(pick_proton_tool(&flora, &steam, &system, "GE", false, true, false, false), steam);
    // A runtime seen only in the sandboxed Steam directory is still
    // launched through the local Steam tools path.
    assert_eq!(pick_proton_tool(&flora, &steam, &system, "GE", false, false, true, false), steam);
    assert_eq!(pick_proton_tool(&flora, &steam, &system, "GE", false, false, false, true), system);
    assert_eq!(pick_proton_tool(&flora, &steam, &system, "GE", false, false, false, false), "GE");
}

#[test]
fn start_menu_entry_is_found_ignoring_case() {
    let prefix = b"/wine/prefix".to_vec();
    let paths = vec![
        b"/wine/prefix/drive_c/ProgramData/Microsoft/Windows/Start Menu/Other.lnk".to_vec(),
        b"/wine/prefix/drive_c/ProgramData/Microsoft/Windows/Start Menu/SEED.LNK".to_vec(),
    ];
    let location =
        get_start_menu_entry_location(&prefix, &paths, &b"Seed".to_vec()).unwrap();
    assert_eq!(
        String::from_utf8(location).unwrap(),
        "C:\\ProgramData\\Microsoft\\Windows\\Start Menu\\SEED.LNK"
    );
}

#[test]
fn missing_start_menu_entry_is_the_not_found_error() {
    let prefix = b"/wine/prefix".to_vec();
    let paths = vec![b"/wine/prefix/drive_c/x/Other.lnk".to_vec()];
    assert!(matches!(
        get_start_menu_entry_location(&prefix, &paths, &b"Seed".to_vec()),
        Err(FloraError::StartMenuNotFound)
    ));
}

#[test]
fn listed_start_menu_entries_are_the_shortcuts() {
    let prefix = b"/wine/prefix".to_vec();
    let paths = vec![
        b"/wine/prefix/drive_c/sm/Seed.lnk".to_vec(),
        b"/wine/prefix/drive_c/sm/readme.txt".to_vec(),
        b"/wine/prefix/drive_c/sm/Tool.lnk".to_vec(),
    ];
    let items = list_start_menu_entries(&prefix, &paths);
    assert_eq!(items.len(), 2);
    assert_eq!(String::from_utf8(items[0].start_menu_name.clone()).unwrap(), "Seed");
    assert_eq!(
        String::from_utf8(items[0].start_menu_location.clone()).unwrap(),
        "C:\\sm\\Seed.lnk"
    );
    assert_eq!(String::from_utf8(items[1].start_menu_name.clone()).unwrap(), "Tool");
}
