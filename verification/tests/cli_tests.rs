use std::collections::HashMap;
use wanda_core::cli::{
    doctor_issues, doctor_tools, CliDoctorFindings, doctor_suggestions, launch_base_prefix, launch_prefix, scan_games, select_game, split_whitespace, steam_run_url,
    wemod_up_to_date,
};
use wanda_core::config::WandaConfig;
use wanda_core::error::WandaError;
use wanda_core::prefix::manager::{PrefixHealth, PrefixIssue, PrefixManager, WandaPrefix};
use wanda_core::steam::library::{SteamApp, SteamInstallation, SteamLibrary};
use wanda_core::steam::proton::{ProtonCompatibility, ProtonManager, ProtonVersion};

fn app(id: u32, name: &str, proton: bool) -> SteamApp {
    SteamApp {
        app_id: id,
        name: name.to_string(),
        install_dir: name.to_string(),
        install_path: format!("/lib/steamapps/common/{}", name),
        library_path: "/lib".to_string(),
        size_on_disk: 0,
        compat_data_path: if proton { Some(format!("/lib/steamapps/compatdata/{}", id)) } else { None },
    }
}

fn steam() -> SteamInstallation {
    let mut apps = HashMap::new();
    for a in [app(10, "Elden Ring", true), app(20, "Portal 2", false), app(30, "Portal", true)] {
        apps.insert(a.app_id, a);
    }
    SteamInstallation {
        root_path: "/s".to_string(),
        libraries: vec![SteamLibrary { path: "/lib".to_string(), label: None, apps }],
        is_flatpak: false,
    }
}

#[test]
fn game_selection() {
    let s = steam();
    assert_eq!(select_game(&s, "10").unwrap().name, "Elden Ring");
    assert!(matches!(select_game(&s, "99"), Err(WandaError::GameNotFound { app_id: 99 })));
    assert_eq!(select_game(&s, "elden").unwrap().app_id, 10);
    match select_game(&s, "portal") {
        Err(WandaError::LaunchFailed { reason }) => assert_eq!(reason, "Please specify the exact App ID"),
        _ => panic!("expected ambiguity"),
    }
    match select_game(&s, "zelda") {
        Err(WandaError::LaunchFailed { reason }) => assert_eq!(reason, "No game found matching 'zelda'"),
        _ => panic!("expected no match"),
    }
}

#[test]
fn scan_listing() {
    let s = steam();
    let all = s.get_all_games();
    let names = |v: Vec<&SteamApp>| v.iter().map(|g| g.name.clone()).collect::<Vec<_>>();
    assert_eq!(names(scan_games(&all, None, true)), vec!["Elden Ring", "Portal", "Portal 2"]);
    assert_eq!(names(scan_games(&all, None, false)), vec!["Elden Ring", "Portal"]);
    assert_eq!(names(scan_games(&all, Some("PORT"), true)), vec!["Portal", "Portal 2"]);
    assert!(scan_games(&all, Some("none"), true).is_empty());
}

#[test]
fn whitespace_splitting_matches_std() {
    for t in ["", "  ", "-a -b", "  lead  trail  ", "one", "tab\tsep\nnl", "wide\u{3000}space"] {
        let ours = split_whitespace(t);
        let theirs: Vec<String> = t.split_whitespace().map(String::from).collect();
        assert_eq!(ours, theirs, "{:?}", t);
    }
}

#[test]
fn small_decisions() {
    assert_eq!(steam_run_url(1245620), "steam://rungameid/1245620");
    assert!(wemod_up_to_date(&Some("11.5.0".to_string()), &Some("11.5.0".to_string())));
    assert!(!wemod_up_to_date(&Some("11.4.0".to_string()), &Some("11.5.0".to_string())));
    assert!(wemod_up_to_date(&None, &None));
    assert!(wemod_up_to_date(&Some("unknown".to_string()), &None));
    let issues = vec!["WANDA not initialized".to_string(), "Proton detection failed: x".to_string()];
    assert_eq!(
        doctor_suggestions(&issues),
        vec!["Run 'wanda init' to initialize WANDA", "Install GE-Proton via ProtonUp-Qt or Steam"]
    );
    assert!(doctor_suggestions(&vec![]).is_empty());
    let p = WandaPrefix::created("default", "/d", "GE", "1");
    let g = p.for_game("/lib/steamapps/compatdata/10");
    assert_eq!(g.name, "game");
    assert!(g.wemod_installed);
    assert_eq!(g.proton_version.as_deref(), Some("GE"));
    assert!(g.created_at.is_none());
}

fn pv(name: &str, c: ProtonCompatibility) -> ProtonVersion {
    ProtonVersion { name: name.to_string(), path: format!("/p/{}", name), version: (1, 0, 0), is_ge: false, is_experimental: false, compatibility: c }
}

#[test]
fn proton_choice_for_init_and_launch() {
    let m = ProtonManager {
        versions: vec![
            pv("GE-Proton10-1", ProtonCompatibility::Experimental),
            pv("GE-Proton9-5", ProtonCompatibility::Supported),
        ],
    };
    assert_eq!(m.select_for_init(Some("proton10"), None).unwrap().name, "GE-Proton10-1");
    assert!(matches!(m.select_for_init(Some("nope"), None), Err(WandaError::ProtonNotFound)));
    assert_eq!(m.select_for_init(None, Some("GE-Proton10")).unwrap().name, "GE-Proton9-5");
    assert_eq!(m.select_for_init(None, Some("9-5")).unwrap().name, "GE-Proton9-5");
    assert_eq!(m.select_for_init(None, None).unwrap().name, "GE-Proton9-5");
    let c = WandaConfig::default();
    assert_eq!(m.select_for_launch(Some("10-1"), &c).unwrap().name, "GE-Proton10-1");
    match m.select_for_launch(Some("x"), &c) {
        Err(WandaError::LaunchFailed { reason }) => assert_eq!(reason, "Proton version 'x' not found"),
        _ => panic!("expected failure"),
    }
    assert_eq!(m.select_for_launch(None, &c).unwrap().name, "GE-Proton9-5");
}

fn recorded(name: &str, wemod: bool) -> WandaPrefix {
    WandaPrefix {
        name: name.to_string(),
        path: format!("/data/prefix/{}", name),
        wemod_installed: wemod,
        wemod_version: Some("11.5.0".to_string()),
        proton_version: Some("GE-Proton9-5".to_string()),
        created_at: Some("1700000000".to_string()),
        last_used: None,
    }
}

#[test]
fn launch_needs_initialized_prefix_with_wemod() {
    let empty = PrefixManager { base_path: "/data/prefix".to_string(), prefixes: vec![] };
    match launch_base_prefix(&empty) {
        Err(WandaError::LaunchFailed { reason }) => {
            assert_eq!(reason, "WANDA not initialized. Run 'wanda init' first.")
        },
        _ => panic!("expected failure"),
    }
    let without = PrefixManager { base_path: "/data/prefix".to_string(), prefixes: vec![recorded("default", false)] };
    assert!(matches!(launch_base_prefix(&without), Err(WandaError::WemodNotInstalled)));
    let ready = PrefixManager {
        base_path: "/data/prefix".to_string(),
        prefixes: vec![recorded("other", true), recorded("default", true)],
    };
    assert_eq!(launch_base_prefix(&ready).unwrap().path, "/data/prefix/default");
}

#[test]
fn launch_runs_in_game_prefix_when_there_is_one() {
    let base = recorded("default", true);
    let with = app(10, "Elden Ring", true);
    let p = launch_prefix(&base, &with, false).unwrap().unwrap();
    assert_eq!(p.name, "game");
    assert_eq!(p.path, "/lib/steamapps/compatdata/10");
    assert_eq!(p.wemod_version.as_deref(), Some("11.5.0"));
    assert!(p.created_at.is_none());
    let without = app(20, "Portal 2", false);
    assert!(launch_prefix(&base, &without, false).unwrap().is_none());
    match launch_prefix(&base, &without, true) {
        Err(WandaError::LaunchFailed { reason }) => assert_eq!(
            reason,
            "Game 'Portal 2' has no Proton compat data. Launch it via Steam once first."
        ),
        _ => panic!("expected failure"),
    }
}

#[test]
fn doctor_lists_problems_in_order() {
    let ok = CliDoctorFindings {
        steam_found: true,
        proton_count: 2,
        has_recommended: true,
        prefix: Some(PrefixHealth::Healthy),
        wemod_installed: true,
        wemod_exe_found: true,
        tools_found: vec![true, true, true, true],
    };
    assert!(doctor_issues(&ok).is_empty());
    let bad = CliDoctorFindings {
        steam_found: true,
        proton_count: 3,
        has_recommended: false,
        prefix: Some(PrefixHealth::NeedsRepair(vec![
            PrefixIssue::MissingDotNet,
            PrefixIssue::MissingDependency("vcrun2019".to_string()),
        ])),
        wemod_installed: true,
        wemod_exe_found: false,
        tools_found: vec![true, false, true, false],
    };
    assert_eq!(
        doctor_issues(&bad),
        vec![
            "No recommended Proton version found",
            "Prefix issue: .NET Framework 4.8 not installed",
            "Prefix issue: Missing dependency: vcrun2019",
            "WeMod executable not found",
            "Winetricks not found in PATH",
            "XDG utilities not found in PATH",
        ]
    );
    let none = CliDoctorFindings {
        steam_found: false,
        proton_count: 0,
        has_recommended: false,
        prefix: None,
        wemod_installed: false,
        wemod_exe_found: false,
        tools_found: vec![],
    };
    assert_eq!(doctor_issues(&none), vec!["Steam installation not found", "WANDA not initialized"]);
    let corrupted = CliDoctorFindings { prefix: Some(PrefixHealth::Corrupted("bad".to_string())), wemod_installed: false, ..none.clone() };
    assert_eq!(
        doctor_issues(&corrupted),
        vec!["Steam installation not found", "Prefix corrupted: bad", "WeMod not installed"]
    );
    let tools = doctor_tools();
    assert_eq!(tools[3], ("xdg-open".to_string(), "XDG utilities".to_string()));
}
