use wanda_core::config::WandaConfig;
use wanda_core::env::EnvVars;
use wanda_core::error::WandaError;
use wanda_core::prefix::builder::{
    dotnet_install_result, patch_version_resource, winetricks_result, HostEnv, InstallerOutcome,
    PatchOutcome, PrefixBuilder, ProtonFiles,
};
use wanda_core::prefix::manager::{
    app_version, civil_date, iso8601, version_lt, DirEntryInfo, DirListing, PrefixFacts, PrefixHealth, PrefixIssue, PrefixManager, RepairStep,
    WandaPrefix,
};
use wanda_core::steam::proton::{ProtonCompatibility, ProtonVersion};

fn no_files() -> ProtonFiles {
    ProtonFiles { wine64: false, wine: false, wineserver: false, lib64: false, lib: false }
}

fn no_host() -> HostEnv {
    HostEnv {
        display: None,
        wayland_display: None,
        xdg_runtime_dir: None,
        xauthority: None,
        ld_library_path: None,
    }
}

fn test_proton() -> ProtonVersion {
    ProtonVersion {
        name: "test".to_string(),
        path: "/test".to_string(),
        version: (9, 0, 0),
        is_ge: true,
        is_experimental: false,
        compatibility: ProtonCompatibility::Recommended,
    }
}

#[test]
fn test_build_env() {
    let proton = test_proton();
    let builder = PrefixBuilder::new("/tmp/test", &proton);
    let env = builder.build_env(&no_files(), &no_host());

    assert_eq!(env.get("WINEPREFIX"), Some(&"/tmp/test/pfx".to_string()));
    assert_eq!(env.get("WINEARCH"), Some(&"win64".to_string()));
}

#[test]
fn build_env_uses_proton_files_and_host() {
    let proton = test_proton();
    let builder = PrefixBuilder::new("/tmp/test", &proton);
    let files = ProtonFiles { wine64: true, wine: true, wineserver: true, lib64: true, lib: true };
    let host = HostEnv {
        display: Some(":0".to_string()),
        wayland_display: None,
        xdg_runtime_dir: Some("/run/user/1000".to_string()),
        xauthority: None,
        ld_library_path: Some("/usr/lib".to_string()),
    };
    let env = builder.build_env(&files, &host);
    assert_eq!(env.get("WINE").unwrap(), "/test/files/bin/wine64");
    assert_eq!(env.get("WINESERVER").unwrap(), "/test/files/bin/wineserver");
    assert_eq!(env.get("LD_LIBRARY_PATH").unwrap(), "/test/files/lib64:/test/files/lib:/usr/lib");
    assert_eq!(env.get("WINEDEBUG").unwrap(), "-all");
    assert_eq!(env.get("PROTON_NO_ESYNC").unwrap(), "1");
    assert_eq!(env.get("DISPLAY").unwrap(), ":0");
    assert!(env.get("WAYLAND_DISPLAY").is_none());
    assert_eq!(env.get("XDG_RUNTIME_DIR").unwrap(), "/run/user/1000");
    let only_lib = ProtonFiles { lib64: false, ..files };
    let env = builder.build_env(&only_lib, &no_host());
    assert_eq!(env.get("LD_LIBRARY_PATH").unwrap(), "/test/files/lib");
}

#[test]
fn wine_path_falls_back() {
    let proton = test_proton();
    let b = PrefixBuilder::new("/p", &proton);
    assert_eq!(b.get_wine_path(&ProtonFiles { wine: true, ..no_files() }), "/test/files/bin/wine");
    assert_eq!(b.get_wine_path(&no_files()), "wine");
    assert_eq!(b.wineserver_path(&no_files()), "wineserver");
    assert_eq!(b.base_path(), "/p");
    assert_eq!(b.wine_prefix_path(), "/p/pfx");
}

#[test]
fn proton_env_and_steam_root() {
    let proton = ProtonVersion { path: "/home/u/.steam/root/compatibilitytools.d/GE".to_string(), ..test_proton() };
    let b = PrefixBuilder::new("/pfx/default", &proton);
    let cands = b.steam_root_candidates();
    assert_eq!(cands[0], "/home/u/.steam/root/compatibilitytools.d");
    assert_eq!(cands[1], "/home/u/.steam/root");
    assert_eq!(cands.len(), 5);
    let marks = vec![false, true];
    assert_eq!(b.find_steam_root(&marks).as_deref(), Some("/home/u/.steam/root"));
    assert!(b.find_steam_root(&vec![]).is_none());
    let env = b.build_proton_env(&marks, &no_host());
    assert_eq!(env.get("STEAM_COMPAT_DATA_PATH").unwrap(), "/pfx/default");
    assert_eq!(env.get("STEAM_COMPAT_CLIENT_INSTALL_PATH").unwrap(), "/home/u/.steam/root");
    let env = b.build_proton_env(&vec![], &no_host());
    assert!(env.get("STEAM_COMPAT_CLIENT_INSTALL_PATH").is_none());
    let root = PrefixBuilder::new("/x", &ProtonVersion { path: "/".to_string(), ..test_proton() })
        .steam_root_candidates();
    assert!(root.is_empty());
}

#[test]
fn mscorlib_patch_sets_version_once() {
    let mut data: Vec<u8> = vec![1, 2, 3];
    data.extend_from_slice(&0xFEEF04BDu32.to_le_bytes());
    data.extend_from_slice(&[0u8; 4]);
    data.extend_from_slice(&((4u32 << 16) | 0).to_le_bytes());
    data.extend_from_slice(&30319u32.to_le_bytes());
    data.extend_from_slice(&[9u8; 12]);
    let before = data.clone();
    let out = patch_version_resource(&mut data);
    assert_eq!(out, PatchOutcome::Patched { old_ms: 4 << 16, old_ls: 30319 });
    let at = 3 + 8;
    assert_eq!(u32::from_le_bytes(data[at..at + 4].try_into().unwrap()), (4 << 16) | 8);
    assert_eq!(u32::from_le_bytes(data[at + 4..at + 8].try_into().unwrap()), 9232 << 16);
    assert_eq!(u32::from_le_bytes(data[at + 8..at + 12].try_into().unwrap()), (4 << 16) | 8);
    assert_eq!(u32::from_le_bytes(data[at + 12..at + 16].try_into().unwrap()), 9232 << 16);
    assert_eq!(&data[..at], &before[..at]);
    assert_eq!(&data[at + 16..], &before[at + 16..]);
    let once = data.clone();
    patch_version_resource(&mut data);
    assert_eq!(data, once);
}

#[test]
fn mscorlib_patch_leaves_other_files_alone() {
    let mut none = vec![0u8; 64];
    assert_eq!(patch_version_resource(&mut none), PatchOutcome::SignatureNotFound);
    assert_eq!(none, vec![0u8; 64]);
    let mut short: Vec<u8> = 0xFEEF04BDu32.to_le_bytes().to_vec();
    short.extend_from_slice(&[0u8; 10]);
    let copy = short.clone();
    assert_eq!(patch_version_resource(&mut short), PatchOutcome::TooCloseToEnd);
    assert_eq!(short, copy);
}

#[test]
fn dotnet_and_winetricks_results() {
    assert!(dotnet_install_result(InstallerOutcome::Exited(Some(0))).is_ok());
    assert!(dotnet_install_result(InstallerOutcome::Exited(Some(1641))).is_ok());
    assert!(dotnet_install_result(InstallerOutcome::Exited(Some(3010))).is_ok());
    match dotnet_install_result(InstallerOutcome::Exited(Some(1603))) {
        Err(WandaError::WinetricksFailed { reason }) => {
            assert_eq!(reason, format!(".NET 4.8 installer failed with exit code {:?}", Some(1603)))
        },
        _ => panic!("expected a failure"),
    }
    match dotnet_install_result(InstallerOutcome::Exited(None)) {
        Err(WandaError::WinetricksFailed { reason }) => {
            assert_eq!(reason, ".NET 4.8 installer failed with exit code None")
        },
        _ => panic!("expected a failure"),
    }
    match dotnet_install_result(InstallerOutcome::TimedOut) {
        Err(WandaError::WinetricksFailed { reason }) => assert_eq!(
            reason,
            format!(".NET installer timed out after {:?}", std::time::Duration::from_secs(300))
        ),
        _ => panic!("expected a failure"),
    }
    match dotnet_install_result(InstallerOutcome::FailedToStart("no such file".to_string())) {
        Err(WandaError::WinetricksFailed { reason }) => {
            assert_eq!(reason, "Failed to run .NET installer: no such file")
        },
        _ => panic!("expected a failure"),
    }
    assert!(winetricks_result("vcrun2019", Some(0)).is_ok());
    match winetricks_result("vcrun2019", Some(-2)) {
        Err(WandaError::WinetricksFailed { reason }) => assert_eq!(
            reason,
            format!("winetricks {} failed with exit code {:?}", "vcrun2019", Some(-2))
        ),
        _ => panic!("expected a failure"),
    }
}

fn prefix(name: &str, path: &str) -> WandaPrefix {
    WandaPrefix::created(name, path, "GE-Proton9-5", "1700000000")
}

#[test]
fn prefix_layout() {
    let p = prefix("default", "/d/prefix/default");
    assert_eq!(p.pfx_path(), "/d/prefix/default/pfx");
    assert_eq!(p.drive_c(), "/d/prefix/default/pfx/drive_c");
    assert_eq!(p.user_folder(), "/d/prefix/default/pfx/drive_c/users/steamuser");
    assert_eq!(p.system32(), "/d/prefix/default/pfx/drive_c/windows/system32");
    let all = p.wemod_paths_all();
    assert_eq!(all[0], "/d/prefix/default/pfx/drive_c/users/steamuser/AppData/Local/Wand");
    assert_eq!(all[1], "/d/prefix/default/pfx/drive_c/users/steamuser/AppData/Local/WeMod");
    assert!(!p.wemod_installed);
    assert_eq!(p.proton_version.as_deref(), Some("GE-Proton9-5"));
}

fn listing(exists: bool, root: bool, entries: Vec<(&str, bool, bool)>) -> DirListing {
    DirListing {
        exists,
        has_wemod_exe: root,
        entries: entries
            .into_iter()
            .map(|(n, d, e)| DirEntryInfo { name: n.to_string(), is_dir: d, has_wemod_exe: e })
            .collect(),
    }
}

#[test]
fn wemod_directory_choice() {
    let p = prefix("default", "/x");
    let base = "/x/pfx/drive_c/users/steamuser/AppData/Local";
    let empty_wand = listing(true, false, vec![]);
    let wemod11 = listing(true, false, vec![("app-11.6.0", true, true)]);
    assert_eq!(p.wemod_path(&empty_wand, &wemod11), format!("{}/WeMod", base));
    let wand12 = listing(true, true, vec![]);
    assert_eq!(p.wemod_path(&wand12, &wemod11), format!("{}/Wand", base));
    let missing = listing(false, false, vec![]);
    assert_eq!(p.wemod_path(&missing, &missing), format!("{}/WeMod", base));
    assert_eq!(p.wemod_path(&empty_wand, &missing), format!("{}/Wand", base));
    assert_eq!(p.wemod_exe(&missing, &missing), format!("{}/WeMod/WeMod.exe", base));
}

#[test]
fn wemod_app_exe_picks_highest_app_dir() {
    let p = prefix("default", "/x");
    let wemod = listing(
        true,
        true,
        vec![
            ("app-11.5.0", true, true),
            ("app-11.6.0", true, true),
            ("app-9.0.0", true, true),
            ("app-12.0.0", true, false),
            ("packages", true, false),
            ("app-13.0.0", false, true),
        ],
    );
    let missing = listing(false, false, vec![]);
    assert_eq!(
        p.wemod_app_exe(&missing, &wemod).as_deref(),
        Some("/x/pfx/drive_c/users/steamuser/AppData/Local/WeMod/app-11.6.0/WeMod.exe")
    );
    let numeric = listing(
        true,
        true,
        vec![("app-11.9.0", true, true), ("app-11.10.0", true, true), ("app-11.10", true, true)],
    );
    assert_eq!(
        p.wemod_app_exe(&missing, &numeric).as_deref(),
        Some("/x/pfx/drive_c/users/steamuser/AppData/Local/WeMod/app-11.10.0/WeMod.exe")
    );
    assert!(p.wemod_app_exe(&missing, &missing).is_none());
}

fn facts(all: bool) -> PrefixFacts {
    PrefixFacts { drive_c: all, system32: all, system_reg: all, user_reg: all, dotnet: all, wemod_exe: all }
}

#[test]
fn validate_reports_health() {
    let mut m = PrefixManager::new(&WandaConfig::default());
    m.base_path = "/b".to_string();
    m.load(vec![prefix("default", "/b/default")]);
    assert!(matches!(m.validate("default", &facts(true)), Ok(PrefixHealth::Healthy)));
    assert!(matches!(m.validate("default", &facts(false)), Ok(PrefixHealth::NotCreated)));
    let f = PrefixFacts { dotnet: false, wemod_exe: false, ..facts(true) };
    match m.validate("default", &f) {
        Ok(PrefixHealth::NeedsRepair(is)) => {
            let msgs: Vec<String> = is.iter().map(|i| i.message()).collect();
            assert_eq!(msgs, vec![".NET Framework 4.8 not installed", "WeMod is not installed"]);
        },
        _ => panic!("expected needs repair"),
    }
    let f = PrefixFacts { user_reg: false, system32: false, ..facts(true) };
    match m.validate("default", &f) {
        Ok(PrefixHealth::Corrupted(r)) => assert_eq!(r, "Registry files are missing or corrupted"),
        _ => panic!("expected corrupted"),
    }
    match m.validate("other", &facts(true)) {
        Err(WandaError::PrefixNotFound { path }) => assert_eq!(path, "/b/other"),
        _ => panic!("expected not found"),
    }
}

#[test]
fn repair_plan_steps() {
    let mut m = PrefixManager::new(&WandaConfig::default());
    m.base_path = "/b".to_string();
    assert!(m.repair_plan("default", PrefixHealth::Healthy).unwrap().is_empty());
    let steps = m.repair_plan("default", PrefixHealth::NotCreated).unwrap();
    assert!(matches!(steps.as_slice(), [RepairStep::CreatePrefix]));
    let steps = m
        .repair_plan(
            "default",
            PrefixHealth::NeedsRepair(vec![
                PrefixIssue::IncompletePrefix,
                PrefixIssue::MissingDotNet,
                PrefixIssue::WemodNotInstalled,
                PrefixIssue::MissingDependency("corefonts".to_string()),
            ]),
        )
        .unwrap();
    assert_eq!(steps.len(), 2);
    assert!(matches!(steps[0], RepairStep::InstallDotNet));
    assert!(matches!(&steps[1], RepairStep::InstallDependency(d) if d == "corefonts"));
    match m.repair_plan("default", PrefixHealth::Corrupted("bad".to_string())) {
        Err(WandaError::PrefixCorrupted { path, reason }) => {
            assert_eq!(path, "/b/default");
            assert_eq!(reason, "bad");
        },
        _ => panic!("expected corrupted"),
    }
}

#[test]
fn create_register_update_delete() {
    let mut m = PrefixManager::new(&WandaConfig::default());
    m.base_path = "/b".to_string();
    match m.check_creatable("default", true) {
        Err(WandaError::PrefixCreationFailed { path, reason }) => {
            assert_eq!(path, "/b/default");
            assert_eq!(reason, "Prefix already exists");
        },
        _ => panic!("expected failure"),
    }
    let dir = m.check_creatable("default", false).unwrap();
    assert_eq!(dir, "/b/default");
    m.register(prefix("default", &dir));
    m.register(prefix("other", "/b/other"));
    assert_eq!(m.list().len(), 2);
    assert_eq!(m.get("default").unwrap().path, "/b/default");
    assert!(m.update_metadata("default", |mut p| {
        p.wemod_installed = true;
        p.wemod_version = Some("11.5.0".to_string());
        p
    }));
    assert!(m.get("default").unwrap().wemod_installed);
    assert!(!m.get("other").unwrap().wemod_installed);
    assert!(!m.update_metadata("missing", |p| p));
    match m.delete("gone", None) {
        Err(WandaError::PrefixNotFound { path }) => assert_eq!(path, "/b/gone"),
        _ => panic!("expected not found"),
    }
    assert!(matches!(m.delete("default", Some(Err("busy".to_string()))), Err(WandaError::Io(e)) if e == "busy"));
    assert_eq!(m.list().len(), 2);
    assert!(m.delete("default", Some(Ok(()))).is_ok());
    assert!(m.get("default").is_none());
    assert_eq!(m.list().len(), 1);
}

#[test]
fn issue_messages() {
    assert_eq!(PrefixIssue::MissingDependency("vcrun".to_string()).message(), "Missing dependency: vcrun");
    assert_eq!(PrefixIssue::CorruptedRegistry.message(), "Windows registry is corrupted");
    assert_eq!(PrefixIssue::WemodOutdated.message(), "WeMod is outdated");
    assert_eq!(PrefixIssue::IncompletePrefix.message(), "Wine prefix structure is incomplete");
}

#[test]
fn env_insert_replaces_and_extends() {
    let mut e = EnvVars::new();
    e.insert("A", "1");
    e.insert("B", "2");
    e.insert("A", "3");
    assert_eq!(e.len(), 2);
    assert_eq!(e.get("A").unwrap(), "3");
    assert_eq!(e.get("B").unwrap(), "2");
    assert!(e.get("C").is_none());
    let mut more = EnvVars::new();
    more.insert("B", "9");
    more.insert("C", "4");
    e.extend(&more);
    assert_eq!(e.get("B").unwrap(), "9");
    assert_eq!(e.get("C").unwrap(), "4");
    assert_eq!(e.pairs()[0], ("A".to_string(), "3".to_string()));
}

#[test]
fn timestamp_is_iso8601() {
    let t = wanda_core::prefix::manager::chrono_lite_now();
    assert_eq!(t.len(), 20);
    assert!(t.ends_with('Z'));
    assert_eq!(&t[4..5], "-");
    assert_eq!(&t[10..11], "T");
    assert!(t.as_str() > "2020");
}

#[test]
fn iso8601_dates() {
    assert_eq!(iso8601(1735689600), "2025-01-01T00:00:00Z");
    assert_eq!(iso8601(0), "1970-01-01T00:00:00Z");
    assert_eq!(iso8601(951782400 + 3661), "2000-02-29T01:01:01Z");
    assert_eq!(iso8601(1709251199), "2024-02-29T23:59:59Z");
    assert_eq!(civil_date(365), (1971, 1, 1));
    assert_eq!(civil_date(58), (1970, 2, 28));
}

#[test]
fn app_versions_compare_as_numbers() {
    assert_eq!(app_version("app-11.10.0"), vec![11, 10, 0]);
    assert_eq!(app_version("app-1.x"), vec![1, 0]);
    assert!(version_lt(&app_version("app-11.9.0"), &app_version("app-11.10.0")));
    assert!(!version_lt(&app_version("app-11.10.0"), &app_version("app-11.9.0")));
    assert!(version_lt(&vec![11, 10], &vec![11, 10, 0]));
    assert!(!version_lt(&vec![1, 2], &vec![1, 2]));
}
