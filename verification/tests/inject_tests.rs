use wanda_core::error::WandaError;
use wanda_core::inject::scripts::{inject_library_folders_vdf, inject_proxy_text};
use wanda_core::inject::{
    command_args, compat_data_path, create_inject_batch, find_real_game_exe, find_wanda_wemod,
    find_wemod_app_exe, inject_exec_args, inject_library_layout, inject_proxy_batch,
    inject_registry_addition, library_root_from_game_exe, linked_wemod_dir, manifest_name,
    parse_command, proton_script_index, roaming_link, to_c_drive_game_path, wanda_wemod_dirs,
    wemod12_or_later, wemod_c_drive_path, wineserver_check, SiblingExe,
};
use wanda_core::prefix::manager::DirEntryInfo;

fn s(v: &[&str]) -> Vec<String> {
    v.iter().map(|x| x.to_string()).collect()
}

fn steam_command() -> Vec<String> {
    s(&[
        "/s/ubuntu12_32/steam-launch-wrapper",
        "--",
        "/s/ubuntu12_32/reaper",
        "SteamLaunch",
        "AppId=1245620",
        "--",
        "/s/compatibilitytools.d/GE-Proton9-5/proton",
        "waitforexitandrun",
        "/lib/steamapps/common/ELDEN RING/Game/start_protected_game.exe",
        "-arg",
    ])
}

#[test]
fn parse_steam_command() {
    let cmd = steam_command();
    let mut exists = vec![true; cmd.len()];
    exists[8] = true;
    assert_eq!(proton_script_index(&cmd, &exists), Some(6));
    let sibs = vec![
        SiblingExe { path: "/lib/steamapps/common/ELDEN RING/Game/start_protected_game.exe".to_string(), is_file: true, size: 10 },
        SiblingExe { path: "/lib/steamapps/common/ELDEN RING/Game/eldenring.exe".to_string(), is_file: true, size: 90 },
        SiblingExe { path: "/lib/steamapps/common/ELDEN RING/Game/helper.exe".to_string(), is_file: true, size: 90 },
        SiblingExe { path: "/lib/steamapps/common/ELDEN RING/Game/big_dir.exe".to_string(), is_file: false, size: 900 },
        SiblingExe { path: "/lib/steamapps/common/ELDEN RING/Game/data.pak".to_string(), is_file: true, size: 9000 },
    ];
    let p = parse_command(&cmd, &exists, &sibs).unwrap();
    assert_eq!(p.proton_dir, "/s/compatibilitytools.d/GE-Proton9-5");
    assert_eq!(p.game_exe, "/lib/steamapps/common/ELDEN RING/Game/start_protected_game.exe");
    assert_eq!(p.real_game_exe, "/lib/steamapps/common/ELDEN RING/Game/eldenring.exe");
    assert_eq!(p.game_exe_idx, 8);
    let mut none_exist = vec![false; cmd.len()];
    match parse_command(&cmd, &none_exist, &sibs) {
        Err(WandaError::LaunchFailed { reason }) => {
            assert_eq!(reason, format!("Could not find Proton script in command args: {:?}", cmd))
        },
        _ => panic!("expected failure"),
    }
    none_exist[6] = true;
    let short = cmd[..8].to_vec();
    match parse_command(&short, &none_exist, &sibs) {
        Err(WandaError::LaunchFailed { reason }) => assert_eq!(reason, "No game executable found after Proton verb"),
        _ => panic!("expected failure"),
    }
    let shorter = cmd[..7].to_vec();
    match parse_command(&shorter, &none_exist, &sibs) {
        Err(WandaError::LaunchFailed { reason }) => assert_eq!(reason, "No verb found after Proton script"),
        _ => panic!("expected failure"),
    }
}

#[test]
fn real_exe_only_behind_anticheat() {
    let sibs = vec![SiblingExe { path: "/g/game.exe".to_string(), is_file: true, size: 5 }];
    assert!(find_real_game_exe("/g/game.exe", &sibs).is_none());
    assert_eq!(find_real_game_exe("/g/EasyAntiCheat_launcher.exe", &sibs).as_deref(), Some("/g/game.exe"));
    let tools = vec![SiblingExe { path: "/g/UnityCrashHandler64.exe".to_string(), is_file: true, size: 5 }];
    assert!(find_real_game_exe("/g/start_protected_game.exe", &tools).is_none());
}

#[test]
fn wemod_locations() {
    let (wemod, wand) = wanda_wemod_dirs("/b");
    assert_eq!(wemod, "/b/default/pfx/drive_c/users/steamuser/AppData/Local/WeMod");
    assert_eq!(wand, "/b/default/pfx/drive_c/users/steamuser/AppData/Local/Wand");
    assert_eq!(find_wanda_wemod("/b", true, true).unwrap(), wemod);
    assert_eq!(find_wanda_wemod("/b", false, true).unwrap(), wand);
    assert!(matches!(find_wanda_wemod("/b", false, false), Err(WandaError::WemodNotInstalled)));
    assert_eq!(
        linked_wemod_dir("/c", &wemod).as_deref(),
        Some("/c/pfx/drive_c/users/steamuser/AppData/Local/WeMod")
    );
}

fn entries(v: &[(&str, bool, bool)]) -> Vec<DirEntryInfo> {
    v.iter().map(|(n, d, e)| DirEntryInfo { name: n.to_string(), is_dir: *d, has_wemod_exe: *e }).collect()
}

#[test]
fn wemod_12_is_skipped() {
    assert!(wemod12_or_later("app-12.0.3"));
    assert!(wemod12_or_later("app-app-13.1"));
    assert!(!wemod12_or_later("app-11.6.0"));
    assert!(!wemod12_or_later("app-x.1"));
    let es = entries(&[("app-12.0.3", true, true), ("app-11.5.0", true, true), ("app-11.6.0", true, true), ("app-11.9.0", true, false)]);
    assert_eq!(find_wemod_app_exe("/w", &es).as_deref(), Some("/w/app-11.6.0/WeMod.exe"));
    assert_eq!(
        wemod_c_drive_path("/b/WeMod", &es, true).as_deref(),
        Some("C:\\users\\steamuser\\AppData\\Local\\WeMod\\app-11.6.0\\WeMod.exe")
    );
    assert_eq!(
        wemod_c_drive_path("/b/WeMod", &entries(&[("app-12.1.0", true, true)]), true).as_deref(),
        Some("C:\\users\\steamuser\\AppData\\Local\\WeMod\\WeMod.exe")
    );
    assert!(wemod_c_drive_path("/b/WeMod", &vec![], false).is_none());
}

#[test]
fn game_paths() {
    let exe = "/mnt/games/steamapps/common/Game X/bin/x.exe";
    assert_eq!(library_root_from_game_exe(exe).as_deref(), Some("/mnt/games"));
    assert_eq!(
        to_c_drive_game_path(exe).as_deref(),
        Some("C:\\Program Files (x86)\\Steam\\steamapps\\common\\Game X\\bin\\x.exe")
    );
    assert!(library_root_from_game_exe("/opt/x.exe").is_none());
    assert!(to_c_drive_game_path("/opt/x.exe").is_none());
}

#[test]
fn inject_batch_and_files() {
    let (p, t) = create_inject_batch(
        "/c",
        "/b/WeMod",
        "/lib/steamapps/common/G/g.exe",
        &Some("C:\\users\\steamuser\\AppData\\Local\\WeMod\\app-11.6.0\\WeMod.exe".to_string()),
        &None,
    );
    assert_eq!(p, "/c/wanda_inject.bat");
    assert!(t.contains("echo [WANDA] WeMod: C:\\users\\steamuser\\AppData\\Local\\WeMod\\app-11.6.0\\WeMod.exe\r\n"));
    assert!(t.contains("echo [WANDA] Game: C:\\Program Files (x86)\\Steam\\steamapps\\common\\G\\g.exe\r\n"));
    assert!(t.contains("set SteamAppId=\r\n"));
    assert!(t.ends_with("goto keepalive\r\n"));
    let (_, t2) = create_inject_batch("/c", "/b/WeMod", "/x/g.exe", &None, &None);
    assert!(t2.contains("start \"\" \"Z:\\b\\WeMod\\WeMod.exe\" --no-sandbox"));
    assert!(t2.contains("echo [WANDA] Game: Z:\\x\\g.exe\r\n"));
    let (pp, pt) = inject_proxy_batch("/c");
    assert_eq!(pp, "/c/pfx/drive_c/wanda/steam_proxy.bat");
    assert_eq!(pt, inject_proxy_text().replace('\n', "\r\n"));
    let layout = inject_library_layout("/c", "/lib/steamapps/common/G/g.exe");
    assert_eq!(layout.library_root.as_deref(), Some("/lib"));
    assert_eq!(layout.common_target, "/lib/steamapps/common");
    assert_eq!(layout.common_link, "/c/pfx/drive_c/Program Files (x86)/Steam/steamapps/common");
    assert_eq!(manifest_name("1245620"), "appmanifest_1245620.acf");
    assert!(inject_library_folders_vdf("77").contains("\"77\"\t\t\"0\""));
    let reg = inject_registry_addition(&Some(String::new()), "77", 3).unwrap();
    assert!(reg.contains("[Software\\\\Valve\\\\Steam\\\\Apps\\\\77] 3\n"));
    assert!(!reg.contains("\"Name\""));
    assert!(inject_registry_addition(&Some(reg.clone()), "77", 4).is_none());
    assert!(inject_registry_addition(&None, "77", 4).is_none());
}

#[test]
fn launch_rewriting() {
    let argv = s(&["wanda", "-v", "inject", "a", "b", "c"]);
    assert_eq!(command_args(&argv).unwrap(), s(&["a", "b", "c"]));
    match command_args(&s(&["wanda", "inject"])) {
        Err(WandaError::LaunchFailed { reason }) => assert_eq!(reason, "No command provided. Usage: wanda inject %command%"),
        _ => panic!("expected failure"),
    }
    match command_args(&s(&["wanda"])) {
        Err(WandaError::LaunchFailed { reason }) => assert_eq!(reason, "Could not find 'inject' in argv"),
        _ => panic!("expected failure"),
    }
    assert_eq!(compat_data_path(Some("/c".to_string())).unwrap(), "/c");
    assert!(compat_data_path(None).is_err());
    let cmd = steam_command();
    assert_eq!(
        inject_exec_args(&cmd, 8, "/c/wanda_inject.bat"),
        s(&[
            "--",
            "/s/ubuntu12_32/reaper",
            "SteamLaunch",
            "AppId=1245620",
            "--",
            "/s/compatibilitytools.d/GE-Proton9-5/proton",
            "waitforexitandrun",
            "Z:/c/wanda_inject.bat",
        ])
    );
    let (ws, env) = wineserver_check("/p", "/c");
    assert_eq!(ws, "/p/files/bin/wineserver");
    assert_eq!(env.get("WINEPREFIX").unwrap(), "/c/pfx");
    assert_eq!(env.get("LD_LIBRARY_PATH").unwrap(), "/p/files/lib64:/p/files/lib");
}

#[test]
fn wemod_roaming_data_link() {
    let (src, dir, link) = roaming_link("/data/prefix/default", "/lib/steamapps/compatdata/10");
    assert_eq!(src, "/data/prefix/default/pfx/drive_c/users/steamuser/AppData/Roaming/WeMod");
    assert_eq!(dir, "/lib/steamapps/compatdata/10/pfx/drive_c/users/steamuser/AppData/Roaming");
    assert_eq!(link, "/lib/steamapps/compatdata/10/pfx/drive_c/users/steamuser/AppData/Roaming/WeMod");
}
