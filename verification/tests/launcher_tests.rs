use wanda_core::error::WandaError;
use wanda_core::launcher::scripts::{
    launch_batch_text, library_folders_vdf, protocol_override_text, standalone_batch_text,
};
use wanda_core::launcher::{
    extension, is_excluded, join_strings, tee_to_log, GameLauncher, LaunchConfig,
};
use wanda_core::prefix::builder::{HostEnv, ProtonFiles};
use wanda_core::prefix::manager::WandaPrefix;
use wanda_core::steam::library::{SteamApp, SteamInstallation};
use wanda_core::steam::proton::{ProtonCompatibility, ProtonVersion};

fn game() -> SteamApp {
    SteamApp {
        app_id: 1245620,
        name: "ELDEN RING".to_string(),
        install_dir: "ELDEN RING".to_string(),
        install_path: "/lib/steamapps/common/ELDEN RING".to_string(),
        library_path: "/lib".to_string(),
        size_on_disk: 0,
        compat_data_path: Some("/lib/steamapps/compatdata/1245620".to_string()),
    }
}

fn proton() -> ProtonVersion {
    ProtonVersion {
        name: "GE-Proton9-5".to_string(),
        path: "/s/compatibilitytools.d/GE-Proton9-5".to_string(),
        version: (9, 5, 0),
        is_ge: true,
        is_experimental: false,
        compatibility: ProtonCompatibility::Supported,
    }
}

fn steam() -> SteamInstallation {
    SteamInstallation { root_path: "/s".to_string(), libraries: vec![], is_flatpak: false }
}

fn host() -> HostEnv {
    HostEnv {
        display: Some(":1".to_string()),
        wayland_display: None,
        xdg_runtime_dir: None,
        xauthority: Some("/home/u/.Xauthority".to_string()),
        ld_library_path: None,
    }
}

#[test]
fn launch_config_defaults() {
    let c = LaunchConfig::default();
    assert_eq!(c.app_id, 0);
    assert!(c.with_wemod);
    assert!(c.extra_args.is_empty());
    assert_eq!(c.extra_env.len(), 0);
    assert_eq!(c.wemod_delay, 3);
    assert!(!c.standalone);
}

#[test]
fn launch_environment() {
    let (s, pfx, pr) = (steam(), WandaPrefix::created("default", "/w/default", "x", "0"), proton());
    let l = GameLauncher::new(&s, &pfx, &pr);
    let files = ProtonFiles { wine64: true, wine: false, wineserver: false, lib64: true, lib: false };
    let env = l.build_env(Some(42), &files, &host());
    assert_eq!(env.get("STEAM_COMPAT_DATA_PATH").unwrap(), "/w/default");
    assert_eq!(env.get("STEAM_COMPAT_CLIENT_INSTALL_PATH").unwrap(), "/s");
    assert_eq!(env.get("SteamAppId").unwrap(), "42");
    assert_eq!(env.get("SteamGameId").unwrap(), "42");
    assert_eq!(env.get("STEAM_COMPAT_APP_ID").unwrap(), "42");
    assert_eq!(env.get("DISPLAY").unwrap(), ":1");
    assert_eq!(env.get("XAUTHORITY").unwrap(), "/home/u/.Xauthority");
    assert_eq!(env.get("WINEESYNC").unwrap(), "0");
    assert_eq!(env.get("LD_LIBRARY_PATH").unwrap(), "/s/compatibilitytools.d/GE-Proton9-5/files/lib64");
    let env = l.build_env(None, &files, &host());
    assert!(env.get("SteamAppId").is_none());
    let mut c = LaunchConfig { app_id: 7, ..LaunchConfig::default() };
    c.extra_env.insert("DISPLAY", ":9");
    c.extra_env.insert("DXVK_HUD", "1");
    let env = l.launch_env(&c, &game(), &files, &host());
    assert_eq!(env.get("STEAM_COMPAT_INSTALL_PATH").unwrap(), "/lib/steamapps/common/ELDEN RING");
    assert_eq!(env.get("DISPLAY").unwrap(), ":9");
    assert_eq!(env.get("DXVK_HUD").unwrap(), "1");
    assert_eq!(env.get("SteamAppId").unwrap(), "7");
}

#[test]
fn wine_paths() {
    assert_eq!(GameLauncher::to_wine_path("/a/b c/d.exe"), "Z:/a/b c/d.exe");
    assert_eq!(GameLauncher::to_z_path("/a/b/d.exe"), "Z:\\a\\b\\d.exe");
    assert_eq!(
        GameLauncher::to_prefix_game_path(&game(), "/lib/steamapps/common/ELDEN RING/Game/eldenring.exe")
            .as_deref(),
        Some("C:\\Program Files (x86)\\Steam\\steamapps\\common\\ELDEN RING\\Game\\eldenring.exe")
    );
    assert!(GameLauncher::to_prefix_game_path(&game(), "/elsewhere/x.exe").is_none());
    assert_eq!(GameLauncher::game_windows_path(&game(), "/elsewhere/x.exe"), "Z:\\elsewhere\\x.exe");
}

#[test]
fn launch_batch_has_crlf_and_parts() {
    let (s, pfx, pr) = (steam(), WandaPrefix::created("default", "/w/default", "x", "0"), proton());
    let l = GameLauncher::new(&s, &pfx, &pr);
    let args = vec!["-windowed".to_string(), "-nolog".to_string()];
    let (path, text) = l.create_launch_batch(
        "/w/default/pfx/drive_c/users/steamuser/AppData/Local/WeMod/WeMod.exe",
        &game(),
        "/lib/steamapps/common/ELDEN RING/Game/eldenring.exe",
        &args,
        5,
    );
    assert_eq!(path, "/w/default/wanda_launch.bat");
    assert!(text.starts_with("@echo off\r\n@title WANDA Launcher\r\n"));
    assert!(text.contains("SET wemodpath=Z:\\w\\default\\pfx\\drive_c\\users\\steamuser\\AppData\\Local\\WeMod\\WeMod.exe\r\n"));
    assert!(text.contains("echo Waiting 5 seconds for WeMod to initialize...\r\nping localhost -n 6 > NUL 2>&1"));
    assert!(text.contains("start /wait \"\" \"C:\\Program Files (x86)\\Steam\\steamapps\\common\\ELDEN RING\\Game\\eldenring.exe\" -windowed -nolog\r\n"));
    assert!(!text.replace("\r\n", "").contains('\n'));
    let raw = launch_batch_text("W", 0, "G", "");
    assert!(raw.contains("ping localhost -n 1 > NUL"));
    let (spath, stext) = l.create_standalone_batch("/w/WeMod.exe");
    assert_eq!(spath, "/w/default/wanda_standalone.bat");
    assert_eq!(stext, standalone_batch_text("Z:\\w\\WeMod.exe").replace('\n', "\r\n"));
    assert!(stext.ends_with("goto wait\r\n"));
}

#[test]
fn steam_files_in_prefix() {
    let (s, pfx, pr) = (steam(), WandaPrefix::created("default", "/w/default", "x", "0"), proton());
    let l = GameLauncher::new(&s, &pfx, &pr);
    let layout = l.steam_library_layout(&game());
    assert_eq!(layout.steamapps_dir, "/w/default/pfx/drive_c/Program Files (x86)/Steam/steamapps");
    assert_eq!(layout.common_target, "/lib/steamapps/common");
    assert_eq!(layout.manifest_link, format!("{}/appmanifest_1245620.acf", layout.steamapps_dir));
    assert_eq!(layout.manifest_target, "/lib/steamapps/appmanifest_1245620.acf");
    assert_eq!(layout.vdf_path, format!("{}/libraryfolders.vdf", layout.steamapps_dir));
    let vdf = library_folders_vdf(1245620);
    assert!(vdf.starts_with("\"libraryfolders\"\n{\n\t\"0\"\n"));
    assert!(vdf.contains("\"path\"\t\t\"C:\\\\Program Files (x86)\\\\Steam\""));
    assert!(vdf.contains("\"1245620\"\t\t\"0\""));
    let parsed = wanda_core::steam::vdf::parse_vdf(&vdf).unwrap();
    let apps = parsed.get("libraryfolders").unwrap().get("0").unwrap().get("apps").unwrap();
    assert_eq!(apps.get_str("1245620"), Some("0"));
}

#[test]
fn registry_additions_only_once() {
    let mut g = game();
    g.name = "Back\\slash \"Quoted\"".to_string();
    assert!(GameLauncher::steam_registry_addition(&g, &None, 5).is_none());
    let text = GameLauncher::steam_registry_addition(&g, &Some("WINE REGISTRY".to_string()), 5).unwrap();
    assert!(text.starts_with("\n\n[Software\\\\Valve\\\\Steam] 5\n"));
    assert!(text.contains("[Software\\\\Valve\\\\Steam\\\\Apps\\\\1245620] 5\n"));
    assert!(text.contains("\"Name\"=\"Back\\\\slash Quoted\"\n"));
    let with = format!("x\n{}", text);
    assert!(GameLauncher::steam_registry_addition(&g, &Some(with), 6).is_none());
    let o = GameLauncher::protocol_override_addition(&Some(String::new()), 9).unwrap();
    assert_eq!(o, protocol_override_text(9));
    assert!(o.contains("[Software\\\\Classes\\\\steam\\\\shell\\\\open\\\\command] 9\n"));
    assert!(o.contains("@=\"\\\"C:\\\\wanda\\\\steam_proxy.bat\\\" \\\"%1\\\"\"\n"));
    assert!(GameLauncher::protocol_override_addition(&Some(o.clone()), 10).is_none());
}

#[test]
fn proxy_batch_and_commands() {
    let (s, pfx, pr) = (steam(), WandaPrefix::created("default", "/w/default", "x", "0"), proton());
    let l = GameLauncher::new(&s, &pfx, &pr);
    let (p, t) = l.steam_proxy_batch(&game(), "/lib/steamapps/common/ELDEN RING/eldenring.exe");
    assert_eq!(p, "/w/default/pfx/drive_c/wanda/steam_proxy.bat");
    assert!(t.contains("REM Game: ELDEN RING (AppID: 1245620)\n"));
    assert!(t.ends_with("start \"\" \"C:\\Program Files (x86)\\Steam\\steamapps\\common\\ELDEN RING\\eldenring.exe\"\n"));
    assert_eq!(
        l.launch_command("Z:/w/default/wanda_launch.bat"),
        "cd \"/s/compatibilitytools.d/GE-Proton9-5\" && \"/s/compatibilitytools.d/GE-Proton9-5/proton\" waitforexitandrun \"Z:/w/default/wanda_launch.bat\""
    );
    assert_eq!(
        l.direct_launch_command("/g/x.exe", &vec![]),
        "cd \"/s/compatibilitytools.d/GE-Proton9-5\" && \"/s/compatibilitytools.d/GE-Proton9-5/proton\" waitforexitandrun \"Z:/g/x.exe\" "
    );
    assert_eq!(join_strings(&vec!["a".to_string(), "b".to_string()], " "), "a b");
    assert_eq!(join_strings(&vec![], " "), "");
}

#[test]
fn tee_quotes_the_log_path() {
    assert_eq!(tee_to_log("echo hi", "/l/wanda.log"), "{ echo hi ; } 2>&1 | tee -a '/l/wanda.log'");
    assert_eq!(tee_to_log("x", "/it's/log"), "{ x ; } 2>&1 | tee -a '/it'\\''s/log'");
    assert!(wanda_core::launcher::log_file_path().ends_with("wanda/wanda.log"));
}

#[test]
fn executable_search() {
    let (s, pfx, pr) = (steam(), WandaPrefix::created("default", "/w/default", "x", "0"), proton());
    let l = GameLauncher::new(&s, &pfx, &pr);
    let g = game();
    let cands = GameLauncher::exe_candidates(&g);
    assert_eq!(cands.len(), 25);
    assert_eq!(cands[0], "/lib/steamapps/common/ELDEN RING/ELDEN RING.exe");
    assert_eq!(cands[1], "/lib/steamapps/common/ELDEN RING/Game/ELDEN RING.exe");
    assert_eq!(cands[6], "/lib/steamapps/common/ELDEN RING/Game/eldenring.exe");
    assert_eq!(cands[24], "/lib/steamapps/common/ELDEN RING/bin/launcher.exe");
    assert!(matches!(l.find_game_executable(&g, false, &vec![], &vec![]), Err(WandaError::GameNotFound { app_id: 1245620 })));
    let mut exists = vec![false; 25];
    exists[6] = true;
    assert_eq!(l.find_game_executable(&g, true, &exists, &vec![]).unwrap(), cands[6]);
    let walked = vec![
        "/lib/steamapps/common/ELDEN RING".to_string(),
        "/lib/steamapps/common/ELDEN RING/EasyAntiCheat/EasyAntiCheat_EOS_Setup.exe".to_string(),
        "/lib/steamapps/common/ELDEN RING/Game/tool.exe".to_string(),
        "/lib/steamapps/common/ELDEN RING/Game/EldenRing_Main.EXE".to_string(),
        "/lib/steamapps/common/ELDEN RING/Game/eldenring_main.exe".to_string(),
    ];
    assert_eq!(
        l.find_game_executable(&g, true, &vec![], &walked).unwrap(),
        "/lib/steamapps/common/ELDEN RING/Game/eldenring_main.exe"
    );
    let walked2 = vec![walked[1].clone(), walked[2].clone()];
    assert_eq!(l.find_game_executable(&g, true, &vec![], &walked2).unwrap(), walked[2]);
    match l.find_game_executable(&g, true, &vec![], &vec![walked[1].clone()]) {
        Err(WandaError::LaunchFailed { reason }) => assert_eq!(reason, "Could not find executable for ELDEN RING"),
        _ => panic!("expected failure"),
    }
}

#[test]
fn extension_matches_std() {
    for n in ["a.exe", ".exe", "a.b.exe", "noext", "a.", ".hidden.exe", "x.EXE"] {
        let ours = extension(n);
        let std_ext = std::path::Path::new(n)
            .extension()
            .map(|e| e.to_string_lossy().to_string());
        assert_eq!(ours, std_ext, "name {}", n);
    }
    assert!(is_excluded("unins000.exe"));
    assert!(is_excluded("ue4prereqsetup_x64.exe"));
    assert!(!is_excluded("eldenring.exe"));
}

#[test]
fn launch_plan_picks_batch_and_wemod() {
    let (s, pfx, pr) = (steam(), WandaPrefix::created("default", "/w/default", "x", "0"), proton());
    let l = GameLauncher::new(&s, &pfx, &pr);
    let mut c = LaunchConfig::default();
    c.wemod_delay = 7;
    let exe = "/lib/steamapps/common/ELDEN RING/Game/eldenring.exe";
    let (path, text) = l.launch_batch(&c, "/w/WeMod.exe", &game(), exe);
    assert_eq!(path, "/w/default/wanda_launch.bat");
    assert!(text.contains("echo Waiting 7 seconds for WeMod to initialize..."));
    c.standalone = true;
    let (spath, stext) = l.launch_batch(&c, "/w/WeMod.exe", &game(), exe);
    assert_eq!(spath, "/w/default/wanda_standalone.bat");
    assert_eq!(stext, standalone_batch_text("Z:\\w\\WeMod.exe").replace('\n', "\r\n"));
    assert!(matches!(
        GameLauncher::launch_wemod_exe("/w/WeMod.exe", false, &Some("/w/app-1/WeMod.exe".to_string())),
        Err(WandaError::WemodNotInstalled)
    ));
    assert_eq!(
        GameLauncher::launch_wemod_exe("/w/WeMod.exe", true, &Some("/w/app-1/WeMod.exe".to_string())).unwrap(),
        "/w/app-1/WeMod.exe"
    );
    assert_eq!(GameLauncher::launch_wemod_exe("/w/WeMod.exe", true, &None).unwrap(), "/w/WeMod.exe");
}

#[test]
fn common_relative_path_on_c_drive() {
    assert_eq!(
        GameLauncher::common_c_path("ELDEN RING/Game/eldenring.exe"),
        "C:\\Program Files (x86)\\Steam\\steamapps\\common\\ELDEN RING\\Game\\eldenring.exe"
    );
}

#[test]
fn launch_plan_follows_wemod_and_stub() {
    let (s, pfx, pr) = (steam(), WandaPrefix::created("default", "/w/default", "x", "0"), proton());
    let l = GameLauncher::new(&s, &pfx, &pr);
    let exe = "/lib/steamapps/common/ELDEN RING/Game/eldenring.exe";
    let mut c = LaunchConfig::default();
    c.extra_args = vec!["-x".to_string()];
    let with = l.launch_plan(&c, &game(), exe, "/w/WeMod.exe", true, &None).unwrap();
    let (w, bp, _) = with.wemod.clone().unwrap();
    assert_eq!(w, "/w/WeMod.exe");
    assert_eq!(bp, "/w/default/wanda_launch.bat");
    assert_eq!(with.command, l.launch_command("Z:/w/default/wanda_launch.bat"));
    assert!(matches!(
        l.launch_plan(&c, &game(), exe, "/w/WeMod.exe", false, &None),
        Err(WandaError::WemodNotInstalled)
    ));
    c.with_wemod = false;
    let direct = l.launch_plan(&c, &game(), exe, "", false, &None).unwrap();
    assert!(direct.wemod.is_none());
    assert_eq!(direct.command, l.direct_launch_command(exe, &c.extra_args));
}
