use wanda_core::config::WandaConfig;
use wanda_core::gui::dto::{
    games_info, ConfigDto, DoctorFindings, DoctorReport, GameInfo, InitStatus, PrefixInfo,
    ProtonInfo, WemodStatus,
};
use wanda_core::gui::state::{AppState, Loaded};
use wanda_core::prefix::manager::{PrefixHealth, PrefixIssue, PrefixManager, WandaPrefix};
use wanda_core::steam::library::{SteamApp, SteamInstallation};
use wanda_core::steam::proton::{ProtonCompatibility, ProtonManager, ProtonVersion};
use wanda_core::wemod::downloader::WemodRelease;

fn loaded(wemod: bool) -> Loaded {
    let config = WandaConfig::default();
    let mut pm = PrefixManager::new(&config);
    let mut p = WandaPrefix::created("default", "/d", "GE", "0");
    p.wemod_installed = wemod;
    pm.register(p);
    Loaded {
        config,
        steam: SteamInstallation { root_path: "/s".to_string(), libraries: vec![], is_flatpak: false },
        proton: ProtonManager { versions: vec![] },
        prefix_manager: pm,
    }
}

#[test]
fn app_state_loading() {
    let mut st = AppState::new();
    assert!(st.config.is_none() && !st.initialized);
    assert_eq!(st.load(Err("boom".to_string())), Err("boom".to_string()));
    assert!(st.config.is_none());
    assert_eq!(st.load(Ok(loaded(true))), Ok(()));
    assert!(st.initialized);
    assert!(st.steam.is_some());
    let mut calls = 0;
    assert_eq!(st.ensure_loaded(|| { calls += 1; Ok(loaded(false)) }), Ok(()));
    assert_eq!(calls, 0);
    assert!(st.initialized);
    let mut fresh = AppState::default();
    assert_eq!(fresh.ensure_loaded(|| Ok(loaded(false))), Ok(()));
    assert!(fresh.config.is_some());
    assert!(!fresh.initialized);
    let status = InitStatus::from_state(&fresh);
    assert!(status.steam_found && !status.proton_found && status.prefix_exists && !status.wemod_installed && !status.initialized);
    assert!(!InitStatus::from_state(&AppState::new()).steam_found);
}

fn app(id: u32, proton: bool) -> SteamApp {
    SteamApp {
        app_id: id,
        name: format!("Game {}", id),
        install_dir: "g".to_string(),
        install_path: format!("/lib/steamapps/common/g{}", id),
        library_path: "/lib".to_string(),
        size_on_disk: 3 * 1024 * 1024,
        compat_data_path: if proton { Some("/c".to_string()) } else { None },
    }
}

#[test]
fn game_records() {
    let (a, b, c) = (app(1, true), app(2, false), app(3, true));
    let list = games_info(&vec![&a, &b, &c]);
    assert_eq!(list.len(), 2);
    assert_eq!(list[0].app_id, 1);
    assert_eq!(list[1].app_id, 3);
    assert_eq!(list[0].size, "3.0 MB");
    let g = GameInfo::from_app(&b);
    assert!(!g.uses_proton);
    assert_eq!(g.install_path, "/lib/steamapps/common/g2");
}

#[test]
fn prefix_and_proton_records() {
    let p = WandaPrefix::created("default", "/d", "GE", "0");
    let info = PrefixInfo::new(&p, &PrefixHealth::NeedsRepair(vec![PrefixIssue::MissingDotNet]));
    assert_eq!(info.health, "needs_repair");
    assert_eq!(info.issues, vec![".NET Framework 4.8 not installed".to_string()]);
    let info = PrefixInfo::new(&p, &PrefixHealth::Corrupted("r".to_string()));
    assert_eq!((info.health.as_str(), info.issues.len()), ("corrupted", 1));
    let info = PrefixInfo::new(&p, &PrefixHealth::Healthy);
    assert_eq!(info.health, "healthy");
    assert!(info.issues.is_empty());
    assert_eq!(PrefixInfo::new(&p, &PrefixHealth::NotCreated).health, "not_created");
    let v = ProtonVersion {
        name: "Proton 9.0".to_string(),
        path: "/p".to_string(),
        version: (9, 0, 0),
        is_ge: false,
        is_experimental: false,
        compatibility: ProtonCompatibility::Experimental,
    };
    let i = ProtonInfo::new(&v, Some(&v));
    assert_eq!(i.compatibility, "experimental");
    assert!(i.is_recommended);
    assert!(!ProtonInfo::new(&v, None).is_recommended);
}

#[test]
fn wemod_status_update_check() {
    let mut p = WandaPrefix::created("default", "/d", "GE", "0");
    p.wemod_installed = true;
    p.wemod_version = Some("11.5.0".to_string());
    let same = WemodRelease { url: "u".to_string(), version: Some("11.5.0".to_string()), size: None };
    let newer = WemodRelease { url: "u".to_string(), version: Some("11.6.0".to_string()), size: None };
    assert!(!WemodStatus::new(Some(&p), Some(&same)).update_available);
    let s = WemodStatus::new(Some(&p), Some(&newer));
    assert!(s.installed && s.update_available);
    assert_eq!(s.latest_version.as_deref(), Some("11.6.0"));
    let s = WemodStatus::new(None, Some(&newer));
    assert!(!s.installed && !s.update_available);
    assert!(!WemodStatus::new(Some(&p), None).update_available);
}

#[test]
fn config_record_round_trip() {
    let mut c = WandaConfig::default();
    c.steam.install_path = Some("/s".to_string());
    let dto = ConfigDto::from_config(&c);
    assert_eq!(dto.steam_path.as_deref(), Some("/s"));
    assert!(dto.auto_update_wemod);
    let change = ConfigDto { steam_path: None, scan_flatpak: true, preferred_proton: Some("GE".to_string()), auto_update_wemod: false };
    change.apply(&mut c);
    assert!(c.steam.install_path.is_none() && c.steam.scan_flatpak && !c.wemod.auto_update);
    assert_eq!(c.proton.preferred_version.as_deref(), Some("GE"));
    assert_eq!(c.version, 1);
}

#[test]
fn doctor_report() {
    let r = DoctorReport::from_findings(&DoctorFindings {
        config_error: Some("bad toml".to_string()),
        steam: None,
        proton: None,
        prefix: None,
    });
    assert_eq!(r.issues, vec!["Config error: bad toml".to_string()]);
    assert!(!r.steam_ok && !r.proton_ok && !r.prefix_ok && !r.wemod_ok);
    let r = DoctorReport::from_findings(&DoctorFindings {
        config_error: None,
        steam: Some(Ok("/s".to_string())),
        proton: Some(Ok(0)),
        prefix: Some(Some((false, false))),
    });
    assert_eq!(
        r.issues,
        vec!["No Proton versions found", "Prefix needs repair", "WeMod not installed"]
    );
    assert!(r.steam_ok && r.prefix_ok && !r.proton_ok);
    assert_eq!(r.steam_path.as_deref(), Some("/s"));
    let r = DoctorReport::from_findings(&DoctorFindings {
        config_error: None,
        steam: Some(Err("Steam installation not found".to_string())),
        proton: None,
        prefix: Some(None),
    });
    assert_eq!(r.issues, vec!["Steam not found: Steam installation not found", "WANDA not initialized"]);
    let r = DoctorReport::from_findings(&DoctorFindings {
        config_error: None,
        steam: Some(Ok("/s".to_string())),
        proton: Some(Ok(3)),
        prefix: Some(Some((true, true))),
    });
    assert!(r.issues.is_empty() && r.proton_count == 3 && r.wemod_ok);
}
