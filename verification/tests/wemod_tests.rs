use wanda_core::config::WandaConfig;
use wanda_core::error::WandaError;
use wanda_core::prefix::builder::{HostEnv, ProtonFiles};
use wanda_core::prefix::manager::{DirListing, WandaPrefix};
use wanda_core::steam::proton::{ProtonCompatibility, ProtonVersion};
use wanda_core::text::{after_last, strip_prefix_str, strip_suffix_str, trim};
use wanda_core::wemod::downloader::{
    get_latest, get_latest_upstream, installer_filename, upstream_url, version_from_url,
    WemodDownloader, WemodRelease,
};
use wanda_core::wemod::installer::WemodInstaller;

#[test]
fn test_version_extraction() {
    let url = "https://storage.wemod.com/app/releases/stable/WeMod-8.12.5.exe";
    let version = version_from_url(url);

    assert_eq!(version.as_deref(), Some("8.12.5"));
}

#[test]
fn version_extraction_edge_cases() {
    assert!(version_from_url("https://x/y/WeMod.exe").is_none());
    assert!(version_from_url("https://x/y/WeMod-1.0.msi").is_none());
    assert_eq!(version_from_url("WeMod-2.0.exe").as_deref(), Some("2.0"));
    assert_eq!(version_from_url("https://x/WeMod-.exe").as_deref(), Some(""));
    assert_eq!(after_last("a/b/c", '/'), "c");
    assert_eq!(after_last("abc", '/'), "abc");
    assert_eq!(after_last("abc/", '/'), "");
    assert_eq!(strip_prefix_str("WeMod-1", "WeMod-").as_deref(), Some("1"));
    assert!(strip_suffix_str("a.ex", ".exe").is_none());
}

#[test]
fn pinned_release() {
    let r = get_latest(&Some("12345".to_string()));
    assert_eq!(r.url, "https://storage-cdn.wemod.com/app/releases/stable/WeMod-11.5.0.exe");
    assert_eq!(r.version.as_deref(), Some("11.5.0"));
    assert_eq!(r.size, Some(12345));
    assert_eq!(get_latest(&Some("big".to_string())).size, None);
    assert_eq!(get_latest(&None).size, None);
    let u = get_latest_upstream("https://storage.wemod.com/app/releases/stable/WeMod-12.0.3.exe", &None);
    assert_eq!(u.version.as_deref(), Some("12.0.3"));
    assert_eq!(upstream_url(), "https://api.wemod.com/client/download");
}

#[test]
fn installer_cache() {
    let mut d = WemodDownloader::new(&WandaConfig::default());
    assert!(d.cache_dir.ends_with("wanda/downloads"));
    d.cache_dir = "/cache".to_string();
    let r = WemodRelease { url: "u".to_string(), version: Some("11.5.0".to_string()), size: Some(10) };
    assert_eq!(installer_filename(&r), "WeMod-11.5.0.exe");
    assert_eq!(d.destination(&r), "/cache/WeMod-11.5.0.exe");
    assert_eq!(d.get_cached(&r).as_deref(), Some("/cache/WeMod-11.5.0.exe"));
    assert!(WemodDownloader::cache_usable(&r, true, Some(10)));
    assert!(!WemodDownloader::cache_usable(&r, true, Some(11)));
    assert!(!WemodDownloader::cache_usable(&r, false, Some(10)));
    let unknown = WemodRelease { url: "u".to_string(), version: None, size: None };
    assert_eq!(installer_filename(&unknown), "WeMod-latest.exe");
    assert!(d.get_cached(&unknown).is_none());
    assert!(!WemodDownloader::cache_usable(&unknown, true, Some(0)));
}

fn proton() -> ProtonVersion {
    ProtonVersion {
        name: "GE-Proton9-5".to_string(),
        path: "/p".to_string(),
        version: (9, 5, 0),
        is_ge: true,
        is_experimental: false,
        compatibility: ProtonCompatibility::Supported,
    }
}

#[test]
fn installer_environment_and_checks() {
    let pfx = WandaPrefix::created("default", "/w/default", "GE-Proton9-5", "0");
    let pr = proton();
    let i = WemodInstaller::new(&pfx, &pr);
    let files = ProtonFiles { wine64: true, wine: false, wineserver: true, lib64: false, lib: true };
    let host = HostEnv { display: None, wayland_display: None, xdg_runtime_dir: None, xauthority: None, ld_library_path: None };
    let env = i.build_env(&files, &host);
    assert_eq!(env.get("WINEPREFIX").unwrap(), "/w/default/pfx");
    assert_eq!(env.get("WINEDEBUG").unwrap(), "warn+all");
    assert_eq!(env.get("LD_LIBRARY_PATH").unwrap(), "/p/files/lib");
    assert_eq!(i.wine_exe(&files), "/p/files/bin/wine64");
    assert_eq!(i.wineserver_exe(&files), "/p/files/bin/wineserver");
    let none = ProtonFiles { wine64: false, wine: false, wineserver: false, lib64: false, lib: false };
    assert_eq!(i.wine_exe(&none), "wine");
    assert_eq!(i.wineserver_exe(&none), "wineserver");
    match WemodInstaller::check_installer("/x/WeMod.exe", false) {
        Err(WandaError::WemodInstallFailed { reason }) => assert_eq!(reason, "Installer not found at /x/WeMod.exe"),
        _ => panic!("expected failure"),
    }
    assert!(WemodInstaller::check_installer("/x", true).is_ok());
    assert!(WemodInstaller::install_result(true).is_ok());
    assert!(matches!(WemodInstaller::install_result(false), Err(WandaError::WemodInstallFailed { .. })));
    assert!(matches!(WemodInstaller::check_runnable(false), Err(WandaError::WemodNotInstalled)));
    let missing = DirListing { exists: false, has_wemod_exe: false, entries: vec![] };
    let locs = i.verify_locations(&missing, &missing);
    assert_eq!(locs[0], "/w/default/pfx/drive_c/users/steamuser/AppData/Local/WeMod/WeMod.exe");
    assert_eq!(locs[3], "/w/default/pfx/drive_c/Program Files (x86)/WeMod/WeMod.exe");
    assert!(!i.verify(&vec![false, false, false, false]));
    assert!(i.verify(&vec![false, false, true]));
    assert!(!i.verify(&vec![false, false, false, false, true]));
    assert_eq!(i.version_file(&missing, &missing), "/w/default/pfx/drive_c/users/steamuser/AppData/Local/WeMod/current");
}

#[test]
fn installed_version() {
    let names = vec!["packages".to_string(), "app-11.5.0".to_string()];
    assert_eq!(WemodInstaller::get_version(&Some(" app-11.6.0\n".to_string()), &names).as_deref(), Some("app-11.6.0"));
    assert_eq!(WemodInstaller::get_version(&Some("  \n".to_string()), &names).as_deref(), Some("11.5.0"));
    assert_eq!(WemodInstaller::get_version(&None, &names).as_deref(), Some("11.5.0"));
    assert!(WemodInstaller::get_version(&None, &vec![]).is_none());
    for t in ["", "  a b  ", "\u{3000}x\t", "\n\n"] {
        assert_eq!(trim(t), t.trim());
    }
}
