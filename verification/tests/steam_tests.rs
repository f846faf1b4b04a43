use wanda_core::steam::library::SteamApp;
use wanda_core::steam::proton::{
    sort_versions, ProtonCompatibility, ProtonManager, ProtonVersion,
};
use wanda_core::steam::vdf::{parse_vdf, VdfValue};
use wanda_core::config::WandaConfig;

fn app(size: u64) -> SteamApp {
    SteamApp {
        app_id: 1,
        name: "Test".to_string(),
        install_dir: "test".to_string(),
        install_path: String::new(),
        library_path: String::new(),
        size_on_disk: size,
        compat_data_path: None,
    }
}

#[test]
fn test_size_human() {
    let app = SteamApp {
        app_id: 1,
        name: "Test".to_string(),
        install_dir: "test".to_string(),
        install_path: String::new(),
        library_path: String::new(),
        size_on_disk: 50 * 1024 * 1024 * 1024,
        compat_data_path: None,
    };
    assert_eq!(app.size_human(), "50.0 GB");
}

fn reference_size(s: u64) -> String {
    const KB: u64 = 1024;
    const MB: u64 = KB * 1024;
    const GB: u64 = MB * 1024;
    if s >= GB {
        format!("{:.1} GB", s as f64 / GB as f64)
    } else if s >= MB {
        format!("{:.1} MB", s as f64 / MB as f64)
    } else if s >= KB {
        format!("{:.1} KB", s as f64 / KB as f64)
    } else {
        format!("{} B", s)
    }
}

#[test]
fn size_human_matches_float_formatting() {
    let samples: [u64; 16] = [
        0, 1, 1023, 1024, 1075, 1126, 1024 * 1024 - 1, 1024 * 1024, 5_000_000,
        1024 * 1024 * 1024 - 1, 1024 * 1024 * 1024, 50_000_000_000, 1_610_612_736,
        123_456_789_012, u64::MAX / 3, u64::MAX,
    ];
    for s in samples {
        assert_eq!(app(s).size_human(), reference_size(s), "size {}", s);
    }
    let mut x: u64 = 7;
    for _ in 0..2000 {
        x = x.wrapping_mul(6364136223846793005).wrapping_add(1442695040888963407);
        let s = x >> (x % 64);
        assert_eq!(app(s).size_human(), reference_size(s), "size {}", s);
    }
}

#[test]
fn size_human_rounds_half_to_even_tenths() {
    assert_eq!(app(1024 + 51).size_human(), reference_size(1024 + 51));
    assert_eq!(app(1536).size_human(), "1.5 KB");
    assert_eq!(app(999).size_human(), "999 B");
}

#[test]
fn test_version_parsing() {
    let (v, is_ge, _) = ProtonManager::parse_version_from_name("GE-Proton9-5");
    assert_eq!(v, (9, 5, 0));
    assert!(is_ge);

    let (v, is_ge, _) = ProtonManager::parse_version_from_name("Proton 8.0-5");
    assert_eq!(v, (8, 0, 5));
    assert!(!is_ge);
}

#[test]
fn test_compatibility() {
    let compat =
        ProtonManager::determine_compatibility("Proton - Experimental", (0, 0, 0), false, true);
    assert_eq!(compat, ProtonCompatibility::Recommended);

    let compat = ProtonManager::determine_compatibility("GE-Proton9-5", (9, 5, 0), true, false);
    assert_eq!(compat, ProtonCompatibility::Supported);

    let compat =
        ProtonManager::determine_compatibility("GE-Proton10-28", (10, 28, 0), true, false);
    assert_eq!(compat, ProtonCompatibility::Experimental);

    let compat = ProtonManager::determine_compatibility("Proton 6.0", (6, 0, 0), false, false);
    assert_eq!(compat, ProtonCompatibility::Unsupported);
}

#[test]
fn compatibility_edge_cases() {
    assert_eq!(
        ProtonManager::determine_compatibility("GE-Proton7-55", (7, 55, 0), true, false),
        ProtonCompatibility::Supported
    );
    assert_eq!(
        ProtonManager::determine_compatibility("Wine-GE-8", (7, 0, 0), false, false),
        ProtonCompatibility::Unsupported
    );
    assert_eq!(
        ProtonManager::determine_compatibility("Proton 7.0", (7, 0, 0), false, false),
        ProtonCompatibility::Experimental
    );
    assert_eq!(
        ProtonManager::determine_compatibility("Proton 9.0", (9, 0, 0), false, false),
        ProtonCompatibility::Supported
    );
}

#[test]
fn version_numbers_from_names() {
    assert_eq!(ProtonManager::extract_version_numbers("Proton 8.0-5"), (8, 0, 5));
    assert_eq!(ProtonManager::extract_version_numbers("GE-Proton10-28"), (10, 28, 0));
    assert_eq!(ProtonManager::extract_version_numbers("Proton 9.0"), (9, 0, 0));
    assert_eq!(ProtonManager::extract_version_numbers("nothing"), (0, 0, 0));
    assert_eq!(ProtonManager::extract_version_numbers("1.2.3.4"), (1, 2, 3));
    assert_eq!(ProtonManager::extract_version_numbers("v99999999999-2"), (2, 0, 0));
    let (v, _, exp) = ProtonManager::parse_version_from_name("Proton - Experimental");
    assert_eq!(v, (999, 0, 0));
    assert!(exp);
}

fn pv(name: &str, version: (u32, u32, u32), is_ge: bool, c: ProtonCompatibility) -> ProtonVersion {
    ProtonVersion {
        name: name.to_string(),
        path: format!("/steam/compatibilitytools.d/{}", name),
        version,
        is_ge,
        is_experimental: false,
        compatibility: c,
    }
}

#[test]
fn sorting_puts_ge_first_then_higher_versions() {
    let vs = vec![
        pv("Proton 8.0", (8, 0, 0), false, ProtonCompatibility::Supported),
        pv("GE-Proton9-5", (9, 5, 0), true, ProtonCompatibility::Supported),
        pv("Proton 9.0", (9, 0, 0), false, ProtonCompatibility::Supported),
        pv("GE-Proton10-28", (10, 28, 0), true, ProtonCompatibility::Experimental),
        pv("Proton 9.0 copy", (9, 0, 0), false, ProtonCompatibility::Supported),
    ];
    let sorted = sort_versions(vs);
    let names: Vec<&str> = sorted.iter().map(|v| v.name.as_str()).collect();
    assert_eq!(
        names,
        vec!["GE-Proton10-28", "GE-Proton9-5", "Proton 9.0", "Proton 9.0 copy", "Proton 8.0"]
    );
}

#[test]
fn discover_detects_and_ranks_builds() {
    let dirs = vec![
        ("/s/steamapps/common/Proton 8.0".to_string(), true),
        ("/s/compatibilitytools.d/GE-Proton9-5".to_string(), true),
        ("/s/compatibilitytools.d/not-a-build".to_string(), false),
    ];
    let m = ProtonManager::discover(&dirs);
    assert_eq!(m.versions.len(), 2);
    assert_eq!(m.versions[0].name, "GE-Proton9-5");
    assert_eq!(m.versions[0].compatibility, ProtonCompatibility::Supported);
    assert_eq!(m.versions[1].name, "Proton 8.0");
    assert_eq!(m.versions[1].proton_exe(), "/s/steamapps/common/Proton 8.0/proton");
    assert_eq!(m.versions[1].wine_exe(), "/s/steamapps/common/Proton 8.0/files/bin/wine64");
}

#[test]
fn recommended_and_preferred_builds() {
    let m = ProtonManager {
        versions: vec![
            pv("GE-Proton10-28", (10, 28, 0), true, ProtonCompatibility::Experimental),
            pv("Proton 6.0", (6, 0, 0), false, ProtonCompatibility::Unsupported),
            pv("GE-Proton9-5", (9, 5, 0), true, ProtonCompatibility::Supported),
        ],
    };
    assert_eq!(m.get_recommended().unwrap().name, "GE-Proton9-5");
    assert_eq!(m.find_by_name("proton 6").unwrap().name, "Proton 6.0");
    assert!(m.find_by_name("nope").is_none());
    let mut c = WandaConfig::default();
    assert_eq!(m.get_preferred(&c).unwrap().name, "GE-Proton9-5");
    c.proton.preferred_version = Some("ge-proton10".to_string());
    assert_eq!(m.get_preferred(&c).unwrap().name, "GE-Proton10-28");
    c.proton.preferred_version = Some("missing".to_string());
    assert_eq!(m.get_preferred(&c).unwrap().name, "GE-Proton9-5");
    let empty = ProtonManager { versions: vec![] };
    assert!(empty.get_recommended().is_none());
    assert_eq!(empty.get_preferred(&c).err().unwrap().message(), "No compatible Proton version found");
}

#[test]
fn test_parse_simple_vdf() {
    let vdf = r#"
        "libraryfolders"
        {
            "0"
            {
                "path"      "/home/user/.local/share/Steam"
                "label"     ""
            }
        }
        "#;

    let result = parse_vdf(vdf).unwrap();
    let folders = result.get("libraryfolders").unwrap();
    let folder0 = folders.get("0").unwrap();
    assert_eq!(folder0.get_str("path"), Some("/home/user/.local/share/Steam"));
}

#[test]
fn test_parse_app_manifest() {
    let acf = r#"
        "AppState"
        {
            "appid"     "292030"
            "name"      "The Witcher 3: Wild Hunt"
            "installdir"    "The Witcher 3 Wild Hunt"
            "SizeOnDisk"    "50000000000"
        }
        "#;

    let result = parse_vdf(acf).unwrap();
    let app_state = result.get("AppState").unwrap();
    assert_eq!(app_state.get_str("appid"), Some("292030"));
    assert_eq!(app_state.get_str("name"), Some("The Witcher 3: Wild Hunt"));
}

#[test]
fn vdf_later_duplicate_key_replaces_value() {
    let r = parse_vdf("\"a\" { \"k\" \"1\" \"k\" \"2\" }").unwrap();
    let a = r.get("a").unwrap();
    assert_eq!(a.get_str("k"), Some("2"));
    match a {
        VdfValue::Object(es) => assert_eq!(es.len(), 1),
        _ => panic!("expected a block"),
    }
}

#[test]
fn vdf_escapes_and_errors() {
    let r = parse_vdf("\"a\" \"x\\\"y\\\\z\\n\"").unwrap();
    assert_eq!(r.get_str("a"), Some("x\"y\\z\n"));
    assert!(parse_vdf("\"a\" { \"k\" \"v\"").is_err());
    assert!(parse_vdf("\"a\" \"unterminated").is_err());
}

#[test]
fn uses_proton_and_prefix_path() {
    let mut a = app(10);
    assert!(!a.uses_proton());
    assert!(a.get_prefix_path().is_none());
    a.compat_data_path = Some("/s/steamapps/compatdata/1".to_string());
    assert!(a.uses_proton());
    assert_eq!(a.get_prefix_path().as_deref(), Some("/s/steamapps/compatdata/1/pfx"));
}
