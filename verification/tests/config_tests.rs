use wanda_core::config::{parse_bool, WandaConfig};
use wanda_core::text::str_eq;

#[test]
fn test_default_config() {
    let config = WandaConfig::default();
    assert_eq!(config.version, 1);
    assert!(config.wemod.auto_update);
}

#[test]
fn default_config_has_no_overrides() {
    let config = WandaConfig::default();
    assert!(config.steam.install_path.is_none());
    assert!(config.steam.additional_libraries.is_empty());
    assert!(!config.steam.scan_flatpak);
    assert!(config.proton.preferred_version.is_none());
    assert!(config.proton.search_paths.is_empty());
    assert!(config.wemod.version.is_none());
    assert!(config.prefix.base_path.is_none());
    assert!(config.prefix.auto_repair);
}

#[test]
fn set_key_reads_back_each_setting() {
    let mut c = WandaConfig::default();
    assert!(c.set_key("steam.install_path", "/opt/steam"));
    assert_eq!(c.steam.install_path.as_deref(), Some("/opt/steam"));
    assert!(c.set_key("steam.scan_flatpak", "true"));
    assert!(c.steam.scan_flatpak);
    assert!(c.set_key("proton.preferred_version", "GE-Proton9-5"));
    assert_eq!(c.proton.preferred_version.as_deref(), Some("GE-Proton9-5"));
    assert!(c.set_key("wemod.auto_update", "false"));
    assert!(!c.wemod.auto_update);
    assert!(c.set_key("wemod.version", "11.5.0"));
    assert_eq!(c.wemod.version.as_deref(), Some("11.5.0"));
    assert!(c.set_key("prefix.base_path", "/data/prefixes"));
    assert_eq!(c.prefix.base_path.as_deref(), Some("/data/prefixes"));
    assert!(c.set_key("prefix.auto_repair", "false"));
    assert!(!c.prefix.auto_repair);
}

#[test]
fn set_key_bad_boolean_falls_back() {
    let mut c = WandaConfig::default();
    c.steam.scan_flatpak = true;
    assert!(c.set_key("steam.scan_flatpak", "yes"));
    assert!(!c.steam.scan_flatpak);
    c.wemod.auto_update = false;
    assert!(c.set_key("wemod.auto_update", "1"));
    assert!(c.wemod.auto_update);
}

#[test]
fn set_key_unknown_key_changes_nothing() {
    let mut c = WandaConfig::default();
    assert!(!c.set_key("steam.nonexistent", "x"));
    assert!(c.steam.install_path.is_none());
    assert!(c.wemod.auto_update);
}

#[test]
fn parse_bool_accepts_only_the_two_words() {
    assert_eq!(parse_bool("true"), Some(true));
    assert_eq!(parse_bool("false"), Some(false));
    assert_eq!(parse_bool("True"), None);
    assert_eq!(parse_bool(""), None);
    for s in ["true", "false", "TRUE", "0", " true"] {
        assert_eq!(parse_bool(s), s.parse::<bool>().ok());
    }
}

#[test]
fn prefix_base_path_prefers_configured() {
    let mut c = WandaConfig::default();
    assert_eq!(c.prefix_base_path_in("/home/u/.local/share/wanda"), "/home/u/.local/share/wanda/prefix");
    c.prefix.base_path = Some("/mnt/pfx".to_string());
    assert_eq!(c.prefix_base_path_in("/home/u/.local/share/wanda"), "/mnt/pfx");
    assert_eq!(c.prefix_base_path(), "/mnt/pfx");
}

#[test]
fn default_paths_end_in_wanda() {
    assert!(WandaConfig::default_path().ends_with("wanda/config.toml"));
    assert!(WandaConfig::default_data_dir().ends_with("wanda"));
    assert!(WandaConfig::default_cache_dir().ends_with("wanda"));
}

#[test]
fn str_eq_compares_characters() {
    assert!(str_eq("abc", "abc"));
    assert!(!str_eq("abc", "abd"));
}
