use wanda_core::cleanup::{kill_args, pkill_patterns, wineprefix_to_kill};
use wanda_core::error::WandaError;
use wanda_core::text::{decimal, is_whitespace, parse_u32, parse_u64, replace_char, str_contains, str_lt};

#[test]
fn whitespace_matches_std() {
    for u in 0u32..0x3100 {
        if let Some(c) = char::from_u32(u) {
            assert_eq!(is_whitespace(c), c.is_whitespace(), "char {:#x}", u);
        }
    }
}

#[test]
fn number_parsing_matches_std() {
    for s in ["0", "42", "+7", "-1", "", "+", "4294967295", "4294967296", "00012", "1a", " 1"] {
        assert_eq!(parse_u32(s), s.parse::<u32>().ok(), "{:?}", s);
        assert_eq!(parse_u64(s), s.parse::<u64>().ok(), "{:?}", s);
    }
    assert_eq!(parse_u64("18446744073709551615"), Some(u64::MAX));
    assert_eq!(parse_u64("18446744073709551616"), None);
    assert_eq!(decimal(0), "0");
    assert_eq!(decimal(1234567890123), "1234567890123");
}

#[test]
fn string_helpers() {
    assert_eq!(replace_char("a/b/c", '/', "\\"), "a\\b\\c");
    assert_eq!(replace_char("x y", ' ', ""), "xy");
    assert!(str_contains("hello", "ell"));
    assert!(str_contains("hello", ""));
    assert!(!str_contains("he", "hello"));
    for (a, b) in [("app-9", "app-11"), ("a", "ab"), ("ab", "a"), ("", ""), ("é", "z")] {
        assert_eq!(str_lt(a, b), a < b, "{} {}", a, b);
    }
}

#[test]
fn cleanup_picks_wanda_and_steam_prefixes() {
    let env = |v: &[&str]| v.iter().map(|s| s.to_string()).collect::<Vec<String>>();
    assert_eq!(
        wineprefix_to_kill(&env(&["HOME=/h", "WINEPREFIX=/lib/steamapps/compatdata/1/pfx"]), "/d/prefix").as_deref(),
        Some("/lib/steamapps/compatdata/1/pfx")
    );
    assert_eq!(
        wineprefix_to_kill(&env(&["WINEPREFIX=/d/prefix/default/pfx"]), "/d/prefix").as_deref(),
        Some("/d/prefix/default/pfx")
    );
    assert!(wineprefix_to_kill(&env(&["WINEPREFIX=/home/u/.wine"]), "/d/prefix").is_none());
    assert!(wineprefix_to_kill(&env(&["WINEPREFIX=/home/u/.wine", "WINEPREFIX=/lib/steamapps/compatdata/1"]), "").is_none());
    assert!(wineprefix_to_kill(&env(&["WINEPREFIX=/x"]), "").is_none());
    assert!(wineprefix_to_kill(&env(&["PATH=/bin"]), "/d").is_none());
    assert_eq!(kill_args(&vec![12, 7]), vec!["-9".to_string(), "12".to_string(), "7".to_string()]);
}

#[test]
fn error_messages() {
    assert_eq!(WandaError::SteamNotFound.message(), "Steam installation not found");
    assert_eq!(WandaError::GameNotFound { app_id: 42 }.message(), "Game with app ID 42 not found");
    assert_eq!(WandaError::WemodNotInstalled.message(), "WeMod not installed");
    assert_eq!(
        WandaError::PrefixNotFound { path: "/p".to_string() }.message(),
        "Prefix at /p not found"
    );
}

#[test]
fn cleanup_kills_wine_programs_by_name() {
    let p = pkill_patterns();
    assert_eq!(p.len(), 15);
    assert_eq!(p[0], "WeMod");
    assert_eq!(p[2], "wineserver");
    assert_eq!(p[9], "explorer.exe");
    assert_eq!(p[14], "steam.exe");
}
