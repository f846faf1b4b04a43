//! WANDA's configuration and where its files live.

use vstd::prelude::*;
use crate::paths::{join, spec_join};
use crate::text::{str_eq, string_of};

verus! {

/// The whole configuration.
#[derive(Debug, Clone)]
pub struct WandaConfig {
    /// Schema version, for future migrations.
    pub version: u32,
    pub steam: SteamConfig,
    pub proton: ProtonConfig,
    pub wemod: WemodConfig,
    pub prefix: PrefixConfig,
}

/// Where to look for Steam.
#[derive(Debug, Clone)]
pub struct SteamConfig {
    /// A Steam root to use instead of searching for one.
    pub install_path: Option<String>,
    /// Further library folders to scan.
    pub additional_libraries: Vec<String>,
    /// Whether the Flatpak Steam location is searched too.
    pub scan_flatpak: bool,
}

/// Which Proton to use.
#[derive(Debug, Clone)]
pub struct ProtonConfig {
    /// Name (or part of the name) of the Proton build to prefer, e.g. `GE-Proton9-5`.
    pub preferred_version: Option<String>,
    /// Further directories holding Proton builds.
    pub search_paths: Vec<String>,
}

/// How WeMod is kept.
#[derive(Debug, Clone)]
pub struct WemodConfig {
    /// Whether WeMod is updated automatically.
    pub auto_update: bool,
    /// A WeMod version to pin.
    pub version: Option<String>,
}

/// Where prefixes live.
#[derive(Debug, Clone)]
pub struct PrefixConfig {
    /// A base directory for WANDA's prefixes instead of the default one.
    pub base_path: Option<String>,
    /// Whether damaged prefixes are repaired automatically.
    pub auto_repair: bool,
}

impl Default for SteamConfig {
    fn default() -> (r: Self)
        ensures
            r.install_path is None,
            r.additional_libraries@.len() == 0,
            !r.scan_flatpak,
    {
        SteamConfig { install_path: None, additional_libraries: Vec::new(), scan_flatpak: false }
    }
}

impl Default for ProtonConfig {
    fn default() -> (r: Self)
        ensures
            r.preferred_version is None,
            r.search_paths@.len() == 0,
    {
        ProtonConfig { preferred_version: None, search_paths: Vec::new() }
    }
}

impl Default for WemodConfig {
    fn default() -> (r: Self)
        ensures
            r.auto_update,
            r.version is None,
    {
        WemodConfig { auto_update: true, version: None }
    }
}

impl Default for PrefixConfig {
    fn default() -> (r: Self)
        ensures
            r.base_path is None,
            r.auto_repair,
    {
        PrefixConfig { base_path: None, auto_repair: true }
    }
}

impl WandaConfig {
    /// The settings used when no configuration file exists.
    pub open spec fn is_default(self) -> bool {
        &&& self.version == 1
        &&& self.steam.install_path is None
        &&& self.steam.additional_libraries@.len() == 0
        &&& !self.steam.scan_flatpak
        &&& self.proton.preferred_version is None
        &&& self.proton.search_paths@.len() == 0
        &&& self.wemod.auto_update
        &&& self.wemod.version is None
        &&& self.prefix.base_path is None
        &&& self.prefix.auto_repair
    }
}

impl Default for WandaConfig {
    fn default() -> (r: Self)
        ensures
            r.is_default(),
    {
        WandaConfig {
            version: 1,
            steam: SteamConfig::default(),
            proton: ProtonConfig::default(),
            wemod: WemodConfig::default(),
            prefix: PrefixConfig::default(),
        }
    }
}

/// `dirs::config_dir`: the user's configuration directory, if the environment names one.
/// Nothing is promised of it: it depends on the environment.
#[verifier::external_body]
pub(crate) fn user_config_dir() -> Option<String> {
    dirs::config_dir().map(|p| p.to_string_lossy().into_owned())
}

/// `dirs::data_local_dir`: the user's local data directory, if the environment names one.
/// Nothing is promised of it: it depends on the environment.
#[verifier::external_body]
pub(crate) fn user_data_local_dir() -> Option<String> {
    dirs::data_local_dir().map(|p| p.to_string_lossy().into_owned())
}

/// `dirs::cache_dir`: the user's cache directory, if the environment names one.
/// Nothing is promised of it: it depends on the environment.
#[verifier::external_body]
pub(crate) fn user_cache_dir() -> Option<String> {
    dirs::cache_dir().map(|p| p.to_string_lossy().into_owned())
}

/// `dirs::home_dir`: the user's home directory, if the environment names one.
/// Nothing is promised of it: it depends on the environment.
#[verifier::external_body]
pub(crate) fn user_home_dir() -> Option<String> {
    dirs::home_dir().map(|p| p.to_string_lossy().into_owned())
}

/// A directory the environment gave, or the current directory when it gave none.
pub open spec fn dir_or_current(d: Option<Seq<char>>) -> Seq<char> {
    match d {
        Some(p) => p,
        None => "."@,
    }
}

/// The view of an optional string.
pub open spec fn opt_view(o: Option<String>) -> Option<Seq<char>> {
    match o {
        Some(s) => Some(s@),
        None => None,
    }
}

/// `wanda` inside the given directory, or inside the current directory when there is none.
pub fn wanda_dir_in(base: Option<String>) -> (r: String)
    ensures
        r@ == spec_join(dir_or_current(opt_view(base)), "wanda"@),
{
    match base {
        Some(b) => join(b.as_str(), "wanda"),
        None => join(".", "wanda"),
    }
}

/// The file the configuration lives in, under the given configuration directory.
pub open spec fn spec_config_file(config_dir: Option<Seq<char>>) -> Seq<char> {
    spec_join(spec_join(dir_or_current(config_dir), "wanda"@), "config.toml"@)
}

impl WandaConfig {
    /// The default configuration file: `wanda/config.toml` under the user's configuration
    /// directory (or under the current directory if there is none).
    pub fn default_path() -> (r: String)
        ensures
            exists|d: Option<Seq<char>>| r@ == spec_config_file(d),
    {
        let d = user_config_dir();
        let ghost dv = opt_view(d);
        let w = wanda_dir_in(d);
        let r = join(w.as_str(), "config.toml");
        assert(r@ == spec_config_file(dv));
        r
    }

    /// The default data directory: `wanda` under the user's local data directory (or under
    /// the current directory if there is none).
    pub fn default_data_dir() -> (r: String)
        ensures
            exists|d: Option<Seq<char>>| r@ == spec_join(dir_or_current(d), "wanda"@),
    {
        let d = user_data_local_dir();
        let ghost dv = opt_view(d);
        wanda_dir_in(d)
    }

    /// The default cache directory: `wanda` under the user's cache directory (or under the
    /// current directory if there is none).
    pub fn default_cache_dir() -> (r: String)
        ensures
            exists|d: Option<Seq<char>>| r@ == spec_join(dir_or_current(d), "wanda"@),
    {
        let d = user_cache_dir();
        let ghost dv = opt_view(d);
        wanda_dir_in(d)
    }

    /// Where prefixes live, given WANDA's data directory: the configured base path, or
    /// `prefix` inside the data directory.
    pub open spec fn spec_prefix_base_path(self, data_dir: Seq<char>) -> Seq<char> {
        match self.prefix.base_path {
            Some(p) => p@,
            None => spec_join(data_dir, "prefix"@),
        }
    }

    /// Where prefixes live, given WANDA's data directory.
    pub fn prefix_base_path_in(&self, data_dir: &str) -> (r: String)
        ensures
            r@ == self.spec_prefix_base_path(data_dir@),
    {
        match &self.prefix.base_path {
            Some(p) => p.clone(),
            None => join(data_dir, "prefix"),
        }
    }

    /// Where prefixes live: the configured base path, or `prefix` inside the default data
    /// directory.
    pub fn prefix_base_path(&self) -> (r: String)
        ensures
            exists|d: Option<Seq<char>>| r@ == self.spec_prefix_base_path(
                spec_join(dir_or_current(d), "wanda"@),
            ),
    {
        match &self.prefix.base_path {
            Some(p) => {
                let r = p.clone();
                assert(r@ == self.spec_prefix_base_path(spec_join(dir_or_current(None), "wanda"@)));
                r
            },
            None => {
                let data = Self::default_data_dir();
                let r = self.prefix_base_path_in(data.as_str());
                proof {
                    let d = choose|d: Option<Seq<char>>| data@ == spec_join(dir_or_current(d), "wanda"@);
                    assert(r@ == self.spec_prefix_base_path(spec_join(dir_or_current(d), "wanda"@)));
                }
                r
            },
        }
    }
}

/// What `str::parse::<bool>` gives: `true` and `false` are the only accepted words.
pub open spec fn spec_parse_bool(s: Seq<char>) -> Option<bool> {
    if s == "true"@ {
        Some(true)
    } else if s == "false"@ {
        Some(false)
    } else {
        None
    }
}

/// `str::parse::<bool>`, written out.
pub fn parse_bool(s: &str) -> (r: Option<bool>)
    ensures
        r == spec_parse_bool(s@),
{
    if str_eq(s, "true") {
        Some(true)
    } else if str_eq(s, "false") {
        Some(false)
    } else {
        None
    }
}

/// The setting keys that `set_key` accepts, in the order they are listed to the user.
pub open spec fn settable_keys() -> Seq<Seq<char>> {
    seq![
        "steam.install_path"@,
        "steam.scan_flatpak"@,
        "proton.preferred_version"@,
        "wemod.auto_update"@,
        "wemod.version"@,
        "prefix.base_path"@,
        "prefix.auto_repair"@,
    ]
}

/// A boolean setting's new value: the parsed word, or `fallback` when it is not a boolean.
pub open spec fn bool_or(s: Seq<char>, fallback: bool) -> bool {
    match spec_parse_bool(s) {
        Some(b) => b,
        None => fallback,
    }
}

/// Which setting a key names: its position in `settable_keys`, or 7 for none of them.
pub open spec fn key_slot(key: Seq<char>) -> int {
    let keys = settable_keys();
    if key == keys[0] {
        0
    } else if key == keys[1] {
        1
    } else if key == keys[2] {
        2
    } else if key == keys[3] {
        3
    } else if key == keys[4] {
        4
    } else if key == keys[5] {
        5
    } else if key == keys[6] {
        6
    } else {
        7
    }
}

/// A boolean setting's new value from its text.
fn bool_setting(value: &str, fallback: bool) -> (r: bool)
    ensures
        r == bool_or(value@, fallback),
{
    match parse_bool(value) {
        Some(b) => b,
        None => fallback,
    }
}

impl WandaConfig {
    /// Sets one setting from its textual value, as `wanda config set` does. Returns whether
    /// the key is known; an unknown key leaves the configuration as it was. A boolean setting
    /// given a word other than `true`/`false` gets its default: `false` for
    /// `steam.scan_flatpak`, `true` for the others.
    pub fn set_key(&mut self, key: &str, value: &str) -> (known: bool)
        ensures
            known == settable_keys().contains(key@),
            known == (key_slot(key@) < 7),
            final(self).version == old(self).version,
            final(self).steam.additional_libraries == old(self).steam.additional_libraries,
            final(self).proton.search_paths == old(self).proton.search_paths,
            opt_view(final(self).steam.install_path) == (if key_slot(key@) == 0 {
                Some(value@)
            } else {
                opt_view(old(self).steam.install_path)
            }),
            final(self).steam.scan_flatpak == (if key_slot(key@) == 1 {
                bool_or(value@, false)
            } else {
                old(self).steam.scan_flatpak
            }),
            opt_view(final(self).proton.preferred_version) == (if key_slot(key@) == 2 {
                Some(value@)
            } else {
                opt_view(old(self).proton.preferred_version)
            }),
            final(self).wemod.auto_update == (if key_slot(key@) == 3 {
                bool_or(value@, true)
            } else {
                old(self).wemod.auto_update
            }),
            opt_view(final(self).wemod.version) == (if key_slot(key@) == 4 {
                Some(value@)
            } else {
                opt_view(old(self).wemod.version)
            }),
            opt_view(final(self).prefix.base_path) == (if key_slot(key@) == 5 {
                Some(value@)
            } else {
                opt_view(old(self).prefix.base_path)
            }),
            final(self).prefix.auto_repair == (if key_slot(key@) == 6 {
                bool_or(value@, true)
            } else {
                old(self).prefix.auto_repair
            }),
    {
        let ghost keys = settable_keys();
        assert(keys[0] == "steam.install_path"@);
        assert(keys[1] == "steam.scan_flatpak"@);
        assert(keys[2] == "proton.preferred_version"@);
        assert(keys[3] == "wemod.auto_update"@);
        assert(keys[4] == "wemod.version"@);
        assert(keys[5] == "prefix.base_path"@);
        assert(keys[6] == "prefix.auto_repair"@);
        if str_eq(key, "steam.install_path") {
            self.steam.install_path = Some(string_of(value));
        } else if str_eq(key, "steam.scan_flatpak") {
            self.steam.scan_flatpak = bool_setting(value, false);
        } else if str_eq(key, "proton.preferred_version") {
            self.proton.preferred_version = Some(string_of(value));
        } else if str_eq(key, "wemod.auto_update") {
            self.wemod.auto_update = bool_setting(value, true);
        } else if str_eq(key, "wemod.version") {
            self.wemod.version = Some(string_of(value));
        } else if str_eq(key, "prefix.base_path") {
            self.prefix.base_path = Some(string_of(value));
        } else if str_eq(key, "prefix.auto_repair") {
            self.prefix.auto_repair = bool_setting(value, true);
        } else {
            assert(!keys.contains(key@)) by {
                if keys.contains(key@) {
                    let i = choose|i: int| 0 <= i < keys.len() && keys[i] == key@;
                    assert(0 <= i < 7);
                }
            }
            return false;
        }
        assert(keys.contains(key@)) by {
            let i = key_slot(key@);
            assert(keys[i] == key@);
        }
        true
    }
}

} // verus!
