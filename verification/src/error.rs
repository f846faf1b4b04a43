//! Errors of WANDA operations and the messages shown for them.

use vstd::prelude::*;
use crate::text::{push_str, push_decimal, spec_decimal, string_from_chars};

verus! {

/// What went wrong in a WANDA operation. Paths are held as strings; errors that came from the
/// filesystem, the network or a file format carry the text of the underlying error.
#[derive(Debug)]
pub enum WandaError {
    SteamNotFound,
    SteamLibraryInaccessible { path: String, reason: String },
    VdfParseError { path: String, reason: String },
    GameNotFound { app_id: u32 },
    ProtonNotFound,
    ProtonIncompatible { version: String, reason: String },
    PrefixCorrupted { path: String, reason: String },
    PrefixCreationFailed { path: String, reason: String },
    PrefixNotFound { path: String },
    WinetricksFailed { reason: String },
    WemodDownloadFailed { reason: String },
    WemodInstallFailed { reason: String },
    WemodNotInstalled,
    LaunchFailed { reason: String },
    ProcessCrashed { reason: String },
    ConfigError { reason: String },
    ConfigNotFound { path: String },
    Io(String),
    Http(String),
    Json(String),
    TomlParse(String),
    TomlSerialize(String),
}

impl WandaError {
    /// The one-line description of the error.
    pub open spec fn spec_message(&self) -> Seq<char> {
        match self {
            WandaError::SteamNotFound => "Steam installation not found"@,
            WandaError::SteamLibraryInaccessible { path, reason } => "Steam library at "@ + path@
                + " is inaccessible: "@ + reason@,
            WandaError::VdfParseError { path, reason } => "Failed to parse VDF file "@ + path@
                + ": "@ + reason@,
            WandaError::GameNotFound { app_id } => "Game with app ID "@ + spec_decimal(
                *app_id as nat,
            ) + " not found"@,
            WandaError::ProtonNotFound => "No compatible Proton version found"@,
            WandaError::ProtonIncompatible { version, reason } => "Proton version "@ + version@
                + " is incompatible: "@ + reason@,
            WandaError::PrefixCorrupted { path, reason } => "Prefix at "@ + path@
                + " is corrupted: "@ + reason@,
            WandaError::PrefixCreationFailed { path, reason } => "Failed to create prefix at "@
                + path@ + ": "@ + reason@,
            WandaError::PrefixNotFound { path } => "Prefix at "@ + path@ + " not found"@,
            WandaError::WinetricksFailed { reason } => "Winetricks failed: "@ + reason@,
            WandaError::WemodDownloadFailed { reason } => "Failed to download WeMod: "@ + reason@,
            WandaError::WemodInstallFailed { reason } => "WeMod installation failed: "@ + reason@,
            WandaError::WemodNotInstalled => "WeMod not installed"@,
            WandaError::LaunchFailed { reason } => "Failed to launch game: "@ + reason@,
            WandaError::ProcessCrashed { reason } => "Process terminated unexpectedly: "@
                + reason@,
            WandaError::ConfigError { reason } => "Configuration error: "@ + reason@,
            WandaError::ConfigNotFound { path } => "Configuration file not found at "@ + path@,
            WandaError::Io(e) => "IO error: "@ + e@,
            WandaError::Http(e) => "HTTP error: "@ + e@,
            WandaError::Json(e) => "JSON error: "@ + e@,
            WandaError::TomlParse(e) => "TOML parse error: "@ + e@,
            WandaError::TomlSerialize(e) => "TOML serialize error: "@ + e@,
        }
    }

    /// The one-line description of the error (what `to_string` gives).
    pub fn message(&self) -> (m: String)
        ensures
            m@ == self.spec_message(),
    {
        let mut o: Vec<char> = Vec::new();
        match self {
            WandaError::SteamNotFound => push_str(&mut o, "Steam installation not found"),
            WandaError::SteamLibraryInaccessible { path, reason } => {
                push_str(&mut o, "Steam library at ");
                push_str(&mut o, path.as_str());
                push_str(&mut o, " is inaccessible: ");
                push_str(&mut o, reason.as_str());
            },
            WandaError::VdfParseError { path, reason } => {
                push_str(&mut o, "Failed to parse VDF file ");
                push_str(&mut o, path.as_str());
                push_str(&mut o, ": ");
                push_str(&mut o, reason.as_str());
            },
            WandaError::GameNotFound { app_id } => {
                push_str(&mut o, "Game with app ID ");
                push_decimal(&mut o, *app_id as u64);
                push_str(&mut o, " not found");
            },
            WandaError::ProtonNotFound => push_str(&mut o, "No compatible Proton version found"),
            WandaError::ProtonIncompatible { version, reason } => {
                push_str(&mut o, "Proton version ");
                push_str(&mut o, version.as_str());
                push_str(&mut o, " is incompatible: ");
                push_str(&mut o, reason.as_str());
            },
            WandaError::PrefixCorrupted { path, reason } => {
                push_str(&mut o, "Prefix at ");
                push_str(&mut o, path.as_str());
                push_str(&mut o, " is corrupted: ");
                push_str(&mut o, reason.as_str());
            },
            WandaError::PrefixCreationFailed { path, reason } => {
                push_str(&mut o, "Failed to create prefix at ");
                push_str(&mut o, path.as_str());
                push_str(&mut o, ": ");
                push_str(&mut o, reason.as_str());
            },
            WandaError::PrefixNotFound { path } => {
                push_str(&mut o, "Prefix at ");
                push_str(&mut o, path.as_str());
                push_str(&mut o, " not found");
            },
            WandaError::WinetricksFailed { reason } => {
                push_str(&mut o, "Winetricks failed: ");
                push_str(&mut o, reason.as_str());
            },
            WandaError::WemodDownloadFailed { reason } => {
                push_str(&mut o, "Failed to download WeMod: ");
                push_str(&mut o, reason.as_str());
            },
            WandaError::WemodInstallFailed { reason } => {
                push_str(&mut o, "WeMod installation failed: ");
                push_str(&mut o, reason.as_str());
            },
            WandaError::WemodNotInstalled => push_str(&mut o, "WeMod not installed"),
            WandaError::LaunchFailed { reason } => {
                push_str(&mut o, "Failed to launch game: ");
                push_str(&mut o, reason.as_str());
            },
            WandaError::ProcessCrashed { reason } => {
                push_str(&mut o, "Process terminated unexpectedly: ");
                push_str(&mut o, reason.as_str());
            },
            WandaError::ConfigError { reason } => {
                push_str(&mut o, "Configuration error: ");
                push_str(&mut o, reason.as_str());
            },
            WandaError::ConfigNotFound { path } => {
                push_str(&mut o, "Configuration file not found at ");
                push_str(&mut o, path.as_str());
            },
            WandaError::Io(e) => {
                push_str(&mut o, "IO error: ");
                push_str(&mut o, e.as_str());
            },
            WandaError::Http(e) => {
                push_str(&mut o, "HTTP error: ");
                push_str(&mut o, e.as_str());
            },
            WandaError::Json(e) => {
                push_str(&mut o, "JSON error: ");
                push_str(&mut o, e.as_str());
            },
            WandaError::TomlParse(e) => {
                push_str(&mut o, "TOML parse error: ");
                push_str(&mut o, e.as_str());
            },
            WandaError::TomlSerialize(e) => {
                push_str(&mut o, "TOML serialize error: ");
                push_str(&mut o, e.as_str());
            },
        }
        assert(o@ =~= self.spec_message());
        string_from_chars(o.as_slice())
    }

    /// The message shown to the user: the description, with a suggestion for the errors a user
    /// can act on.
    pub open spec fn spec_user_message(&self) -> Seq<char> {
        match self {
            WandaError::SteamNotFound => "Steam installation not found. Please ensure Steam is installed, or specify the path manually in the config."@,
            WandaError::ProtonNotFound => "No compatible Proton version found. Please install GE-Proton or Proton Experimental from Steam."@,
            WandaError::PrefixCorrupted { path, reason } => "The Wine prefix at "@ + path@
                + " appears to be corrupted: "@ + reason@
                + "\nTry running 'wanda prefix repair' to fix this issue."@,
            WandaError::WemodNotInstalled => "WeMod is not installed. Run 'wanda init' to set up WANDA."@,
            _ => self.spec_message(),
        }
    }

    /// The message shown to the user: the description, with a suggestion for the errors a user
    /// can act on.
    pub fn user_message(&self) -> (m: String)
        ensures
            m@ == self.spec_user_message(),
    {
        match self {
            WandaError::SteamNotFound => string_from_chars(
                vec_of("Steam installation not found. Please ensure Steam is installed, or specify the path manually in the config.").as_slice(),
            ),
            WandaError::ProtonNotFound => string_from_chars(
                vec_of("No compatible Proton version found. Please install GE-Proton or Proton Experimental from Steam.").as_slice(),
            ),
            WandaError::PrefixCorrupted { path, reason } => {
                let mut o: Vec<char> = Vec::new();
                push_str(&mut o, "The Wine prefix at ");
                push_str(&mut o, path.as_str());
                push_str(&mut o, " appears to be corrupted: ");
                push_str(&mut o, reason.as_str());
                push_str(&mut o, "\nTry running 'wanda prefix repair' to fix this issue.");
                assert(o@ =~= self.spec_user_message());
                string_from_chars(o.as_slice())
            },
            WandaError::WemodNotInstalled => string_from_chars(
                vec_of("WeMod is not installed. Run 'wanda init' to set up WANDA.").as_slice(),
            ),
            _ => self.message(),
        }
    }
}

/// The characters of `s`.
fn vec_of(s: &str) -> (v: Vec<char>)
    ensures
        v@ == s@,
{
    let mut o: Vec<char> = Vec::new();
    push_str(&mut o, s);
    assert(o@ =~= s@);
    o
}

} // verus!
