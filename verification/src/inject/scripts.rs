//! The files WANDA writes into a game's own Proton prefix when it wraps the game's Steam
//! launch.

use vstd::prelude::*;
use crate::text::{push_decimal, push_str, spec_decimal, string_from_chars, string_of};

verus! {

/// The `libraryfolders.vdf` that shows WeMod one Steam library holding the app
/// `app_id` (as Steam gave it in `SteamAppId`).
pub open spec fn spec_inject_library_folders_vdf(app_id: Seq<char>) -> Seq<char> {
    "\"libraryfolders\"\n{\n\t\"0\"\n\t{\n\t\t\"path\"\t\t\"C:\\\\Program Files (x86)\\\\Steam\"\n\t\t\"apps\"\n\t\t{\n\t\t\t\""@
        + app_id
        + "\"\t\t\"0\"\n\t\t}\n\t}\n}"@
}

/// The `libraryfolders.vdf` that shows WeMod one Steam library holding the app
/// `app_id` (as Steam gave it in `SteamAppId`).
pub fn inject_library_folders_vdf(app_id: &str) -> (r: String)
    ensures
        r@ == spec_inject_library_folders_vdf(app_id@),
{
    let mut v: Vec<char> = Vec::new();
    push_str(&mut v, "\"libraryfolders\"\n{\n\t\"0\"\n\t{\n\t\t\"path\"\t\t\"C:\\\\Program Files (x86)\\\\Steam\"\n\t\t\"apps\"\n\t\t{\n\t\t\t\"");
    assert(v@ =~= "\"libraryfolders\"\n{\n\t\"0\"\n\t{\n\t\t\"path\"\t\t\"C:\\\\Program Files (x86)\\\\Steam\"\n\t\t\"apps\"\n\t\t{\n\t\t\t\""@);
    push_str(&mut v, app_id);
    push_str(&mut v, "\"\t\t\"0\"\n\t\t}\n\t}\n}");
    assert(v@ =~= spec_inject_library_folders_vdf(app_id@));
    string_from_chars(v.as_slice())
}

/// The `user.reg` entries that tell WeMod where Steam is and that the app `app_id` is
/// installed, stamped `ts`.
pub open spec fn spec_inject_registry_text(ts: nat, app_id: Seq<char>) -> Seq<char> {
    "\n\n[Software\\\\Valve\\\\Steam] "@
        + spec_decimal(ts)
        + "\n\"Language\"=\"english\"\n\"SteamExe\"=\"C:\\\\\\\\Program Files (x86)\\\\\\\\Steam\\\\\\\\steam.exe\"\n\"SteamPath\"=\"C:\\\\\\\\Program Files (x86)\\\\\\\\Steam\"\n\n[Software\\\\Valve\\\\Steam\\\\Apps\\\\"@
        + app_id
        + "] "@
        + spec_decimal(ts)
        + "\n\"Installed\"=dword:00000001\n\"Running\"=dword:00000000\n"@
}

/// The `user.reg` entries that tell WeMod where Steam is and that the app `app_id` is
/// installed, stamped `ts`.
pub fn inject_registry_text(ts: u64, app_id: &str) -> (r: String)
    ensures
        r@ == spec_inject_registry_text(ts as nat, app_id@),
{
    let mut v: Vec<char> = Vec::new();
    push_str(&mut v, "\n\n[Software\\\\Valve\\\\Steam] ");
    assert(v@ =~= "\n\n[Software\\\\Valve\\\\Steam] "@);
    push_decimal(&mut v, ts);
    push_str(&mut v, "\n\"Language\"=\"english\"\n\"SteamExe\"=\"C:\\\\\\\\Program Files (x86)\\\\\\\\Steam\\\\\\\\steam.exe\"\n\"SteamPath\"=\"C:\\\\\\\\Program Files (x86)\\\\\\\\Steam\"\n\n[Software\\\\Valve\\\\Steam\\\\Apps\\\\");
    push_str(&mut v, app_id);
    push_str(&mut v, "] ");
    push_decimal(&mut v, ts);
    push_str(&mut v, "\n\"Installed\"=dword:00000001\n\"Running\"=dword:00000000\n");
    assert(v@ =~= spec_inject_registry_text(ts as nat, app_id@));
    string_from_chars(v.as_slice())
}

/// The batch file that starts WeMod in the game's prefix, with Steam's app variables
/// cleared, and keeps the session alive until Steam stops it; WeMod starts the game itself
/// (line ends still `\n`).
pub open spec fn spec_inject_batch_text(wemod: Seq<char>, game: Seq<char>) -> Seq<char> {
    "@echo off\n@title WANDA Inject\necho [WANDA] Starting WeMod...\necho [WANDA] WeMod: "@
        + wemod
        + "\necho [WANDA] Game: "@
        + game
        + "\n\nREM Clear Steam app ID env vars so steamclient.dll inside WeMod does\nREM not associate this session with the running game. Without this,\nREM WeMod tells Steam \"launch game\" and Steam says \"already running\"\nREM because our batch IS the running game from Steam's perspective.\nset SteamAppId=\nset SteamGameId=\nset SteamOverlayGameId=\nset STEAM_COMPAT_APP_ID=\n\nstart \"\" \""@
        + wemod
        + "\" --no-sandbox\n\necho [WANDA] Waiting for WeMod to initialize...\nping 127.0.0.1 -n 12 > NUL 2>&1\n\necho.\necho [WANDA] WeMod is running.\necho [WANDA] Find your game in WeMod and click Play.\necho [WANDA] WeMod will launch the game directly.\necho [WANDA] Press Stop in Steam to end the session.\necho.\n\n:keepalive\nping 127.0.0.1 -n 30 > NUL 2>&1\ngoto keepalive\n"@
}

/// The batch file that starts WeMod in the game's prefix, with Steam's app variables
/// cleared, and keeps the session alive until Steam stops it; WeMod starts the game itself
/// (line ends still `\n`).
pub fn inject_batch_text(wemod: &str, game: &str) -> (r: String)
    ensures
        r@ == spec_inject_batch_text(wemod@, game@),
{
    let mut v: Vec<char> = Vec::new();
    push_str(&mut v, "@echo off\n@title WANDA Inject\necho [WANDA] Starting WeMod...\necho [WANDA] WeMod: ");
    assert(v@ =~= "@echo off\n@title WANDA Inject\necho [WANDA] Starting WeMod...\necho [WANDA] WeMod: "@);
    push_str(&mut v, wemod);
    push_str(&mut v, "\necho [WANDA] Game: ");
    push_str(&mut v, game);
    push_str(&mut v, "\n\nREM Clear Steam app ID env vars so steamclient.dll inside WeMod does\nREM not associate this session with the running game. Without this,\nREM WeMod tells Steam \"launch game\" and Steam says \"already running\"\nREM because our batch IS the running game from Steam's perspective.\nset SteamAppId=\nset SteamGameId=\nset SteamOverlayGameId=\nset STEAM_COMPAT_APP_ID=\n\nstart \"\" \"");
    push_str(&mut v, wemod);
    push_str(&mut v, "\" --no-sandbox\n\necho [WANDA] Waiting for WeMod to initialize...\nping 127.0.0.1 -n 12 > NUL 2>&1\n\necho.\necho [WANDA] WeMod is running.\necho [WANDA] Find your game in WeMod and click Play.\necho [WANDA] WeMod will launch the game directly.\necho [WANDA] Press Stop in Steam to end the session.\necho.\n\n:keepalive\nping 127.0.0.1 -n 30 > NUL 2>&1\ngoto keepalive\n");
    assert(v@ =~= spec_inject_batch_text(wemod@, game@));
    string_from_chars(v.as_slice())
}

/// The batch file `steam://` requests are routed to in a game's prefix: it leaves a
/// launch signal for the inject batch (line ends still `\n`).
pub open spec fn spec_inject_proxy_text() -> Seq<char> {
    "@echo off\nREM Wanda Steam Protocol Proxy — signals the inject batch to launch the game\necho [WANDA] Steam launch intercepted: %~1\necho [WANDA] Creating launch signal...\necho launch > C:\\wanda\\launch_signal\n"@
}

/// The batch file `steam://` requests are routed to in a game's prefix: it leaves a
/// launch signal for the inject batch (line ends still `\n`).
pub fn inject_proxy_text() -> (r: String)
    ensures
        r@ == spec_inject_proxy_text(),
{
    string_of("@echo off\nREM Wanda Steam Protocol Proxy — signals the inject batch to launch the game\necho [WANDA] Steam launch intercepted: %~1\necho [WANDA] Creating launch signal...\necho launch > C:\\wanda\\launch_signal\n")
}
} // verus!
