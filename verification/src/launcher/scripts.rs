//! The batch files, registry entries and Steam files WANDA writes into a prefix to run WeMod
//! and a game together.

use vstd::prelude::*;
use crate::text::{push_decimal, push_str, spec_decimal, string_from_chars};

verus! {

/// The batch file that runs WeMod and the game in one Wine session: starts WeMod,
/// waits `delay` seconds, runs the game with its arguments and waits for it, then closes
/// WeMod (line ends still `\n`).
pub open spec fn spec_launch_batch_text(wemod: Seq<char>, delay: nat, game: Seq<char>, args: Seq<char>) -> Seq<char> {
    "@echo off\n@title WANDA Launcher\n\necho WANDA Launcher starting...\necho.\n\nREM WeMod executable path\nSET wemodpath="@
        + wemod
        + "\nSET wemodname=WeMod.exe\n\necho Starting WeMod: %wemodpath%\nstart \"\" \"%wemodpath%\" --no-sandbox\n\necho Waiting "@
        + spec_decimal(delay)
        + " seconds for WeMod to initialize...\nping localhost -n "@
        + spec_decimal(delay + 1)
        + " > NUL 2>&1\n\necho.\necho Starting game: "@
        + game
        + "\necho Arguments: "@
        + args
        + "\necho.\n\nREM Start the game and wait for it to exit\nstart /wait \"\" \""@
        + game
        + "\" "@
        + args
        + "\n\necho.\necho Game exited, closing WeMod...\n\nREM Find and kill WeMod process\nfor /F \"TOKENS=1,2,*\" %%a in ('C:/windows/system32/tasklist /FI \"IMAGENAME eq %wemodname%\"') do (\n    set wemodPID=%%b\n)\nif defined wemodPID (\n    C:/windows/system32/taskkill.exe /PID %wemodPID% /F 2>NUL\n    echo Closed WeMod\n)\n\necho.\necho WANDA Launcher finished\n"@
}

/// The batch file that runs WeMod and the game in one Wine session: starts WeMod,
/// waits `delay` seconds, runs the game with its arguments and waits for it, then closes
/// WeMod (line ends still `\n`).
pub fn launch_batch_text(wemod: &str, delay: u64, game: &str, args: &str) -> (r: String)
    requires
        delay < u64::MAX,
    ensures
        r@ == spec_launch_batch_text(wemod@, delay as nat, game@, args@),
{
    let mut v: Vec<char> = Vec::new();
    push_str(&mut v, "@echo off\n@title WANDA Launcher\n\necho WANDA Launcher starting...\necho.\n\nREM WeMod executable path\nSET wemodpath=");
    assert(v@ =~= "@echo off\n@title WANDA Launcher\n\necho WANDA Launcher starting...\necho.\n\nREM WeMod executable path\nSET wemodpath="@);
    push_str(&mut v, wemod);
    push_str(&mut v, "\nSET wemodname=WeMod.exe\n\necho Starting WeMod: %wemodpath%\nstart \"\" \"%wemodpath%\" --no-sandbox\n\necho Waiting ");
    push_decimal(&mut v, delay as u64);
    push_str(&mut v, " seconds for WeMod to initialize...\nping localhost -n ");
    push_decimal(&mut v, delay + 1);
    push_str(&mut v, " > NUL 2>&1\n\necho.\necho Starting game: ");
    push_str(&mut v, game);
    push_str(&mut v, "\necho Arguments: ");
    push_str(&mut v, args);
    push_str(&mut v, "\necho.\n\nREM Start the game and wait for it to exit\nstart /wait \"\" \"");
    push_str(&mut v, game);
    push_str(&mut v, "\" ");
    push_str(&mut v, args);
    push_str(&mut v, "\n\necho.\necho Game exited, closing WeMod...\n\nREM Find and kill WeMod process\nfor /F \"TOKENS=1,2,*\" %%a in ('C:/windows/system32/tasklist /FI \"IMAGENAME eq %wemodname%\"') do (\n    set wemodPID=%%b\n)\nif defined wemodPID (\n    C:/windows/system32/taskkill.exe /PID %wemodPID% /F 2>NUL\n    echo Closed WeMod\n)\n\necho.\necho WANDA Launcher finished\n");
    assert(v@ =~= spec_launch_batch_text(wemod@, delay as nat, game@, args@));
    string_from_chars(v.as_slice())
}

/// The batch file that starts WeMod alone and keeps the Wine session alive, for
/// launching games from WeMod itself (line ends still `\n`).
pub open spec fn spec_standalone_batch_text(wemod: Seq<char>) -> Seq<char> {
    "@echo off\n@title WANDA Standalone Launcher\n\necho WANDA Standalone Launcher starting...\necho.\n\nSET wemodpath="@
        + wemod
        + "\n\necho Starting WeMod: %wemodpath%\nstart \"\" \"%wemodpath%\" --no-sandbox\n\necho Waiting for WeMod to initialize...\nping localhost -n 6 > NUL 2>&1\n\necho.\necho WeMod is running in standalone mode.\necho Launch your game from the WeMod UI.\necho.\n\n:wait\nping localhost -n 30 > NUL 2>&1\ngoto wait\n"@
}

/// The batch file that starts WeMod alone and keeps the Wine session alive, for
/// launching games from WeMod itself (line ends still `\n`).
pub fn standalone_batch_text(wemod: &str) -> (r: String)
    ensures
        r@ == spec_standalone_batch_text(wemod@),
{
    let mut v: Vec<char> = Vec::new();
    push_str(&mut v, "@echo off\n@title WANDA Standalone Launcher\n\necho WANDA Standalone Launcher starting...\necho.\n\nSET wemodpath=");
    assert(v@ =~= "@echo off\n@title WANDA Standalone Launcher\n\necho WANDA Standalone Launcher starting...\necho.\n\nSET wemodpath="@);
    push_str(&mut v, wemod);
    push_str(&mut v, "\n\necho Starting WeMod: %wemodpath%\nstart \"\" \"%wemodpath%\" --no-sandbox\n\necho Waiting for WeMod to initialize...\nping localhost -n 6 > NUL 2>&1\n\necho.\necho WeMod is running in standalone mode.\necho Launch your game from the WeMod UI.\necho.\n\n:wait\nping localhost -n 30 > NUL 2>&1\ngoto wait\n");
    assert(v@ =~= spec_standalone_batch_text(wemod@));
    string_from_chars(v.as_slice())
}

/// The `libraryfolders.vdf` that shows WeMod one Steam library at
/// `C:\\Program Files (x86)\\Steam` holding the game.
pub open spec fn spec_library_folders_vdf(app_id: nat) -> Seq<char> {
    "\"libraryfolders\"\n{\n\t\"0\"\n\t{\n\t\t\"path\"\t\t\"C:\\\\Program Files (x86)\\\\Steam\"\n\t\t\"apps\"\n\t\t{\n\t\t\t\""@
        + spec_decimal(app_id)
        + "\"\t\t\"0\"\n\t\t}\n\t}\n}"@
}

/// The `libraryfolders.vdf` that shows WeMod one Steam library at
/// `C:\\Program Files (x86)\\Steam` holding the game.
pub fn library_folders_vdf(app_id: u32) -> (r: String)
    ensures
        r@ == spec_library_folders_vdf(app_id as nat),
{
    let mut v: Vec<char> = Vec::new();
    push_str(&mut v, "\"libraryfolders\"\n{\n\t\"0\"\n\t{\n\t\t\"path\"\t\t\"C:\\\\Program Files (x86)\\\\Steam\"\n\t\t\"apps\"\n\t\t{\n\t\t\t\"");
    assert(v@ =~= "\"libraryfolders\"\n{\n\t\"0\"\n\t{\n\t\t\"path\"\t\t\"C:\\\\Program Files (x86)\\\\Steam\"\n\t\t\"apps\"\n\t\t{\n\t\t\t\""@);
    push_decimal(&mut v, app_id as u64);
    push_str(&mut v, "\"\t\t\"0\"\n\t\t}\n\t}\n}");
    assert(v@ =~= spec_library_folders_vdf(app_id as nat));
    string_from_chars(v.as_slice())
}

/// The `user.reg` entries that tell WeMod where Steam is and that the game is
/// installed, stamped `ts`.
pub open spec fn spec_steam_registry_text(ts: nat, app_id: nat, name: Seq<char>) -> Seq<char> {
    "\n\n[Software\\\\Valve\\\\Steam] "@
        + spec_decimal(ts)
        + "\n\"Language\"=\"english\"\n\"SteamExe\"=\"C:\\\\\\\\Program Files (x86)\\\\\\\\Steam\\\\\\\\steam.exe\"\n\"SteamPath\"=\"C:\\\\\\\\Program Files (x86)\\\\\\\\Steam\"\n\n[Software\\\\Valve\\\\Steam\\\\Apps\\\\"@
        + spec_decimal(app_id)
        + "] "@
        + spec_decimal(ts)
        + "\n\"Installed\"=dword:00000001\n\"Name\"=\""@
        + name
        + "\"\n\"Running\"=dword:00000000\n"@
}

/// The `user.reg` entries that tell WeMod where Steam is and that the game is
/// installed, stamped `ts`.
pub fn steam_registry_text(ts: u64, app_id: u32, name: &str) -> (r: String)
    ensures
        r@ == spec_steam_registry_text(ts as nat, app_id as nat, name@),
{
    let mut v: Vec<char> = Vec::new();
    push_str(&mut v, "\n\n[Software\\\\Valve\\\\Steam] ");
    assert(v@ =~= "\n\n[Software\\\\Valve\\\\Steam] "@);
    push_decimal(&mut v, ts as u64);
    push_str(&mut v, "\n\"Language\"=\"english\"\n\"SteamExe\"=\"C:\\\\\\\\Program Files (x86)\\\\\\\\Steam\\\\\\\\steam.exe\"\n\"SteamPath\"=\"C:\\\\\\\\Program Files (x86)\\\\\\\\Steam\"\n\n[Software\\\\Valve\\\\Steam\\\\Apps\\\\");
    push_decimal(&mut v, app_id as u64);
    push_str(&mut v, "] ");
    push_decimal(&mut v, ts as u64);
    push_str(&mut v, "\n\"Installed\"=dword:00000001\n\"Name\"=\"");
    push_str(&mut v, name);
    push_str(&mut v, "\"\n\"Running\"=dword:00000000\n");
    assert(v@ =~= spec_steam_registry_text(ts as nat, app_id as nat, name@));
    string_from_chars(v.as_slice())
}

/// The batch file that `steam://run` requests are routed to: it starts the game in
/// the same Wine session.
pub open spec fn spec_proxy_batch_text(name: Seq<char>, app_id: nat, game: Seq<char>) -> Seq<char> {
    "@echo off\nREM Wanda Steam Protocol Proxy\nREM Intercepts steam://run requests from WeMod and launches the game\nREM directly in the same Wine session (instead of via native Steam\nREM which would create a separate Proton session).\nREM\nREM Game: "@
        + name
        + " (AppID: "@
        + spec_decimal(app_id)
        + ")\n\necho [WANDA] Steam launch intercepted: %~1\necho [WANDA] Launching: "@
        + game
        + "\n\nstart \"\" \""@
        + game
        + "\"\n"@
}

/// The batch file that `steam://run` requests are routed to: it starts the game in
/// the same Wine session.
pub fn proxy_batch_text(name: &str, app_id: u32, game: &str) -> (r: String)
    ensures
        r@ == spec_proxy_batch_text(name@, app_id as nat, game@),
{
    let mut v: Vec<char> = Vec::new();
    push_str(&mut v, "@echo off\nREM Wanda Steam Protocol Proxy\nREM Intercepts steam://run requests from WeMod and launches the game\nREM directly in the same Wine session (instead of via native Steam\nREM which would create a separate Proton session).\nREM\nREM Game: ");
    assert(v@ =~= "@echo off\nREM Wanda Steam Protocol Proxy\nREM Intercepts steam://run requests from WeMod and launches the game\nREM directly in the same Wine session (instead of via native Steam\nREM which would create a separate Proton session).\nREM\nREM Game: "@);
    push_str(&mut v, name);
    push_str(&mut v, " (AppID: ");
    push_decimal(&mut v, app_id as u64);
    push_str(&mut v, ")\n\necho [WANDA] Steam launch intercepted: %~1\necho [WANDA] Launching: ");
    push_str(&mut v, game);
    push_str(&mut v, "\n\nstart \"\" \"");
    push_str(&mut v, game);
    push_str(&mut v, "\"\n");
    assert(v@ =~= spec_proxy_batch_text(name@, app_id as nat, game@));
    string_from_chars(v.as_slice())
}

/// The `user.reg` entries that route the `steam://` protocol to the proxy batch
/// file, stamped `ts`.
pub open spec fn spec_protocol_override_text(ts: nat) -> Seq<char> {
    "\n[Software\\\\Classes\\\\steam] "@
        + spec_decimal(ts)
        + "\n@=\"URL:Steam Protocol\"\n\"URL Protocol\"=\"\"\n\n[Software\\\\Classes\\\\steam\\\\shell\\\\open\\\\command] "@
        + spec_decimal(ts)
        + "\n@=\"\\\"C:\\\\wanda\\\\steam_proxy.bat\\\" \\\"%1\\\"\"\n"@
}

/// The `user.reg` entries that route the `steam://` protocol to the proxy batch
/// file, stamped `ts`.
pub fn protocol_override_text(ts: u64) -> (r: String)
    ensures
        r@ == spec_protocol_override_text(ts as nat),
{
    let mut v: Vec<char> = Vec::new();
    push_str(&mut v, "\n[Software\\\\Classes\\\\steam] ");
    assert(v@ =~= "\n[Software\\\\Classes\\\\steam] "@);
    push_decimal(&mut v, ts as u64);
    push_str(&mut v, "\n@=\"URL:Steam Protocol\"\n\"URL Protocol\"=\"\"\n\n[Software\\\\Classes\\\\steam\\\\shell\\\\open\\\\command] ");
    push_decimal(&mut v, ts as u64);
    push_str(&mut v, "\n@=\"\\\"C:\\\\wanda\\\\steam_proxy.bat\\\" \\\"%1\\\"\"\n");
    assert(v@ =~= spec_protocol_override_text(ts as nat));
    string_from_chars(v.as_slice())
}
} // verus!
