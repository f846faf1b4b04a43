//! Launching games through Proton, with WeMod in the same Wine session.

pub mod scripts;

use vstd::prelude::*;
use crate::config::{dir_or_current, opt_view, user_data_local_dir, wanda_dir_in};
use crate::env::{EnvVars, env_insert};
use crate::error::WandaError;
use crate::launcher::scripts::{
    launch_batch_text, proxy_batch_text, protocol_override_text, spec_launch_batch_text,
    spec_protocol_override_text, spec_proxy_batch_text, spec_standalone_batch_text,
    spec_steam_registry_text, standalone_batch_text, steam_registry_text,
};
use crate::paths::{file_name, join, spec_file_name, spec_join, spec_strip_prefix, strip_prefix};
use crate::prefix::builder::{HostEnv, ProtonFiles, env_insert_opt, proton_ld_path, spec_ld_path};
use crate::prefix::manager::WandaPrefix;
use crate::steam::library::{SteamApp, SteamInstallation};
use crate::steam::proton::ProtonVersion;
use crate::text::{
    chars_of, decimal, lemma_find_from, occurs_at, push_str, replace_char, spec_contains, spec_decimal, spec_lowercase,
    spec_replace_char, str_contains, string_from_chars, string_of, to_lowercase,
};

verus! {

/// How a game is to be launched.
#[derive(Debug)]
pub struct LaunchConfig {
    /// The game's Steam app ID.
    pub app_id: u32,
    /// Whether WeMod runs alongside it.
    pub with_wemod: bool,
    /// Further command-line arguments for the game.
    pub extra_args: Vec<String>,
    /// Further environment variables.
    pub extra_env: EnvVars,
    /// Seconds to wait between starting WeMod and starting the game.
    pub wemod_delay: u64,
    /// Start WeMod only; the user starts the game from WeMod.
    pub standalone: bool,
}

impl Default for LaunchConfig {
    fn default() -> (r: Self)
        ensures
            r.app_id == 0,
            r.with_wemod,
            r.extra_args@.len() == 0,
            r.extra_env@.len() == 0,
            r.wemod_delay == 3,
            !r.standalone,
    {
        LaunchConfig {
            app_id: 0,
            with_wemod: true,
            extra_args: Vec::new(),
            extra_env: EnvVars::new(),
            wemod_delay: 3,
            standalone: false,
        }
    }
}

/// The strings of `v` joined by `sep`.
pub open spec fn spec_join_strs(v: Seq<Seq<char>>, sep: Seq<char>) -> Seq<char>
    decreases v.len(),
{
    if v.len() == 0 {
        Seq::empty()
    } else if v.len() == 1 {
        v[0]
    } else {
        spec_join_strs(v.drop_last(), sep) + sep + v.last()
    }
}

/// The views of a list of strings.
pub open spec fn strings_view(v: Seq<String>) -> Seq<Seq<char>> {
    v.map_values(|s: String| s@)
}

/// `slice::join`: the strings joined by `sep`.
pub fn join_strings(v: &Vec<String>, sep: &str) -> (r: String)
    ensures
        r@ == spec_join_strs(strings_view(v@), sep@),
{
    let mut out: Vec<char> = Vec::new();
    for i in 0..v.len()
        invariant
            out@ == spec_join_strs(strings_view(v@.take(i as int)), sep@),
    {
        proof {
            assert(strings_view(v@.take(i + 1)).drop_last() =~= strings_view(v@.take(i as int)));
            assert(strings_view(v@.take(i + 1)).last() == v@[i as int]@);
        }
        if i > 0 {
            push_str(&mut out, sep);
        }
        let ghost before = out@;
        push_str(&mut out, v[i].as_str());
        proof {
            if i == 0 {
                assert(strings_view(v@.take(1))[0] == v@[0]@);
                assert(out@ =~= v@[0]@);
            }
        }
    }
    proof {
        assert(v@.take(v@.len() as int) =~= v@);
    }
    string_from_chars(out.as_slice())
}

/// A Linux path as Wine sees it on drive `Z:`, keeping forward slashes.
pub open spec fn spec_to_wine_path(p: Seq<char>) -> Seq<char> {
    "Z:"@ + p
}

/// A Linux path as a Windows path on drive `Z:`, with backslashes.
pub open spec fn spec_z_path(p: Seq<char>) -> Seq<char> {
    "Z:"@ + spec_replace_char(p, '/', "\\"@)
}

/// The `C:` path of a path relative to the library's `steamapps/common`.
pub open spec fn spec_common_c_path(rel: Seq<char>) -> Seq<char> {
    "C:\\Program Files (x86)\\Steam\\steamapps\\common\\"@ + spec_replace_char(rel, '/', "\\"@)
}

/// The game's path on drive `C:` through the Steam library linked into the prefix, when the
/// executable lies under the library's `steamapps/common`.
pub open spec fn spec_prefix_game_path(library: Seq<char>, exe: Seq<char>) -> Option<Seq<char>> {
    match spec_strip_prefix(exe, spec_join(library, "steamapps/common"@)) {
        Some(rel) => Some(spec_common_c_path(rel)),
        None => None,
    }
}

/// The path the game is started by inside the prefix: its `C:` path through the linked Steam
/// library, else its `Z:` path.
pub open spec fn spec_game_windows_path(library: Seq<char>, exe: Seq<char>) -> Seq<char> {
    match spec_prefix_game_path(library, exe) {
        Some(p) => p,
        None => spec_z_path(exe),
    }
}

/// Batch files need CRLF line ends.
pub open spec fn spec_crlf(s: Seq<char>) -> Seq<char> {
    spec_replace_char(s, '\n', "\r\n"@)
}

/// The shell command that runs `target` through the Proton script from Proton's directory.
pub open spec fn spec_proton_command(proton: Seq<char>, target: Seq<char>) -> Seq<char> {
    "cd \""@ + proton + "\" && \""@ + spec_join(proton, "proton"@) + "\" waitforexitandrun \""@
        + target + "\""@
}

/// A path quoted for the shell: in single quotes, each single quote written `'\''`.
pub open spec fn spec_shell_quote(p: Seq<char>) -> Seq<char> {
    "'"@ + spec_replace_char(p, '\'', "'\\''"@) + "'"@
}

/// The command run so that its output, stdout and stderr together, also goes to the log.
pub open spec fn spec_tee_to_log(cmd: Seq<char>, log: Seq<char>) -> Seq<char> {
    "{ "@ + cmd + " ; } 2>&1 | tee -a "@ + spec_shell_quote(log)
}

/// The log file under the given data directory (the current directory if there is none).
pub open spec fn spec_log_file(data_dir: Option<Seq<char>>) -> Seq<char> {
    spec_join(spec_join(dir_or_current(data_dir), "wanda"@), "wanda.log"@)
}

/// `wanda/wanda.log` under the user's local data directory (or the current directory).
pub fn log_file_path() -> (r: String)
    ensures
        exists|d: Option<Seq<char>>| r@ == spec_log_file(d),
{
    let d = user_data_local_dir();
    let ghost dv = opt_view(d);
    let w = wanda_dir_in(d);
    let r = join(w.as_str(), "wanda.log");
    assert(r@ == spec_log_file(dv));
    r
}

/// Wraps a shell command so that its combined output is written to the terminal and appended
/// to the log file `log` (for diagnosing failed launches).
pub fn tee_to_log(cmd: &str, log: &str) -> (r: String)
    ensures
        r@ == spec_tee_to_log(cmd@, log@),
{
    let escaped = replace_char(log, '\'', "'\\''");
    let mut v: Vec<char> = Vec::new();
    push_str(&mut v, "{ ");
    push_str(&mut v, cmd);
    push_str(&mut v, " ; } 2>&1 | tee -a ");
    push_str(&mut v, "'");
    push_str(&mut v, escaped.as_str());
    push_str(&mut v, "'");
    assert(v@ =~= spec_tee_to_log(cmd@, log@));
    string_from_chars(v.as_slice())
}

/// Where WANDA links the game's Steam library into the prefix, so WeMod finds the game.
#[derive(Debug, Clone)]
pub struct SteamLibraryLayout {
    /// `steamapps` of the Steam installation WeMod sees, inside the prefix.
    pub steamapps_dir: String,
    /// The link to the library's `steamapps/common`.
    pub common_link: String,
    /// The library's `steamapps/common`.
    pub common_target: String,
    /// The link to the game's app manifest.
    pub manifest_link: String,
    /// The game's app manifest.
    pub manifest_target: String,
    /// The `libraryfolders.vdf` WeMod reads.
    pub vdf_path: String,
}

/// The views of the executable candidates: `{install_dir}.exe`, the lower-cased name without
/// spaces plus `.exe`, `game.exe`, `start.exe`, `launcher.exe`, each looked for in the install
/// directory and its `Game`, `game`, `Bin` and `bin` subdirectories, pattern by pattern.
pub open spec fn spec_exe_candidates(install_path: Seq<char>, install_dir: Seq<char>) -> Seq<
    Seq<char>,
> {
    let patterns = seq![
        install_dir + ".exe"@,
        spec_normalized_name(install_dir) + ".exe"@,
        "game.exe"@,
        "start.exe"@,
        "launcher.exe"@,
    ];
    let dirs = seq![
        install_path,
        spec_join(install_path, "Game"@),
        spec_join(install_path, "game"@),
        spec_join(install_path, "Bin"@),
        spec_join(install_path, "bin"@),
    ];
    Seq::new(25, |i: int| spec_join(dirs[i % 5], patterns[i / 5]))
}

/// A game's directory name, lower-cased and without spaces (`ELDEN RING` gives `eldenring`).
pub open spec fn spec_normalized_name(install_dir: Seq<char>) -> Seq<char> {
    spec_replace_char(spec_lowercase(install_dir), ' ', ""@)
}

/// A lower-cased file name of an anti-cheat tool, installer, launcher or other utility.
pub open spec fn spec_is_excluded(n: Seq<char>) -> bool {
    spec_contains(n, "unins"@) || spec_contains(n, "redist"@) || spec_contains(n, "setup"@)
        || spec_contains(n, "crash"@) || spec_contains(n, "report"@) || spec_contains(
        n,
        "start_protected"@,
    ) || spec_contains(n, "easyanticheat"@) || spec_contains(n, "battleye"@) || spec_contains(
        n,
        "eac_"@,
    ) || spec_contains(n, "dxsetup"@) || spec_contains(n, "vcredist"@) || spec_contains(
        n,
        "dotnet"@,
    ) || spec_contains(n, "directx"@) || spec_contains(n, "ue4prereq"@) || spec_contains(
        n,
        "installer"@,
    ) || spec_contains(n, "updater"@)
}

/// The position of the last `.` in `name` at or before `i`.
pub open spec fn last_dot(name: Seq<char>, i: int) -> Option<int>
    decreases i + 1,
{
    if i < 0 || i >= name.len() {
        None
    } else if name[i] == '.' {
        Some(i)
    } else {
        last_dot(name, i - 1)
    }
}

/// What `Path::extension` gives for a file name: the part after the last `.`, unless there
/// is no `.` or the only one starts the name.
pub open spec fn spec_extension(name: Seq<char>) -> Option<Seq<char>> {
    match last_dot(name, name.len() - 1) {
        Some(i) => if i > 0 {
            Some(name.skip(i + 1))
        } else {
            None
        },
        None => None,
    }
}

/// A path whose file name has the extension `exe`.
pub open spec fn spec_is_exe(p: Seq<char>) -> bool {
    match spec_file_name(p) {
        Some(n) => spec_extension(n) == Some("exe"@),
        None => false,
    }
}

/// The lower-cased file name of a path (empty when it has none).
pub open spec fn spec_lower_file_name(p: Seq<char>) -> Seq<char> {
    match spec_file_name(p) {
        Some(n) => spec_lowercase(n),
        None => spec_lowercase(""@),
    }
}

/// A walked path that may be the game: an `.exe` that is not excluded.
pub open spec fn spec_usable_exe(p: Seq<char>) -> bool {
    spec_is_exe(p) && !spec_is_excluded(spec_lower_file_name(p))
}

/// The first usable executable from position `i` on whose lower-cased name contains the
/// game's normalized name.
pub open spec fn first_named_exe(walked: Seq<Seq<char>>, norm: Seq<char>, i: int) -> Option<int>
    decreases walked.len() - i,
{
    if i < 0 || i >= walked.len() {
        None
    } else if spec_usable_exe(walked[i]) && spec_contains(spec_lower_file_name(walked[i]), norm) {
        Some(i)
    } else {
        first_named_exe(walked, norm, i + 1)
    }
}

/// The first usable executable from position `i` on.
pub open spec fn first_usable_exe(walked: Seq<Seq<char>>, i: int) -> Option<int>
    decreases walked.len() - i,
{
    if i < 0 || i >= walked.len() {
        None
    } else if spec_usable_exe(walked[i]) {
        Some(i)
    } else {
        first_usable_exe(walked, i + 1)
    }
}

/// The first candidate from position `i` on that exists.
pub open spec fn first_existing(cands: Seq<Seq<char>>, exists: Seq<bool>, i: int) -> Option<int>
    decreases cands.len() - i,
{
    if i < 0 || i >= cands.len() {
        None
    } else if i < exists.len() && exists[i] {
        Some(i)
    } else {
        first_existing(cands, exists, i + 1)
    }
}

/// A lower-cased file name containing any of `unins`, `redist`, `setup`, `crash`, `report`,
/// `start_protected`, `easyanticheat`, `battleye`, `eac_`, `dxsetup`, `vcredist`, `dotnet`,
/// `directx`, `ue4prereq`, `installer` or `updater` names a tool, not a game: it is excluded.
pub proof fn lemma_tool_names_excluded(n: Seq<char>)
    requires
        spec_contains(n, "unins"@)
            || spec_contains(n, "redist"@)
            || spec_contains(n, "setup"@)
            || spec_contains(n, "crash"@)
            || spec_contains(n, "report"@)
            || spec_contains(n, "start_protected"@)
            || spec_contains(n, "easyanticheat"@)
            || spec_contains(n, "battleye"@)
            || spec_contains(n, "eac_"@)
            || spec_contains(n, "dxsetup"@)
            || spec_contains(n, "vcredist"@)
            || spec_contains(n, "dotnet"@)
            || spec_contains(n, "directx"@)
            || spec_contains(n, "ue4prereq"@)
            || spec_contains(n, "installer"@)
            || spec_contains(n, "updater"@),
    ensures
        spec_is_excluded(n),
{
}

proof fn lemma_first_named_usable(walked: Seq<Seq<char>>, norm: Seq<char>, i: int)
    requires
        0 <= i,
    ensures
        first_named_exe(walked, norm, i) matches Some(k) ==> i <= k < walked.len()
            && spec_usable_exe(walked[k]),
    decreases walked.len() - i,
{
    if i < walked.len() && !(spec_usable_exe(walked[i]) && spec_contains(
        spec_lower_file_name(walked[i]),
        norm,
    )) {
        lemma_first_named_usable(walked, norm, i + 1);
    }
}

proof fn lemma_first_usable(walked: Seq<Seq<char>>, i: int)
    requires
        0 <= i,
    ensures
        first_usable_exe(walked, i) matches Some(k) ==> i <= k < walked.len() && spec_usable_exe(
            walked[k],
        ),
    decreases walked.len() - i,
{
    if i < walked.len() && !spec_usable_exe(walked[i]) {
        lemma_first_usable(walked, i + 1);
    }
}

/// When none of the usual places holds the game's executable, the one found by walking the
/// install directory is a walked `.exe` whose name names no tool: it contains none of the
/// words of `lemma_tool_names_excluded`.
pub proof fn lemma_walked_exe_is_no_tool(
    install_path: Seq<char>,
    install_dir: Seq<char>,
    exists: Seq<bool>,
    walked: Seq<Seq<char>>,
)
    requires
        first_existing(spec_exe_candidates(install_path, install_dir), exists, 0) is None,
    ensures
        spec_game_exe(install_path, install_dir, exists, walked) matches Some(p) ==> {
            &&& exists|i: int| 0 <= i < walked.len() && walked[i] == p
            &&& spec_is_exe(p)
            &&& !spec_contains(spec_lower_file_name(p), "unins"@)
            && !spec_contains(spec_lower_file_name(p), "redist"@)
            && !spec_contains(spec_lower_file_name(p), "setup"@)
            && !spec_contains(spec_lower_file_name(p), "crash"@)
            && !spec_contains(spec_lower_file_name(p), "report"@)
            && !spec_contains(spec_lower_file_name(p), "start_protected"@)
            && !spec_contains(spec_lower_file_name(p), "easyanticheat"@)
            && !spec_contains(spec_lower_file_name(p), "battleye"@)
            && !spec_contains(spec_lower_file_name(p), "eac_"@)
            && !spec_contains(spec_lower_file_name(p), "dxsetup"@)
            && !spec_contains(spec_lower_file_name(p), "vcredist"@)
            && !spec_contains(spec_lower_file_name(p), "dotnet"@)
            && !spec_contains(spec_lower_file_name(p), "directx"@)
            && !spec_contains(spec_lower_file_name(p), "ue4prereq"@)
            && !spec_contains(spec_lower_file_name(p), "installer"@)
            && !spec_contains(spec_lower_file_name(p), "updater"@)
        },
{
    lemma_first_named_usable(walked, spec_normalized_name(install_dir), 0);
    lemma_first_usable(walked, 0);
}

/// The game's executable: the first existing candidate (see `spec_exe_candidates`), else the
/// first walked `.exe` named like the game, else the first walked `.exe`, skipping
/// anti-cheat tools, installers and the like.
pub open spec fn spec_game_exe(
    install_path: Seq<char>,
    install_dir: Seq<char>,
    exists: Seq<bool>,
    walked: Seq<Seq<char>>,
) -> Option<Seq<char>> {
    let cands = spec_exe_candidates(install_path, install_dir);
    match first_existing(cands, exists, 0) {
        Some(i) => Some(cands[i]),
        None => match first_named_exe(walked, spec_normalized_name(install_dir), 0) {
            Some(i) => Some(walked[i]),
            None => match first_usable_exe(walked, 0) {
                Some(i) => Some(walked[i]),
                None => None,
            },
        },
    }
}

/// Whether a lower-cased file name is that of an anti-cheat tool, installer, launcher or
/// other utility.
pub fn is_excluded(n: &str) -> (r: bool)
    ensures
        r == spec_is_excluded(n@),
{
    str_contains(n, "unins") || str_contains(n, "redist") || str_contains(n, "setup")
        || str_contains(n, "crash") || str_contains(n, "report") || str_contains(
        n,
        "start_protected",
    ) || str_contains(n, "easyanticheat") || str_contains(n, "battleye") || str_contains(
        n,
        "eac_",
    ) || str_contains(n, "dxsetup") || str_contains(n, "vcredist") || str_contains(n, "dotnet")
        || str_contains(n, "directx") || str_contains(n, "ue4prereq") || str_contains(
        n,
        "installer",
    ) || str_contains(n, "updater")
}

/// `Path::extension` of a file name.
pub fn extension(name: &str) -> (r: Option<String>)
    ensures
        opt_view(r) == spec_extension(name@),
{
    let cs = chars_of(name);
    let n = cs.len();
    let mut i: usize = n;
    while i > 0
        invariant
            i <= n,
            n == cs@.len(),
            cs@ == name@,
            last_dot(cs@, n - 1) == last_dot(cs@, i - 1),
        decreases i,
    {
        if cs[i - 1] == '.' {
            if i - 1 == 0 {
                return None;
            }
            let mut out: Vec<char> = Vec::new();
            let mut j: usize = i;
            while j < n
                invariant
                    i <= j <= n,
                    n == cs@.len(),
                    out@ == cs@.subrange(i as int, j as int),
                decreases n - j,
            {
                out.push(cs[j]);
                j = j + 1;
                assert(out@ =~= cs@.subrange(i as int, j as int));
            }
            assert(out@ =~= cs@.skip(i as int));
            return Some(string_from_chars(out.as_slice()));
        }
        i = i - 1;
    }
    None
}

/// Whether a path's file name has the extension `exe`.
pub fn is_exe(p: &str) -> (r: bool)
    ensures
        r == spec_is_exe(p@),
{
    match file_name(p) {
        Some(n) => match extension(n.as_str()) {
            Some(e) => crate::text::str_eq(e.as_str(), "exe"),
            None => false,
        },
        None => false,
    }
}

/// The lower-cased file name of a path (empty when it has none).
pub fn lower_file_name(p: &str) -> (r: String)
    ensures
        r@ == spec_lower_file_name(p@),
{
    match file_name(p) {
        Some(n) => to_lowercase(n.as_str()),
        None => to_lowercase(""),
    }
}

/// The environment a game and WeMod run in: Proton finds the prefix and Steam from
/// `STEAM_COMPAT_DATA_PATH` and `STEAM_COMPAT_CLIENT_INSTALL_PATH`; the app ID (when given) for
/// the Steam API; the display and X authority variables; esync and fsync off; Proton's
/// libraries.
pub open spec fn spec_launch_env(
    prefix: Seq<char>,
    steam_root: Seq<char>,
    proton: Seq<char>,
    app_id: Option<u32>,
    files: ProtonFiles,
    host: HostEnv,
) -> Seq<(Seq<char>, Seq<char>)> {
    let e1 = env_insert(Seq::empty(), "STEAM_COMPAT_DATA_PATH"@, prefix);
    let e2 = env_insert(e1, "STEAM_COMPAT_CLIENT_INSTALL_PATH"@, steam_root);
    let e3 = match app_id {
        Some(id) => env_insert(
            env_insert(
                env_insert(e2, "SteamAppId"@, spec_decimal(id as nat)),
                "SteamGameId"@,
                spec_decimal(id as nat),
            ),
            "STEAM_COMPAT_APP_ID"@,
            spec_decimal(id as nat),
        ),
        None => e2,
    };
    let e4 = env_insert_opt(
        env_insert_opt(
            env_insert_opt(
                env_insert_opt(e3, "DISPLAY"@, opt_view(host.display)),
                "WAYLAND_DISPLAY"@,
                opt_view(host.wayland_display),
            ),
            "XDG_RUNTIME_DIR"@,
            opt_view(host.xdg_runtime_dir),
        ),
        "XAUTHORITY"@,
        opt_view(host.xauthority),
    );
    let e5 = env_insert(
        env_insert(
            env_insert(env_insert(e4, "WINEESYNC"@, "0"@), "WINEFSYNC"@, "0"@),
            "PROTON_NO_ESYNC"@,
            "1"@,
        ),
        "PROTON_NO_FSYNC"@,
        "1"@,
    );
    if files.lib64 || files.lib {
        env_insert(e5, "LD_LIBRARY_PATH"@, spec_ld_path(proton, files, opt_view(host.ld_library_path)))
    } else {
        e5
    }
}

/// The `user.reg` text that names WANDA's Steam installation, when `user.reg` exists and
/// does not have it yet.
pub open spec fn spec_registry_addition(user_reg: Option<Seq<char>>, text: Seq<char>, marker: Seq<
    char,
>) -> Option<Seq<char>> {
    match user_reg {
        None => None,
        Some(c) => if spec_contains(c, marker) {
            None
        } else {
            Some(text)
        },
    }
}

/// `n` occurs in `h` at `i`, so `h` contains it.
proof fn lemma_occurs_contains(h: Seq<char>, n: Seq<char>, i: int)
    requires
        occurs_at(h, n, i),
    ensures
        spec_contains(h, n),
{
    lemma_find_from(h, n, 0);
}

/// The `steam://` override is appended to `user.reg` at most once: once its text is there,
/// `protocol_override_addition` finds the proxy marker in it and adds nothing more.
pub proof fn lemma_protocol_override_once(user_reg: Seq<char>, ts: nat, later: nat)
    ensures
        spec_registry_addition(
            Some(user_reg + spec_protocol_override_text(ts)),
            spec_protocol_override_text(later),
            "wanda\\\\steam_proxy.bat"@,
        ) is None,
{
    let tail = "\n@=\"\\\"C:\\\\wanda\\\\steam_proxy.bat\\\" \\\"%1\\\"\"\n"@;
    let m = "wanda\\\\steam_proxy.bat"@;
    reveal_strlit("\n@=\"\\\"C:\\\\wanda\\\\steam_proxy.bat\\\" \\\"%1\\\"\"\n");
    reveal_strlit("wanda\\\\steam_proxy.bat");
    let h = user_reg + spec_protocol_override_text(ts);
    assert(h.subrange(h.len() - tail.len(), h.len() as int) =~= tail);
    let i = h.len() - tail.len() + 10;
    assert(h.subrange(i, i + m.len()) =~= m) by {
        assert forall|k: int| 0 <= k < m.len() implies h.subrange(i, i + m.len())[k] == m[k] by {
            assert(h[i + k] == tail[10 + k]);
        }
    }
    lemma_occurs_contains(h, m, i);
}

/// A game name as it may stand in a `user.reg` string: backslashes doubled, quotes dropped.
pub open spec fn spec_reg_name(name: Seq<char>) -> Seq<char> {
    spec_replace_char(spec_replace_char(name, '\\', "\\\\"@), '"', ""@)
}

/// The batch file a WeMod launch runs and its path: in standalone mode the one that starts
/// WeMod alone (`wanda_standalone.bat`), else the one that starts WeMod, waits
/// `wemod_delay` seconds and starts the game with its extra arguments (`wanda_launch.bat`).
pub open spec fn spec_launch_batch(
    prefix: Seq<char>,
    config: LaunchConfig,
    wemod_exe: Seq<char>,
    game: SteamApp,
    game_exe: Seq<char>,
) -> (Seq<char>, Seq<char>) {
    if config.standalone {
        (
            spec_join(prefix, "wanda_standalone.bat"@),
            spec_crlf(spec_standalone_batch_text(spec_z_path(wemod_exe))),
        )
    } else {
        (
            spec_join(prefix, "wanda_launch.bat"@),
            spec_crlf(
                spec_launch_batch_text(
                    spec_z_path(wemod_exe),
                    config.wemod_delay as nat,
                    spec_game_windows_path(game.library_path@, game_exe),
                    spec_join_strs(strings_view(config.extra_args@), " "@),
                ),
            ),
        )
    }
}

/// What a launch runs once the game's executable is known: the WeMod executable with the
/// batch file's path and text (none without WeMod), and the shell command; `None` when
/// WeMod is wanted and its stub is missing.
pub open spec fn spec_launch_plan(
    prefix: Seq<char>,
    proton: Seq<char>,
    config: LaunchConfig,
    game: SteamApp,
    game_exe: Seq<char>,
    stub: Seq<char>,
    stub_exists: bool,
    app_exe: Option<Seq<char>>,
) -> Option<(Option<(Seq<char>, Seq<char>, Seq<char>)>, Seq<char>)> {
    if !config.with_wemod {
        Some(
            (
                None,
                spec_proton_command(proton, spec_to_wine_path(game_exe)) + " "@ + spec_join_strs(
                    strings_view(config.extra_args@),
                    " "@,
                ),
            ),
        )
    } else if !stub_exists {
        None
    } else {
        let w = match app_exe {
            Some(a) => a,
            None => stub,
        };
        let (bp, bt) = spec_launch_batch(prefix, config, w, game, game_exe);
        Some((Some((w, bp, bt)), spec_proton_command(proton, spec_to_wine_path(bp))))
    }
}

/// What a launch runs: the WeMod executable, with the batch file's path and text, when WeMod
/// is started; and the shell command that starts the session.
#[derive(Debug, Clone)]
pub struct LaunchPlan {
    pub wemod: Option<(String, String, String)>,
    pub command: String,
}

/// Launches games of a Steam installation in a WANDA prefix through a Proton build, with
/// WeMod in the same Wine session so that it can hook the game.
pub struct GameLauncher<'a> {
    steam: &'a SteamInstallation,
    prefix: &'a WandaPrefix,
    proton: &'a ProtonVersion,
}

impl<'a> GameLauncher<'a> {
    /// The Steam installation.
    pub closed spec fn spec_steam(&self) -> SteamInstallation {
        *self.steam
    }

    /// The prefix games run in.
    pub closed spec fn spec_prefix(&self) -> WandaPrefix {
        *self.prefix
    }

    /// The Proton build used.
    pub closed spec fn spec_proton(&self) -> ProtonVersion {
        *self.proton
    }

    /// A launcher for games of `steam` in `prefix` through `proton`.
    pub fn new(steam: &'a SteamInstallation, prefix: &'a WandaPrefix, proton: &'a ProtonVersion) -> (r:
        GameLauncher<'a>)
        ensures
            r.spec_steam() == *steam,
            r.spec_prefix() == *prefix,
            r.spec_proton() == *proton,
    {
        GameLauncher { steam, prefix, proton }
    }

    /// The environment a game and WeMod run in (see `spec_launch_env`).
    pub fn build_env(&self, app_id: Option<u32>, files: &ProtonFiles, host: &HostEnv) -> (r:
        EnvVars)
        ensures
            r@ == spec_launch_env(
                self.spec_prefix().path@,
                self.spec_steam().root_path@,
                self.spec_proton().path@,
                app_id,
                *files,
                *host,
            ),
    {
        let mut env = EnvVars::new();
        env.insert("STEAM_COMPAT_DATA_PATH", self.prefix.path.as_str());
        env.insert("STEAM_COMPAT_CLIENT_INSTALL_PATH", self.steam.root_path.as_str());
        if let Some(id) = app_id {
            let d = decimal(id as u64);
            env.insert("SteamAppId", d.as_str());
            env.insert("SteamGameId", d.as_str());
            env.insert("STEAM_COMPAT_APP_ID", d.as_str());
        }
        if let Some(v) = &host.display {
            env.insert("DISPLAY", v.as_str());
        }
        if let Some(v) = &host.wayland_display {
            env.insert("WAYLAND_DISPLAY", v.as_str());
        }
        if let Some(v) = &host.xdg_runtime_dir {
            env.insert("XDG_RUNTIME_DIR", v.as_str());
        }
        if let Some(v) = &host.xauthority {
            env.insert("XAUTHORITY", v.as_str());
        }
        env.insert("WINEESYNC", "0");
        env.insert("WINEFSYNC", "0");
        env.insert("PROTON_NO_ESYNC", "1");
        env.insert("PROTON_NO_FSYNC", "1");
        if files.lib64 || files.lib {
            let ld = proton_ld_path(self.proton.path.as_str(), files, &host.ld_library_path);
            env.insert("LD_LIBRARY_PATH", ld.as_str());
        }
        env
    }

    /// The environment a launch runs in: `build_env` with the app ID, the game's install
    /// directory as `STEAM_COMPAT_INSTALL_PATH` (for protonfixes), then the configured extra
    /// variables.
    pub fn launch_env(
        &self,
        config: &LaunchConfig,
        game: &SteamApp,
        files: &ProtonFiles,
        host: &HostEnv,
    ) -> (r: EnvVars)
        ensures
            r@ == crate::env::env_extend(
                env_insert(
                    spec_launch_env(
                        self.spec_prefix().path@,
                        self.spec_steam().root_path@,
                        self.spec_proton().path@,
                        Some(config.app_id),
                        *files,
                        *host,
                    ),
                    "STEAM_COMPAT_INSTALL_PATH"@,
                    game.install_path@,
                ),
                config.extra_env@,
            ),
    {
        let mut env = self.build_env(Some(config.app_id), files, host);
        env.insert("STEAM_COMPAT_INSTALL_PATH", game.install_path.as_str());
        env.extend(&config.extra_env);
        env
    }

    /// A Linux path as Wine sees it on drive `Z:` (forward slashes, which Wine accepts and
    /// the shell leaves alone).
    pub fn to_wine_path(path: &str) -> (r: String)
        ensures
            r@ == spec_to_wine_path(path@),
    {
        let mut v: Vec<char> = Vec::new();
        push_str(&mut v, "Z:");
        push_str(&mut v, path);
        assert(v@ =~= spec_to_wine_path(path@));
        string_from_chars(v.as_slice())
    }

    /// A Linux path as a Windows path on drive `Z:`, with backslashes.
    pub fn to_z_path(path: &str) -> (r: String)
        ensures
            r@ == spec_z_path(path@),
    {
        let b = replace_char(path, '/', "\\");
        let mut v: Vec<char> = Vec::new();
        push_str(&mut v, "Z:");
        push_str(&mut v, b.as_str());
        assert(v@ =~= spec_z_path(path@));
        string_from_chars(v.as_slice())
    }

    /// The game executable's path on drive `C:` through the Steam library linked into the
    /// prefix: WeMod recognises a game by its image path under
    /// `C:\Program Files (x86)\Steam\steamapps\common`. `None` when the executable is not under
    /// the library's `steamapps/common`.
    pub fn to_prefix_game_path(game: &SteamApp, game_exe: &str) -> (r: Option<String>)
        ensures
            opt_view(r) == spec_prefix_game_path(game.library_path@, game_exe@),
    {
        let common = join(game.library_path.as_str(), "steamapps/common");
        match strip_prefix(game_exe, common.as_str()) {
            Some(rel) => Some(Self::common_c_path(rel.as_str())),
            None => None,
        }
    }

    /// The `C:` path, through the Steam library linked into the prefix, of a path relative
    /// to the library's `steamapps/common` (see `spec_common_c_path`).
    pub fn common_c_path(rel: &str) -> (r: String)
        ensures
            r@ == spec_common_c_path(rel@),
    {
        let b = replace_char(rel, '/', "\\");
        let mut v: Vec<char> = Vec::new();
        push_str(&mut v, "C:\\Program Files (x86)\\Steam\\steamapps\\common\\");
        push_str(&mut v, b.as_str());
        assert(v@ =~= spec_common_c_path(rel@));
        string_from_chars(v.as_slice())
    }

    /// The path the game is started by inside the prefix.
    pub fn game_windows_path(game: &SteamApp, game_exe: &str) -> (r: String)
        ensures
            r@ == spec_game_windows_path(game.library_path@, game_exe@),
    {
        match Self::to_prefix_game_path(game, game_exe) {
            Some(p) => p,
            None => Self::to_z_path(game_exe),
        }
    }

    /// The batch file that runs WeMod and then the game in one Wine session, and its path
    /// (`wanda_launch.bat` in the prefix directory).
    pub fn create_launch_batch(
        &self,
        wemod_exe: &str,
        game: &SteamApp,
        game_exe: &str,
        game_args: &Vec<String>,
        delay_seconds: u64,
    ) -> (r: (String, String))
        requires
            delay_seconds < u64::MAX,
        ensures
            r.0@ == spec_join(self.spec_prefix().path@, "wanda_launch.bat"@),
            r.1@ == spec_crlf(
                spec_launch_batch_text(
                    spec_z_path(wemod_exe@),
                    delay_seconds as nat,
                    spec_game_windows_path(game.library_path@, game_exe@),
                    spec_join_strs(strings_view(game_args@), " "@),
                ),
            ),
    {
        let path = join(self.prefix.path.as_str(), "wanda_launch.bat");
        let wemod = Self::to_z_path(wemod_exe);
        let game_path = Self::game_windows_path(game, game_exe);
        let args = join_strings(game_args, " ");
        let text = launch_batch_text(wemod.as_str(), delay_seconds, game_path.as_str(), args.as_str());
        (path, replace_char(text.as_str(), '\n', "\r\n"))
    }

    /// The batch file that starts WeMod alone and keeps the session alive, and its path
    /// (`wanda_standalone.bat` in the prefix directory).
    pub fn create_standalone_batch(&self, wemod_exe: &str) -> (r: (String, String))
        ensures
            r.0@ == spec_join(self.spec_prefix().path@, "wanda_standalone.bat"@),
            r.1@ == spec_crlf(spec_standalone_batch_text(spec_z_path(wemod_exe@))),
    {
        let path = join(self.prefix.path.as_str(), "wanda_standalone.bat");
        let wemod = Self::to_z_path(wemod_exe);
        let text = standalone_batch_text(wemod.as_str());
        (path, replace_char(text.as_str(), '\n', "\r\n"))
    }

    /// The batch file a WeMod launch runs, and its path (see `spec_launch_batch`).
    pub fn launch_batch(
        &self,
        config: &LaunchConfig,
        wemod_exe: &str,
        game: &SteamApp,
        game_exe: &str,
    ) -> (r: (String, String))
        requires
            config.standalone || config.wemod_delay < u64::MAX,
        ensures
            (r.0@, r.1@) == spec_launch_batch(
                self.spec_prefix().path@,
                *config,
                wemod_exe@,
                *game,
                game_exe@,
            ),
    {
        if config.standalone {
            self.create_standalone_batch(wemod_exe)
        } else {
            self.create_launch_batch(wemod_exe, game, game_exe, &config.extra_args, config.wemod_delay)
        }
    }

    /// What a launch runs once the game's executable is known (see `spec_launch_plan`):
    /// without WeMod, the game through Proton with its extra arguments; with WeMod,
    /// `WemodNotInstalled` when its stub is missing, else the batch file for the WeMod
    /// executable (`launch_wemod_exe`), run through Proton.
    pub fn launch_plan(
        &self,
        config: &LaunchConfig,
        game: &SteamApp,
        game_exe: &str,
        stub: &str,
        stub_exists: bool,
        app_exe: &Option<String>,
    ) -> (r: Result<LaunchPlan, WandaError>)
        requires
            !config.with_wemod || config.standalone || config.wemod_delay < u64::MAX,
        ensures
            match spec_launch_plan(
                self.spec_prefix().path@,
                self.spec_proton().path@,
                *config,
                *game,
                game_exe@,
                stub@,
                stub_exists,
                opt_view(*app_exe),
            ) {
                Some((w, cmd)) => r matches Ok(p) && p.command@ == cmd && match (p.wemod, w) {
                    (None, None) => true,
                    (Some((e, bp, bt)), Some((se, sbp, sbt))) => e@ == se && bp@ == sbp && bt@
                        == sbt,
                    _ => false,
                },
                None => r matches Err(WandaError::WemodNotInstalled),
            },
    {
        if !config.with_wemod {
            let command = self.direct_launch_command(game_exe, &config.extra_args);
            return Ok(LaunchPlan { wemod: None, command });
        }
        let wemod_exe = match Self::launch_wemod_exe(stub, stub_exists, app_exe) {
            Ok(w) => w,
            Err(e) => return Err(e),
        };
        let (batch_path, batch_text) = self.launch_batch(config, wemod_exe.as_str(), game, game_exe);
        let target = Self::to_wine_path(batch_path.as_str());
        let command = self.launch_command(target.as_str());
        Ok(LaunchPlan { wemod: Some((wemod_exe, batch_path, batch_text)), command })
    }

    /// The WeMod executable a launch starts: the real app (`WandaPrefix::wemod_app_exe`) when
    /// there is one, else the stub; `WemodNotInstalled` when the stub does not exist.
    pub fn launch_wemod_exe(stub: &str, stub_exists: bool, app_exe: &Option<String>) -> (r: Result<
        String,
        WandaError,
    >)
        ensures
            !stub_exists ==> r matches Err(WandaError::WemodNotInstalled),
            stub_exists ==> (r matches Ok(p) && p@ == (match opt_view(*app_exe) {
                Some(a) => a,
                None => stub@,
            })),
    {
        if !stub_exists {
            return Err(WandaError::WemodNotInstalled);
        }
        match app_exe {
            Some(a) => Ok(string_of(a.as_str())),
            None => Ok(string_of(stub)),
        }
    }

    /// Where the game's Steam library is linked into the prefix.
    pub fn steam_library_layout(&self, game: &SteamApp) -> (r: SteamLibraryLayout)
        ensures
            r.steamapps_dir@ == spec_join(
                self.spec_prefix().path@,
                "pfx/drive_c/Program Files (x86)/Steam/steamapps"@,
            ),
            r.common_link@ == spec_join(r.steamapps_dir@, "common"@),
            r.common_target@ == spec_join(game.library_path@, "steamapps/common"@),
            r.manifest_link@ == spec_join(
                r.steamapps_dir@,
                "appmanifest_"@ + spec_decimal(game.app_id as nat) + ".acf"@,
            ),
            r.manifest_target@ == spec_join(
                spec_join(game.library_path@, "steamapps"@),
                "appmanifest_"@ + spec_decimal(game.app_id as nat) + ".acf"@,
            ),
            r.vdf_path@ == spec_join(r.steamapps_dir@, "libraryfolders.vdf"@),
    {
        let steamapps = join(
            self.prefix.path.as_str(),
            "pfx/drive_c/Program Files (x86)/Steam/steamapps",
        );
        let mut m: Vec<char> = Vec::new();
        push_str(&mut m, "appmanifest_");
        crate::text::push_decimal(&mut m, game.app_id as u64);
        push_str(&mut m, ".acf");
        assert(m@ =~= "appmanifest_"@ + spec_decimal(game.app_id as nat) + ".acf"@);
        let manifest = string_from_chars(m.as_slice());
        let lib_steamapps = join(game.library_path.as_str(), "steamapps");
        SteamLibraryLayout {
            common_link: join(steamapps.as_str(), "common"),
            common_target: join(game.library_path.as_str(), "steamapps/common"),
            manifest_link: join(steamapps.as_str(), manifest.as_str()),
            manifest_target: join(lib_steamapps.as_str(), manifest.as_str()),
            vdf_path: join(steamapps.as_str(), "libraryfolders.vdf"),
            steamapps_dir: steamapps,
        }
    }

    /// The `user.reg` text that tells WeMod where Steam is (`HKCU\Software\Valve\Steam`) and
    /// that the game is installed, stamped `ts`; `None` when there is no `user.reg` or it
    /// already has the Steam key.
    pub fn steam_registry_addition(game: &SteamApp, user_reg: &Option<String>, ts: u64) -> (r:
        Option<String>)
        ensures
            opt_view(r) == spec_registry_addition(
                opt_view(*user_reg),
                spec_steam_registry_text(ts as nat, game.app_id as nat, spec_reg_name(game.name@)),
                "[Software\\\\Valve\\\\Steam]"@,
            ),
    {
        match user_reg {
            None => None,
            Some(c) => {
                if str_contains(c.as_str(), "[Software\\\\Valve\\\\Steam]") {
                    return None;
                }
                let n1 = replace_char(game.name.as_str(), '\\', "\\\\");
                let n2 = replace_char(n1.as_str(), '"', "");
                Some(steam_registry_text(ts, game.app_id, n2.as_str()))
            },
        }
    }

    /// The batch file that `steam://run` requests are routed to, which starts the game in
    /// WeMod's Wine session, and its path (`C:\wanda\steam_proxy.bat` in the prefix).
    pub fn steam_proxy_batch(&self, game: &SteamApp, game_exe: &str) -> (r: (String, String))
        ensures
            r.0@ == spec_join(
                spec_join(spec_join(self.spec_prefix().path@, "pfx"@), "drive_c/wanda"@),
                "steam_proxy.bat"@,
            ),
            r.1@ == spec_proxy_batch_text(
                game.name@,
                game.app_id as nat,
                spec_game_windows_path(game.library_path@, game_exe@),
            ),
    {
        let pfx = join(self.prefix.path.as_str(), "pfx");
        let dir = join(pfx.as_str(), "drive_c/wanda");
        let path = join(dir.as_str(), "steam_proxy.bat");
        let game_path = Self::game_windows_path(game, game_exe);
        (path, proxy_batch_text(game.name.as_str(), game.app_id, game_path.as_str()))
    }

    /// The `user.reg` text that routes the `steam://` protocol to the proxy batch file,
    /// stamped `ts`; `None` when there is no `user.reg` or it already routes there.
    pub fn protocol_override_addition(user_reg: &Option<String>, ts: u64) -> (r: Option<String>)
        ensures
            opt_view(r) == spec_registry_addition(
                opt_view(*user_reg),
                spec_protocol_override_text(ts as nat),
                "wanda\\\\steam_proxy.bat"@,
            ),
    {
        match user_reg {
            None => None,
            Some(c) => {
                if str_contains(c.as_str(), "wanda\\\\steam_proxy.bat") {
                    return None;
                }
                Some(protocol_override_text(ts))
            },
        }
    }

    /// The shell command that runs `target` (a Wine path) through the Proton script.
    pub fn launch_command(&self, target: &str) -> (r: String)
        ensures
            r@ == spec_proton_command(self.spec_proton().path@, target@),
    {
        let exe = self.proton.proton_exe();
        let mut v: Vec<char> = Vec::new();
        push_str(&mut v, "cd \"");
        push_str(&mut v, self.proton.path.as_str());
        push_str(&mut v, "\" && \"");
        push_str(&mut v, exe.as_str());
        push_str(&mut v, "\" waitforexitandrun \"");
        push_str(&mut v, target);
        push_str(&mut v, "\"");
        assert(v@ =~= spec_proton_command(self.proton.path@, target@));
        string_from_chars(v.as_slice())
    }

    /// The shell command that runs the game alone through the Proton script, with its
    /// arguments.
    pub fn direct_launch_command(&self, game_exe: &str, args: &Vec<String>) -> (r: String)
        ensures
            r@ == spec_proton_command(self.spec_proton().path@, spec_to_wine_path(game_exe@))
                + " "@ + spec_join_strs(strings_view(args@), " "@),
    {
        let target = Self::to_wine_path(game_exe);
        let cmd = self.launch_command(target.as_str());
        let joined = join_strings(args, " ");
        let mut v: Vec<char> = Vec::new();
        push_str(&mut v, cmd.as_str());
        push_str(&mut v, " ");
        push_str(&mut v, joined.as_str());
        assert(v@ =~= cmd@ + " "@ + joined@);
        string_from_chars(v.as_slice())
    }

    /// The places the game's executable is looked for first, in order (see
    /// `spec_exe_candidates`).
    pub fn exe_candidates(game: &SteamApp) -> (r: Vec<String>)
        ensures
            strings_view(r@) == spec_exe_candidates(game.install_path@, game.install_dir@),
    {
        let lower = to_lowercase(game.install_dir.as_str());
        let normalized = replace_char(lower.as_str(), ' ', "");
        let mut p0: Vec<char> = Vec::new();
        push_str(&mut p0, game.install_dir.as_str());
        push_str(&mut p0, ".exe");
        let mut p1: Vec<char> = Vec::new();
        push_str(&mut p1, normalized.as_str());
        push_str(&mut p1, ".exe");
        assert(p0@ =~= game.install_dir@ + ".exe"@);
        assert(p1@ =~= spec_normalized_name(game.install_dir@) + ".exe"@);
        let mut patterns: Vec<String> = Vec::new();
        patterns.push(string_from_chars(p0.as_slice()));
        patterns.push(string_from_chars(p1.as_slice()));
        patterns.push(string_of("game.exe"));
        patterns.push(string_of("start.exe"));
        patterns.push(string_of("launcher.exe"));
        let ip = game.install_path.as_str();
        let mut dirs: Vec<String> = Vec::new();
        dirs.push(string_of(ip));
        dirs.push(join(ip, "Game"));
        dirs.push(join(ip, "game"));
        dirs.push(join(ip, "Bin"));
        dirs.push(join(ip, "bin"));
        let ghost want = spec_exe_candidates(game.install_path@, game.install_dir@);
        assert(forall|k: int| 0 <= k < 5 ==> #[trigger] strings_view(patterns@)[k] == seq![
            game.install_dir@ + ".exe"@,
            spec_normalized_name(game.install_dir@) + ".exe"@,
            "game.exe"@,
            "start.exe"@,
            "launcher.exe"@,
        ][k]);
        let mut r: Vec<String> = Vec::new();
        for i in 0..25
            invariant
                r@.len() == i,
                patterns@.len() == 5,
                dirs@.len() == 5,
                want == spec_exe_candidates(game.install_path@, game.install_dir@),
                forall|k: int| 0 <= k < 5 ==> #[trigger] patterns@[k]@ == seq![
                    game.install_dir@ + ".exe"@,
                    spec_normalized_name(game.install_dir@) + ".exe"@,
                    "game.exe"@,
                    "start.exe"@,
                    "launcher.exe"@,
                ][k],
                forall|k: int| 0 <= k < 5 ==> #[trigger] dirs@[k]@ == seq![
                    game.install_path@,
                    spec_join(game.install_path@, "Game"@),
                    spec_join(game.install_path@, "game"@),
                    spec_join(game.install_path@, "Bin"@),
                    spec_join(game.install_path@, "bin"@),
                ][k],
                forall|m: int| 0 <= m < i ==> #[trigger] r@[m]@ == want[m],
        {
            let d = &dirs[i % 5];
            let p = &patterns[i / 5];
            r.push(join(d.as_str(), p.as_str()));
        }
        assert(strings_view(r@) =~= want);
        r
    }

    /// The game's executable (see `spec_game_exe`), given whether its install directory
    /// exists, whether each of `exe_candidates` exists, and the paths found walking the
    /// install directory three levels deep. `GameNotFound` when the install directory is
    /// missing, `LaunchFailed` when nothing fits.
    pub fn find_game_executable(
        &self,
        game: &SteamApp,
        install_exists: bool,
        exists: &Vec<bool>,
        walked: &Vec<String>,
    ) -> (r: Result<String, WandaError>)
        ensures
            !install_exists ==> (r matches Err(WandaError::GameNotFound { app_id }) && app_id
                == game.app_id),
            install_exists ==> match spec_game_exe(
                game.install_path@,
                game.install_dir@,
                exists@,
                strings_view(walked@),
            ) {
                Some(p) => r matches Ok(e) && e@ == p,
                None => r matches Err(WandaError::LaunchFailed { reason }) && reason@
                    == "Could not find executable for "@ + game.name@,
            },
    {
        if !install_exists {
            return Err(WandaError::GameNotFound { app_id: game.app_id });
        }
        let cands = Self::exe_candidates(game);
        let ghost cv = strings_view(cands@);
        let mut i: usize = 0;
        while i < cands.len()
            invariant
                i <= cands@.len(),
                install_exists,
                cv == strings_view(cands@),
                cv == spec_exe_candidates(game.install_path@, game.install_dir@),
                first_existing(cv, exists@, 0) == first_existing(cv, exists@, i as int),
            decreases cands.len() - i,
        {
            if i < exists.len() && exists[i] {
                return Ok(string_of(cands[i].as_str()));
            }
            i = i + 1;
        }
        let lower = to_lowercase(game.install_dir.as_str());
        let normalized = replace_char(lower.as_str(), ' ', "");
        let ghost wv = strings_view(walked@);
        let mut j: usize = 0;
        while j < walked.len()
            invariant
                j <= walked@.len(),
                install_exists,
                first_existing(spec_exe_candidates(game.install_path@, game.install_dir@), exists@, 0) is None,
                wv == strings_view(walked@),
                normalized@ == spec_normalized_name(game.install_dir@),
                first_named_exe(wv, normalized@, 0) == first_named_exe(wv, normalized@, j as int),
            decreases walked.len() - j,
        {
            let p = walked[j].as_str();
            if is_exe(p) {
                let n = lower_file_name(p);
                if !is_excluded(n.as_str()) && str_contains(n.as_str(), normalized.as_str()) {
                    return Ok(string_of(p));
                }
            }
            j = j + 1;
        }
        let mut k: usize = 0;
        while k < walked.len()
            invariant
                k <= walked@.len(),
                install_exists,
                first_existing(spec_exe_candidates(game.install_path@, game.install_dir@), exists@, 0) is None,
                wv == strings_view(walked@),
                first_named_exe(wv, spec_normalized_name(game.install_dir@), 0) is None,
                first_usable_exe(wv, 0) == first_usable_exe(wv, k as int),
            decreases walked.len() - k,
        {
            let p = walked[k].as_str();
            if is_exe(p) {
                let n = lower_file_name(p);
                if !is_excluded(n.as_str()) {
                    return Ok(string_of(p));
                }
            }
            k = k + 1;
        }
        let mut v: Vec<char> = Vec::new();
        push_str(&mut v, "Could not find executable for ");
        push_str(&mut v, game.name.as_str());
        Err(WandaError::LaunchFailed { reason: string_from_chars(v.as_slice()) })
    }
}

} // verus!
