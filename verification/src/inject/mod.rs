//! Wrapping a game's Steam launch (`wanda inject %command%`): WeMod is linked into the game's
//! own Proton prefix and started there, and the game is started from WeMod in the same Wine
//! session.

pub mod scripts;

use vstd::prelude::*;
use crate::config::opt_view;
use crate::env::{EnvVars, env_insert};
use crate::error::WandaError;
use crate::launcher::{spec_z_path, GameLauncher};
use crate::paths::{file_name, join, parent, spec_file_name, spec_join, spec_parent};
use crate::prefix::manager::DirEntryInfo;
use crate::text::{
    chars_of, find_chars, find_from, occurs_at, parse_u32, push_str, replace_char, spec_contains,
    spec_decimal, spec_find, spec_lowercase, spec_parse_u32, spec_replace_char, spec_starts_with, str_contains, str_eq,
    str_lt, str_starts_with, string_from_chars, string_of, to_lowercase,
};

verus! {

/// `format!("{:?}", args)` for a list of strings: the strings quoted and escaped the way
/// `Debug` does it, between brackets and separated by `, `.
pub uninterp spec fn spec_debug_list(args: Seq<Seq<char>>) -> Seq<char>;

/// `Debug` formatting of a list of strings (std's `{:?}`): the result is `spec_debug_list`
/// of the strings, a function of them alone.
#[verifier::external_body]
fn debug_list(args: &Vec<String>) -> (r: String)
    ensures
        r@ == spec_debug_list(args@.map_values(|s: String| s@)),
{
    format!("{:?}", args)
}

/// The views of a list of strings.
pub open spec fn views(v: Seq<String>) -> Seq<Seq<char>> {
    v.map_values(|s: String| s@)
}

/// The position of the last argument at or before `i` that is an existing file named
/// `proton` (`exists[k]` tells whether argument `k` exists on disk).
pub open spec fn last_proton(args: Seq<Seq<char>>, exists: Seq<bool>, i: int) -> Option<int>
    decreases i + 1,
{
    if i < 0 || i >= args.len() {
        None
    } else if spec_file_name(args[i]) == Some("proton"@) && i < exists.len() && exists[i] {
        Some(i)
    } else {
        last_proton(args, exists, i - 1)
    }
}

/// An entry of the directory that holds the game's executable.
#[derive(Debug, Clone)]
pub struct SiblingExe {
    /// Its path.
    pub path: String,
    /// Whether it is a regular file.
    pub is_file: bool,
    /// Its size in bytes (0 when it cannot be read).
    pub size: u64,
}

/// A lower-cased file name of an anti-cheat launcher.
pub open spec fn spec_is_anticheat(n: Seq<char>) -> bool {
    spec_contains(n, "start_protected"@) || spec_contains(n, "easyanticheat"@) || spec_contains(
        n,
        "battleye"@,
    ) || spec_contains(n, "eac_"@)
}

/// A lower-cased file name of an anti-cheat launcher, installer or other tool that is not
/// the game.
pub open spec fn spec_not_game(n: Seq<char>) -> bool {
    spec_is_anticheat(n) || spec_contains(n, "unins"@) || spec_contains(n, "crash"@)
        || spec_contains(n, "report"@) || spec_contains(n, "redist"@) || spec_contains(
        n,
        "setup"@,
    ) || spec_contains(n, "dxsetup"@) || spec_contains(n, "vcredist"@) || spec_contains(
        n,
        "dotnet"@,
    ) || spec_contains(n, "directx"@) || spec_contains(n, "ue4prereq"@) || spec_contains(
        n,
        "installer"@,
    ) || spec_contains(n, "updater"@)
}

/// A lower-cased file name containing `start_protected`, `easyanticheat`, `battleye` or
/// `eac_` is that of an anti-cheat launcher.
pub proof fn lemma_anticheat_names(n: Seq<char>)
    requires
        spec_contains(n, "start_protected"@)
            || spec_contains(n, "easyanticheat"@)
            || spec_contains(n, "battleye"@)
            || spec_contains(n, "eac_"@),
    ensures
        spec_is_anticheat(n),
{
}

/// A lower-cased file name containing any of the anti-cheat words or `unins`, `crash`,
/// `report`, `redist`, `setup`, `dxsetup`, `vcredist`, `dotnet`, `directx`, `ue4prereq`,
/// `installer` or `updater` is not the game: such a file is never taken as the real game.
pub proof fn lemma_tool_names_not_game(n: Seq<char>)
    requires
        spec_contains(n, "start_protected"@)
            || spec_contains(n, "easyanticheat"@)
            || spec_contains(n, "battleye"@)
            || spec_contains(n, "eac_"@)
            || spec_contains(n, "unins"@)
            || spec_contains(n, "crash"@)
            || spec_contains(n, "report"@)
            || spec_contains(n, "redist"@)
            || spec_contains(n, "setup"@)
            || spec_contains(n, "dxsetup"@)
            || spec_contains(n, "vcredist"@)
            || spec_contains(n, "dotnet"@)
            || spec_contains(n, "directx"@)
            || spec_contains(n, "ue4prereq"@)
            || spec_contains(n, "installer"@)
            || spec_contains(n, "updater"@),
    ensures
        spec_not_game(n),
{
}

/// A sibling that may be the real game: an `.exe` file that is not a tool.
pub open spec fn is_game_candidate(s: SiblingExe) -> bool {
    crate::launcher::spec_is_exe(s.path@) && s.is_file && !spec_not_game(
        crate::launcher::spec_lower_file_name(s.path@),
    )
}

/// The largest candidate among `sibs` (the first of equal size).
pub open spec fn spec_largest(sibs: Seq<SiblingExe>) -> Option<int>
    decreases sibs.len(),
{
    if sibs.len() == 0 {
        None
    } else {
        let b = spec_largest(sibs.drop_last());
        let i = sibs.len() - 1;
        if is_game_candidate(sibs[i]) && (b is None || sibs[b->0].size < sibs[i].size) {
            Some(i)
        } else {
            b
        }
    }
}

/// `spec_largest` picks a candidate at least as large as every candidate, and larger than
/// every candidate before it; it picks nothing only when there is no candidate.
proof fn lemma_largest(sibs: Seq<SiblingExe>)
    ensures
        match spec_largest(sibs) {
            Some(i) => 0 <= i < sibs.len() && is_game_candidate(sibs[i]) && (forall|j: int|
                0 <= j < sibs.len() && is_game_candidate(#[trigger] sibs[j]) ==> sibs[j].size
                    <= sibs[i].size) && (forall|j: int|
                0 <= j < i && is_game_candidate(#[trigger] sibs[j]) ==> sibs[j].size < sibs[i].size),
            None => forall|j: int| 0 <= j < sibs.len() ==> !is_game_candidate(#[trigger] sibs[j]),
        },
    decreases sibs.len(),
{
    if sibs.len() > 0 {
        let d = sibs.drop_last();
        let n = sibs.len() - 1;
        lemma_largest(d);
        assert forall|j: int| 0 <= j < d.len() implies #[trigger] d[j] == sibs[j] by {}
        let b = spec_largest(d);
        let e = sibs[n];
        if is_game_candidate(e) && (b is None || sibs[b->0].size < e.size) {
            assert(spec_largest(sibs) == Some(n));
            assert forall|j: int| 0 <= j < sibs.len() && is_game_candidate(#[trigger] sibs[j])
                implies sibs[j].size <= sibs[n].size by {
                if j < n {
                    assert(is_game_candidate(d[j]));
                }
            }
            assert forall|j: int| 0 <= j < n && is_game_candidate(#[trigger] sibs[j]) implies
                sibs[j].size < sibs[n].size by {
                assert(is_game_candidate(d[j]));
            }
        } else {
            assert(spec_largest(sibs) == b);
            match b {
                Some(i) => {
                    assert forall|j: int| 0 <= j < sibs.len() && is_game_candidate(
                        #[trigger] sibs[j],
                    ) implies sibs[j].size <= sibs[i].size by {
                        if j < n {
                            assert(is_game_candidate(d[j]));
                        }
                    }
                    assert forall|j: int| 0 <= j < i && is_game_candidate(#[trigger] sibs[j])
                        implies sibs[j].size < sibs[i].size by {
                        assert(is_game_candidate(d[j]));
                    }
                },
                None => {
                    assert forall|j: int| 0 <= j < sibs.len() implies !is_game_candidate(
                        #[trigger] sibs[j],
                    ) by {
                        if j < n {
                            assert(!is_game_candidate(d[j]));
                        }
                    }
                },
            }
        }
    }
}

/// The real game found behind an anti-cheat launcher is one of the `.exe` files beside it
/// that is no tool, and the largest of them: every other such file is at most as large,
/// and every one listed before it is smaller. When the launcher has such files beside it,
/// one is found.
pub proof fn lemma_real_game_exe_is_largest(exe: Seq<char>, sibs: Seq<SiblingExe>)
    ensures
        spec_real_game_exe(exe, sibs) matches Some(p) ==> exists|i: int|
            0 <= i < sibs.len() && #[trigger] sibs[i].path@ == p && {
                &&& crate::launcher::spec_is_exe(sibs[i].path@)
                &&& sibs[i].is_file
                &&& !spec_not_game(crate::launcher::spec_lower_file_name(sibs[i].path@))
                &&& forall|j: int|
                    0 <= j < sibs.len() && is_game_candidate(#[trigger] sibs[j]) ==> sibs[j].size
                        <= sibs[i].size
                &&& forall|j: int|
                    0 <= j < i && is_game_candidate(#[trigger] sibs[j]) ==> sibs[j].size
                        < sibs[i].size
            },
        (spec_file_name(exe) matches Some(n) && spec_is_anticheat(spec_lowercase(n))
            && spec_parent(exe) is Some && exists|j: int|
            0 <= j < sibs.len() && is_game_candidate(#[trigger] sibs[j])) ==> spec_real_game_exe(
            exe,
            sibs,
        ) is Some,
{
    lemma_largest(sibs);
    if let Some(i) = spec_largest(sibs) {
        assert(sibs[i].path@ == sibs[i].path@);
    }
}

/// The real game behind an anti-cheat launcher: when Steam starts `start_protected_game.exe`
/// or the like, the largest other `.exe` file beside it; `None` when the executable is not such
/// a launcher (or nothing else fits).
pub open spec fn spec_real_game_exe(exe: Seq<char>, sibs: Seq<SiblingExe>) -> Option<Seq<char>> {
    match spec_file_name(exe) {
        None => None,
        Some(n) => if !spec_is_anticheat(spec_lowercase(n)) || spec_parent(exe) is None {
            None
        } else {
            match spec_largest(sibs) {
                Some(i) => Some(sibs[i].path@),
                None => None,
            }
        },
    }
}

/// What is read from Steam's launch command.
#[derive(Debug, Clone)]
pub struct ParsedCommand {
    /// The Proton build's directory.
    pub proton_dir: String,
    /// The executable Steam starts.
    pub game_exe: String,
    /// The real game executable (past an anti-cheat launcher).
    pub real_game_exe: String,
    /// Where the game executable stands in the command.
    pub game_exe_idx: usize,
}

/// Whether a lower-cased file name is that of an anti-cheat launcher.
pub fn is_anticheat(n: &str) -> (r: bool)
    ensures
        r == spec_is_anticheat(n@),
{
    str_contains(n, "start_protected") || str_contains(n, "easyanticheat") || str_contains(
        n,
        "battleye",
    ) || str_contains(n, "eac_")
}

/// Whether a lower-cased file name is that of a tool that is not the game.
pub fn is_not_game(n: &str) -> (r: bool)
    ensures
        r == spec_not_game(n@),
{
    is_anticheat(n) || str_contains(n, "unins") || str_contains(n, "crash") || str_contains(
        n,
        "report",
    ) || str_contains(n, "redist") || str_contains(n, "setup") || str_contains(n, "dxsetup")
        || str_contains(n, "vcredist") || str_contains(n, "dotnet") || str_contains(n, "directx")
        || str_contains(n, "ue4prereq") || str_contains(n, "installer") || str_contains(
        n,
        "updater",
    )
}

/// The real game behind an anti-cheat launcher (see `spec_real_game_exe`), given the `.exe`
/// files beside it.
pub fn find_real_game_exe(steam_game_exe: &str, siblings: &Vec<SiblingExe>) -> (r: Option<String>)
    ensures
        opt_view(r) == spec_real_game_exe(steam_game_exe@, siblings@),
{
    let name = match file_name(steam_game_exe) {
        Some(n) => to_lowercase(n.as_str()),
        None => return None,
    };
    if !is_anticheat(name.as_str()) {
        return None;
    }
    if parent(steam_game_exe).is_none() {
        return None;
    }
    let mut best: Option<usize> = None;
    for i in 0..siblings.len()
        invariant
            best == (match spec_largest(siblings@.take(i as int)) {
                Some(k) => Some(k as usize),
                None => None::<usize>,
            }),
            forall|k: int| spec_largest(siblings@.take(i as int)) == Some(k) ==> 0 <= k < i,
    {
        proof {
            assert(siblings@.take(i + 1).drop_last() =~= siblings@.take(i as int));
            assert(siblings@.take(i + 1)[i as int] == siblings@[i as int]);
            if let Some(k) = spec_largest(siblings@.take(i as int)) {
                assert(siblings@.take(i + 1)[k] == siblings@[k]);
            }
        }
        let s = &siblings[i];
        let lname = crate::launcher::lower_file_name(s.path.as_str());
        if crate::launcher::is_exe(s.path.as_str()) && s.is_file && !is_not_game(lname.as_str()) {
            let better = match best {
                None => true,
                Some(b) => siblings[b].size < s.size,
            };
            if better {
                best = Some(i);
            }
        }
    }
    proof {
        assert(siblings@.take(siblings@.len() as int) =~= siblings@);
    }
    match best {
        Some(b) => Some(string_of(siblings[b].path.as_str())),
        None => None,
    }
}

/// Where the Proton script stands in Steam's command: the last argument that is an existing
/// file named `proton`.
pub fn proton_script_index(raw_args: &Vec<String>, exists: &Vec<bool>) -> (r: Option<usize>)
    ensures
        match r {
            Some(i) => last_proton(views(raw_args@), exists@, raw_args@.len() - 1) == Some(
                i as int,
            ) && i < raw_args@.len(),
            None => last_proton(views(raw_args@), exists@, raw_args@.len() - 1) is None,
        },
{
    let ghost av = views(raw_args@);
    let n = raw_args.len();
    let mut i: usize = n;
    while i > 0
        invariant
            i <= n,
            n == raw_args@.len(),
            av == views(raw_args@),
            last_proton(av, exists@, n - 1) == last_proton(av, exists@, i - 1),
        decreases i,
    {
        let a = raw_args[i - 1].as_str();
        let is_proton = match file_name(a) {
            Some(f) => str_eq(f.as_str(), "proton"),
            None => false,
        };
        if is_proton && i - 1 < exists.len() && exists[i - 1] {
            return Some(i - 1);
        }
        i = i - 1;
    }
    None
}

/// What parsing Steam's launch command gives: the Proton script is the last existing file
/// named `proton`; its directory is the Proton build; the argument after it is the verb and
/// the one after that the game; errors say which part is missing.
pub open spec fn spec_parse_command(
    args: Seq<Seq<char>>,
    exists: Seq<bool>,
    sibs: Seq<SiblingExe>,
) -> Result<(Seq<char>, Seq<char>, Seq<char>, int), Seq<char>> {
    match last_proton(args, exists, args.len() - 1) {
        None => Err("Could not find Proton script in command args: "@ + spec_debug_list(args)),
        Some(p) => match spec_parent(args[p]) {
            None => Err("Cannot determine Proton directory from: "@ + args[p]),
            Some(dir) => if p + 1 >= args.len() {
                Err("No verb found after Proton script"@)
            } else if p + 2 >= args.len() {
                Err("No game executable found after Proton verb"@)
            } else {
                let game = args[p + 2];
                let real_exe = match spec_real_game_exe(game, sibs) {
                    Some(r) => r,
                    None => game,
                };
                Ok((dir, game, real_exe, p + 2))
            },
        },
    }
}

/// Parses Steam's launch command (see `spec_parse_command`), given which arguments exist on
/// disk and the `.exe` files beside the game executable.
pub fn parse_command(raw_args: &Vec<String>, exists: &Vec<bool>, siblings: &Vec<SiblingExe>) -> (r:
    Result<ParsedCommand, WandaError>)
    ensures
        match spec_parse_command(views(raw_args@), exists@, siblings@) {
            Ok((dir, game, real_exe, idx)) => r matches Ok(p) && p.proton_dir@ == dir
                && p.game_exe@ == game && p.real_game_exe@ == real_exe && p.game_exe_idx == idx,
            Err(m) => r matches Err(WandaError::LaunchFailed { reason }) && reason@ == m,
        },
{
    let idx = match proton_script_index(raw_args, exists) {
        Some(i) => i,
        None => {
            let d = debug_list(raw_args);
            let mut v: Vec<char> = Vec::new();
            push_str(&mut v, "Could not find Proton script in command args: ");
            push_str(&mut v, d.as_str());
            return Err(WandaError::LaunchFailed { reason: string_from_chars(v.as_slice()) });
        },
    };
    assert(views(raw_args@)[idx as int] == raw_args@[idx as int]@);
    let proton_exe = raw_args[idx].as_str();
    let proton_dir = match parent(proton_exe) {
        Some(d) => d,
        None => {
            let mut v: Vec<char> = Vec::new();
            push_str(&mut v, "Cannot determine Proton directory from: ");
            push_str(&mut v, proton_exe);
            return Err(WandaError::LaunchFailed { reason: string_from_chars(v.as_slice()) });
        },
    };
    if raw_args.len() - idx <= 1 {
        return Err(
            WandaError::LaunchFailed { reason: string_of("No verb found after Proton script") },
        );
    }
    if raw_args.len() - idx <= 2 {
        return Err(
            WandaError::LaunchFailed {
                reason: string_of("No game executable found after Proton verb"),
            },
        );
    }
    let game_idx = idx + 2;
    assert(views(raw_args@)[game_idx as int] == raw_args@[game_idx as int]@);
    let game_exe = string_of(raw_args[game_idx].as_str());
    let real_game_exe = match find_real_game_exe(game_exe.as_str(), siblings) {
        Some(r) => r,
        None => string_of(game_exe.as_str()),
    };
    Ok(ParsedCommand { proton_dir, game_exe, real_game_exe, game_exe_idx: game_idx })
}

/// The WeMod directories of WANDA's default prefix under `prefix_base`: WeMod 11's, then
/// WeMod 12's ("Wand").
pub open spec fn spec_wanda_wemod_dirs(prefix_base: Seq<char>) -> (Seq<char>, Seq<char>) {
    let d = spec_join(prefix_base, "default"@);
    (
        spec_join(d, "pfx/drive_c/users/steamuser/AppData/Local/WeMod"@),
        spec_join(d, "pfx/drive_c/users/steamuser/AppData/Local/Wand"@),
    )
}

/// The WeMod directories of WANDA's default prefix (see `spec_wanda_wemod_dirs`).
pub fn wanda_wemod_dirs(prefix_base: &str) -> (r: (String, String))
    ensures
        (r.0@, r.1@) == spec_wanda_wemod_dirs(prefix_base@),
{
    let d = join(prefix_base, "default");
    (
        join(d.as_str(), "pfx/drive_c/users/steamuser/AppData/Local/WeMod"),
        join(d.as_str(), "pfx/drive_c/users/steamuser/AppData/Local/Wand"),
    )
}

/// WeMod in WANDA's default prefix: WeMod 11's directory when it exists, else WeMod 12's;
/// `WemodNotInstalled` when neither does.
pub fn find_wanda_wemod(prefix_base: &str, wemod_exists: bool, wand_exists: bool) -> (r: Result<
    String,
    WandaError,
>)
    ensures
        wemod_exists ==> (r matches Ok(p) && p@ == spec_wanda_wemod_dirs(prefix_base@).0),
        !wemod_exists && wand_exists ==> (r matches Ok(p) && p@ == spec_wanda_wemod_dirs(
            prefix_base@,
        ).1),
        !wemod_exists && !wand_exists ==> r matches Err(WandaError::WemodNotInstalled),
{
    let (wemod, wand) = wanda_wemod_dirs(prefix_base);
    if wemod_exists {
        return Ok(wemod);
    }
    if wand_exists {
        return Ok(wand);
    }
    Err(WandaError::WemodNotInstalled)
}

/// `s` with every leading `p` removed (`str::trim_start_matches`).
pub open spec fn spec_trim_start_matches(s: Seq<char>, p: Seq<char>) -> Seq<char>
    decreases s.len(),
{
    if p.len() > 0 && spec_starts_with(s, p) {
        spec_trim_start_matches(s.skip(p.len() as int), p)
    } else {
        s
    }
}

/// The text before the first `.` (all of `s` when there is none).
pub open spec fn spec_before_dot(s: Seq<char>) -> Seq<char> {
    match spec_find(s, "."@) {
        Some(i) => s.take(i),
        None => s,
    }
}

/// An `app-<version>` directory of WeMod 12 or later, which shows a black window under
/// Wine.
pub open spec fn is_wemod12_or_later(name: Seq<char>) -> bool {
    match spec_parse_u32(spec_before_dot(spec_trim_start_matches(name, "app-"@))) {
        Some(m) => m >= 12,
        None => false,
    }
}

/// An entry that is a usable WeMod app directory: `app-*`, a directory, before WeMod 12, and
/// holding `WeMod.exe`.
pub open spec fn is_compatible_app_dir(e: DirEntryInfo) -> bool {
    spec_starts_with(e.name@, "app-"@) && e.is_dir && !is_wemod12_or_later(e.name@)
        && e.has_wemod_exe
}

/// The highest-ordered usable WeMod app directory among `es` (the first of equal names).
pub open spec fn spec_best_compatible(es: Seq<DirEntryInfo>) -> Option<Seq<char>>
    decreases es.len(),
{
    if es.len() == 0 {
        None
    } else {
        let b = spec_best_compatible(es.drop_last());
        let e = es.last();
        if is_compatible_app_dir(e) && (b is None || crate::text::spec_lex_lt(b->0, e.name@)) {
            Some(e.name@)
        } else {
            b
        }
    }
}

proof fn lemma_best_compatible_is_entry(es: Seq<DirEntryInfo>)
    ensures
        spec_best_compatible(es) matches Some(n) ==> exists|i: int|
            0 <= i < es.len() && #[trigger] es[i].name@ == n && is_compatible_app_dir(es[i]),
    decreases es.len(),
{
    if es.len() > 0 {
        let d = es.drop_last();
        lemma_best_compatible_is_entry(d);
        if let Some(n) = spec_best_compatible(es) {
            if spec_best_compatible(d) == Some(n) && !(is_compatible_app_dir(es.last()) && (
            spec_best_compatible(d) is None || crate::text::spec_lex_lt(
                spec_best_compatible(d)->0,
                es.last().name@,
            ))) {
                let i = choose|i: int|
                    0 <= i < d.len() && #[trigger] d[i].name@ == n && is_compatible_app_dir(d[i]);
                assert(es[i] == d[i]);
            } else {
                assert(es[es.len() - 1].name@ == n);
            }
        }
    }
}

/// `app-<m>.<rest>` with a major version `m` of 12 or more is WeMod 12 or later.
pub proof fn lemma_major_12_detected(m: u32, rest: Seq<char>)
    requires
        m >= 12,
    ensures
        is_wemod12_or_later("app-"@ + spec_decimal(m as nat) + "."@ + rest),
{
    reveal_strlit("app-");
    reveal_strlit(".");
    let d = spec_decimal(m as nat);
    crate::text::lemma_decimal_digits(m as nat);
    crate::text::lemma_parse_u32_decimal(m);
    let name = "app-"@ + d + "."@ + rest;
    let t = d + "."@ + rest;
    assert(spec_starts_with(name, "app-"@)) by {
        assert(name.take(4) =~= "app-"@);
    }
    assert(name.skip(4) =~= t);
    assert(!spec_starts_with(t, "app-"@)) by {
        assert(crate::text::spec_is_digit(d[0]));
        assert(t[0] == d[0]);
        if spec_starts_with(t, "app-"@) {
            assert(t.take(4)[0] == 'a');
        }
    }
    assert(spec_trim_start_matches(t, "app-"@) == t);
    assert(spec_trim_start_matches(name, "app-"@) == t);
    let k = d.len() as int;
    assert(occurs_at(t, "."@, k)) by {
        assert(t.subrange(k, k + 1) =~= "."@);
    }
    crate::text::lemma_find_from(t, "."@, 0);
    assert(spec_find(t, "."@) == Some(k)) by {
        match find_from(t, "."@, 0) {
            Some(j) => {
                if j < k {
                    assert(t.subrange(j, j + 1)[0] == t[j]);
                    assert(t[j] == d[j]);
                    assert(crate::text::spec_is_digit(d[j]));
                }
            },
            None => {},
        }
    }
    assert(spec_before_dot(t) =~= d);
}

/// WeMod 12 and later are never chosen: the app directory picked is an `app-*` directory
/// holding `WeMod.exe`, and its name is not `app-<m>.<rest>` for any major version
/// `m >= 12`.
pub proof fn lemma_wemod12_never_chosen(es: Seq<DirEntryInfo>)
    ensures
        spec_best_compatible(es) matches Some(n) ==> {
            &&& exists|i: int|
                0 <= i < es.len() && #[trigger] es[i].name@ == n && es[i].is_dir
                    && es[i].has_wemod_exe
            &&& spec_starts_with(n, "app-"@)
            &&& forall|m: u32, rest: Seq<char>|
                m >= 12 ==> n != #[trigger] ("app-"@ + spec_decimal(m as nat) + "."@ + rest)
        },
{
    lemma_best_compatible_is_entry(es);
    if let Some(n) = spec_best_compatible(es) {
        assert forall|m: u32, rest: Seq<char>|
            m >= 12 implies n != #[trigger] ("app-"@ + spec_decimal(m as nat) + "."@ + rest) by {
            lemma_major_12_detected(m, rest);
        }
    }
}


/// `s` with every leading `p` removed.
fn trim_start_matches(s: &str, p: &str) -> (r: String)
    requires
        p@.len() > 0,
    ensures
        r@ == spec_trim_start_matches(s@, p@),
{
    let mut cur = string_of(s);
    while str_starts_with(cur.as_str(), p)
        invariant
            p@.len() > 0,
            spec_trim_start_matches(s@, p@) == spec_trim_start_matches(cur@, p@),
        decreases cur@.len(),
    {
        cur = match crate::text::strip_prefix_str(cur.as_str(), p) {
            Some(t) => t,
            None => cur,
        };
    }
    cur
}

/// Whether an `app-<version>` name is WeMod 12 or later.
pub fn wemod12_or_later(name: &str) -> (r: bool)
    ensures
        r == is_wemod12_or_later(name@),
{
    proof {
        reveal_strlit("app-");
    }
    let v = trim_start_matches(name, "app-");
    let cs = chars_of(v.as_str());
    let dot = chars_of(".");
    proof {
        crate::text::lemma_find_from(cs@, dot@, 0);
    }
    let major = match find_chars(&cs, &dot) {
        Some(i) => {
            let mut m: Vec<char> = Vec::new();
            let mut j: usize = 0;
            while j < i
                invariant
                    j <= i,
                    i <= cs@.len(),
                    m@ == cs@.take(j as int),
                decreases i - j,
            {
                m.push(cs[j]);
                j = j + 1;
                assert(m@ =~= cs@.take(j as int));
            }
            string_from_chars(m.as_slice())
        },
        None => v,
    };
    match parse_u32(major.as_str()) {
        Some(m) => m >= 12,
        None => false,
    }
}

/// The highest-ordered usable WeMod app directory (see `spec_best_compatible`).
pub fn best_compatible_app(entries: &Vec<DirEntryInfo>) -> (r: Option<String>)
    ensures
        opt_view(r) == spec_best_compatible(entries@),
{
    let mut best: Option<String> = None;
    for i in 0..entries.len()
        invariant
            opt_view(best) == spec_best_compatible(entries@.take(i as int)),
    {
        proof {
            assert(entries@.take(i + 1).drop_last() =~= entries@.take(i as int));
            assert(entries@.take(i + 1).last() == entries@[i as int]);
        }
        let e = &entries[i];
        if str_starts_with(e.name.as_str(), "app-") && e.is_dir && !wemod12_or_later(
            e.name.as_str(),
        ) && e.has_wemod_exe {
            let better = match &best {
                None => true,
                Some(b) => str_lt(b.as_str(), e.name.as_str()),
            };
            if better {
                best = Some(string_of(e.name.as_str()));
            }
        }
    }
    proof {
        assert(entries@.take(entries@.len() as int) =~= entries@);
    }
    best
}

/// The real WeMod executable in a WeMod directory: `WeMod.exe` in its highest-ordered usable
/// `app-*` directory (WeMod 12 and later are skipped).
pub fn find_wemod_app_exe(wemod_dir: &str, entries: &Vec<DirEntryInfo>) -> (r: Option<String>)
    ensures
        match spec_best_compatible(entries@) {
            Some(n) => r matches Some(p) && p@ == spec_join(spec_join(wemod_dir@, n), "WeMod.exe"@),
            None => r is None,
        },
{
    match best_compatible_app(entries) {
        Some(n) => Some(join(join(wemod_dir, n.as_str()).as_str(), "WeMod.exe")),
        None => None,
    }
}

/// The Steam library root of a game executable: the path before `/steamapps/common/`.
pub open spec fn spec_library_root(exe: Seq<char>) -> Option<Seq<char>> {
    match spec_find(exe, "/steamapps/common/"@) {
        Some(i) => Some(exe.take(i)),
        None => None,
    }
}

/// The game's path on drive `C:` through the Steam library linked into the prefix: what
/// follows `/steamapps/common/`, with backslashes, under
/// `C:\Program Files (x86)\Steam\steamapps\common`.
pub open spec fn spec_c_drive_game_path(exe: Seq<char>) -> Option<Seq<char>> {
    match spec_find(exe, "/steamapps/common/"@) {
        Some(i) => Some(
            "C:\\Program Files (x86)\\Steam\\steamapps\\common\\"@ + spec_replace_char(
                exe.skip(i + 18),
                '/',
                "\\"@,
            ),
        ),
        None => None,
    }
}

/// The Steam library root of a game executable (see `spec_library_root`).
pub fn library_root_from_game_exe(game_exe: &str) -> (r: Option<String>)
    ensures
        opt_view(r) == spec_library_root(game_exe@),
{
    let cs = chars_of(game_exe);
    let pat = chars_of("/steamapps/common/");
    match find_chars(&cs, &pat) {
        Some(i) => {
            proof {
                crate::text::lemma_find_from(cs@, pat@, 0);
            }
            let mut m: Vec<char> = Vec::new();
            let mut j: usize = 0;
            while j < i
                invariant
                    j <= i,
                    i <= cs@.len(),
                    m@ == cs@.take(j as int),
                decreases i - j,
            {
                m.push(cs[j]);
                j = j + 1;
                assert(m@ =~= cs@.take(j as int));
            }
            Some(string_from_chars(m.as_slice()))
        },
        None => None,
    }
}

/// The game's path on drive `C:` (see `spec_c_drive_game_path`).
pub fn to_c_drive_game_path(game_exe: &str) -> (r: Option<String>)
    ensures
        opt_view(r) == spec_c_drive_game_path(game_exe@),
{
    let cs = chars_of(game_exe);
    let pat = chars_of("/steamapps/common/");
    proof {
        reveal_strlit("/steamapps/common/");
    }
    match find_chars(&cs, &pat) {
        Some(i) => {
            proof {
                crate::text::lemma_find_from(cs@, pat@, 0);
            }
            let mut rel: Vec<char> = Vec::new();
            assert(i + 18 <= cs@.len());
            assert(cs@.len() == cs.len());
            let mut j: usize = i + 18;
            while j < cs.len()
                invariant
                    i + 18 <= j <= cs@.len(),
                    rel@ == cs@.subrange(i + 18, j as int),
                decreases cs.len() - j,
            {
                rel.push(cs[j]);
                j = j + 1;
                assert(rel@ =~= cs@.subrange(i + 18, j as int));
            }
            assert(rel@ =~= cs@.skip(i + 18));
            let rs = string_from_chars(rel.as_slice());
            let b = replace_char(rs.as_str(), '/', "\\");
            let mut v: Vec<char> = Vec::new();
            push_str(&mut v, "C:\\Program Files (x86)\\Steam\\steamapps\\common\\");
            push_str(&mut v, b.as_str());
            assert(v@ =~= "C:\\Program Files (x86)\\Steam\\steamapps\\common\\"@
                + spec_replace_char(cs@.skip(i + 18), '/', "\\"@));
            Some(string_from_chars(v.as_slice()))
        },
        None => None,
    }
}

/// WeMod's path on drive `C:` inside the game's prefix, where WANDA's WeMod directory is
/// linked under the same name: `WeMod.exe` of its best usable `app-*` directory, else the
/// root `WeMod.exe` when it exists.
pub open spec fn spec_wemod_c_drive_path(
    wemod_dir: Seq<char>,
    entries: Seq<DirEntryInfo>,
    root_exe_exists: bool,
) -> Option<Seq<char>> {
    match spec_file_name(wemod_dir) {
        None => None,
        Some(d) => match spec_best_compatible(entries) {
            Some(n) => Some(
                "C:\\users\\steamuser\\AppData\\Local\\"@ + d + "\\"@ + n + "\\WeMod.exe"@,
            ),
            None => if root_exe_exists {
                Some("C:\\users\\steamuser\\AppData\\Local\\"@ + d + "\\WeMod.exe"@)
            } else {
                None
            },
        },
    }
}

/// The linked WeMod directory inside the game's prefix:
/// `pfx/drive_c/users/steamuser/AppData/Local/<name of WANDA's WeMod directory>`.
pub open spec fn spec_linked_wemod_dir(compat_data: Seq<char>, wemod_dir: Seq<char>) -> Option<
    Seq<char>,
> {
    match spec_file_name(wemod_dir) {
        Some(d) => Some(
            spec_join(spec_join(compat_data, "pfx/drive_c/users/steamuser/AppData/Local"@), d),
        ),
        None => None,
    }
}

/// WeMod's roaming data in a WANDA prefix at `prefix_path`, and where it is linked into a
/// game's prefix: the source, the directory that holds the link, and the link.
pub fn roaming_link(prefix_path: &str, compat_data: &str) -> (r: (String, String, String))
    ensures
        r.0@ == spec_join(prefix_path@, "pfx/drive_c/users/steamuser/AppData/Roaming/WeMod"@),
        r.1@ == spec_join(compat_data@, "pfx/drive_c/users/steamuser/AppData/Roaming"@),
        r.2@ == spec_join(r.1@, "WeMod"@),
{
    let src = join(prefix_path, "pfx/drive_c/users/steamuser/AppData/Roaming/WeMod");
    let dir = join(compat_data, "pfx/drive_c/users/steamuser/AppData/Roaming");
    let link = join(dir.as_str(), "WeMod");
    (src, dir, link)
}

/// The linked WeMod directory inside the game's prefix (see `spec_linked_wemod_dir`).
pub fn linked_wemod_dir(compat_data: &str, wanda_wemod_dir: &str) -> (r: Option<String>)
    ensures
        opt_view(r) == spec_linked_wemod_dir(compat_data@, wanda_wemod_dir@),
{
    match file_name(wanda_wemod_dir) {
        Some(d) => {
            let local = join(compat_data, "pfx/drive_c/users/steamuser/AppData/Local");
            Some(join(local.as_str(), d.as_str()))
        },
        None => None,
    }
}

/// WeMod's path on drive `C:` inside the game's prefix (see `spec_wemod_c_drive_path`),
/// given the entries of the linked WeMod directory and whether its root `WeMod.exe` exists.
pub fn wemod_c_drive_path(
    wanda_wemod_dir: &str,
    entries: &Vec<DirEntryInfo>,
    root_exe_exists: bool,
) -> (r: Option<String>)
    ensures
        opt_view(r) == spec_wemod_c_drive_path(wanda_wemod_dir@, entries@, root_exe_exists),
{
    let d = match file_name(wanda_wemod_dir) {
        Some(d) => d,
        None => return None,
    };
    let mut v: Vec<char> = Vec::new();
    push_str(&mut v, "C:\\users\\steamuser\\AppData\\Local\\");
    push_str(&mut v, d.as_str());
    match best_compatible_app(entries) {
        Some(n) => {
            push_str(&mut v, "\\");
            push_str(&mut v, n.as_str());
            push_str(&mut v, "\\WeMod.exe");
            assert(v@ =~= "C:\\users\\steamuser\\AppData\\Local\\"@ + d@ + "\\"@ + n@
                + "\\WeMod.exe"@);
            Some(string_from_chars(v.as_slice()))
        },
        None => {
            if root_exe_exists {
                push_str(&mut v, "\\WeMod.exe");
                assert(v@ =~= "C:\\users\\steamuser\\AppData\\Local\\"@ + d@ + "\\WeMod.exe"@);
                Some(string_from_chars(v.as_slice()))
            } else {
                None
            }
        },
    }
}

/// The paths WeMod and the game are started by from the inject batch: WeMod's `C:` path when
/// known, else the `Z:` path of the real WeMod executable in WANDA's directory (or its
/// `WeMod.exe`); the game's `C:` path when it lies in a Steam library, else its `Z:` path.
pub open spec fn spec_inject_paths(
    wemod_c: Option<Seq<char>>,
    wemod_app_exe: Option<Seq<char>>,
    wanda_wemod_dir: Seq<char>,
    game_exe: Seq<char>,
) -> (Seq<char>, Seq<char>) {
    let wemod = match wemod_c {
        Some(p) => p,
        None => match wemod_app_exe {
            Some(e) => spec_z_path(e),
            None => spec_z_path(spec_join(wanda_wemod_dir, "WeMod.exe"@)),
        },
    };
    let game = match spec_c_drive_game_path(game_exe) {
        Some(p) => p,
        None => spec_z_path(game_exe),
    };
    (wemod, game)
}

/// The inject batch and its path (`wanda_inject.bat` in the game's compatdata directory),
/// given WeMod's `C:` path (`wemod_c_drive_path`) and the real WeMod executable in WANDA's
/// directory (`find_wemod_app_exe`).
pub fn create_inject_batch(
    compat_data: &str,
    wanda_wemod_dir: &str,
    game_exe: &str,
    wemod_c: &Option<String>,
    wemod_app_exe: &Option<String>,
) -> (r: (String, String))
    ensures
        r.0@ == spec_join(compat_data@, "wanda_inject.bat"@),
        r.1@ == crate::launcher::spec_crlf(
            scripts::spec_inject_batch_text(
                spec_inject_paths(
                    opt_view(*wemod_c),
                    opt_view(*wemod_app_exe),
                    wanda_wemod_dir@,
                    game_exe@,
                ).0,
                spec_inject_paths(
                    opt_view(*wemod_c),
                    opt_view(*wemod_app_exe),
                    wanda_wemod_dir@,
                    game_exe@,
                ).1,
            ),
        ),
{
    let path = join(compat_data, "wanda_inject.bat");
    let wemod = match wemod_c {
        Some(p) => string_of(p.as_str()),
        None => match wemod_app_exe {
            Some(e) => GameLauncher::to_z_path(e.as_str()),
            None => {
                let e = join(wanda_wemod_dir, "WeMod.exe");
                GameLauncher::to_z_path(e.as_str())
            },
        },
    };
    let game = match to_c_drive_game_path(game_exe) {
        Some(p) => p,
        None => GameLauncher::to_z_path(game_exe),
    };
    let text = scripts::inject_batch_text(wemod.as_str(), game.as_str());
    (path, replace_char(text.as_str(), '\n', "\r\n"))
}

/// Where the game's Steam library is linked into its prefix so that WeMod finds the game.
#[derive(Debug, Clone)]
pub struct InjectLibraryLayout {
    /// `steamapps` of the Steam installation WeMod sees, inside the prefix.
    pub steamapps_dir: String,
    /// The library root, when the game lies in a Steam library.
    pub library_root: Option<String>,
    /// The link to the library's `steamapps/common`.
    pub common_link: String,
    /// The library's `steamapps/common` (meaningful when `library_root` is known).
    pub common_target: String,
}

/// Where the game's Steam library is linked into its prefix.
pub fn inject_library_layout(compat_data: &str, game_exe: &str) -> (r: InjectLibraryLayout)
    ensures
        r.steamapps_dir@ == spec_join(
            compat_data@,
            "pfx/drive_c/Program Files (x86)/Steam/steamapps"@,
        ),
        opt_view(r.library_root) == spec_library_root(game_exe@),
        r.common_link@ == spec_join(r.steamapps_dir@, "common"@),
        r.library_root matches Some(root) ==> r.common_target@ == spec_join(
            root@,
            "steamapps/common"@,
        ),
{
    let steamapps = join(compat_data, "pfx/drive_c/Program Files (x86)/Steam/steamapps");
    let root = library_root_from_game_exe(game_exe);
    let target = match &root {
        Some(r) => join(r.as_str(), "steamapps/common"),
        None => string_of(""),
    };
    InjectLibraryLayout {
        common_link: join(steamapps.as_str(), "common"),
        steamapps_dir: steamapps,
        library_root: root,
        common_target: target,
    }
}

/// The app manifest's file name for an app ID as Steam gave it.
pub open spec fn spec_manifest_name(app_id: Seq<char>) -> Seq<char> {
    "appmanifest_"@ + app_id + ".acf"@
}

/// The app manifest's file name for an app ID as Steam gave it.
pub fn manifest_name(app_id: &str) -> (r: String)
    ensures
        r@ == spec_manifest_name(app_id@),
{
    let mut v: Vec<char> = Vec::new();
    push_str(&mut v, "appmanifest_");
    push_str(&mut v, app_id);
    push_str(&mut v, ".acf");
    assert(v@ =~= spec_manifest_name(app_id@));
    string_from_chars(v.as_slice())
}

/// The `user.reg` text that tells WeMod where Steam is, when `user.reg` exists and has no
/// Steam key yet (`app_id` is `SteamAppId`, empty when unset).
pub fn inject_registry_addition(user_reg: &Option<String>, app_id: &str, ts: u64) -> (r: Option<
    String,
>)
    ensures
        opt_view(r) == crate::launcher::spec_registry_addition(
            opt_view(*user_reg),
            scripts::spec_inject_registry_text(ts as nat, app_id@),
            "[Software\\\\Valve\\\\Steam]"@,
        ),
{
    match user_reg {
        None => None,
        Some(c) => {
            if str_contains(c.as_str(), "[Software\\\\Valve\\\\Steam]") {
                return None;
            }
            Some(scripts::inject_registry_text(ts, app_id))
        },
    }
}

/// The proxy batch that signals the inject batch, and its path (`C:\wanda\steam_proxy.bat`
/// in the game's prefix).
pub fn inject_proxy_batch(compat_data: &str) -> (r: (String, String))
    ensures
        r.0@ == spec_join(
            spec_join(spec_join(compat_data@, "pfx"@), "drive_c/wanda"@),
            "steam_proxy.bat"@,
        ),
        r.1@ == crate::launcher::spec_crlf(scripts::spec_inject_proxy_text()),
{
    let pfx = join(compat_data, "pfx");
    let dir = join(pfx.as_str(), "drive_c/wanda");
    let path = join(dir.as_str(), "steam_proxy.bat");
    let text = scripts::inject_proxy_text();
    (path, replace_char(text.as_str(), '\n', "\r\n"))
}

/// The check whether a wineserver already serves the game's prefix: Proton's wineserver,
/// run with the prefix and Proton's libraries.
pub open spec fn spec_wineserver_check_env(proton_dir: Seq<char>, compat_data: Seq<char>) -> Seq<
    (Seq<char>, Seq<char>),
> {
    env_insert(
        env_insert(Seq::empty(), "WINEPREFIX"@, spec_join(compat_data, "pfx"@)),
        "LD_LIBRARY_PATH"@,
        spec_join(proton_dir, "files/lib64"@) + ":"@ + spec_join(proton_dir, "files/lib"@),
    )
}

/// Proton's wineserver and the environment to ask it whether the game's prefix is served.
pub fn wineserver_check(proton_dir: &str, compat_data: &str) -> (r: (String, EnvVars))
    ensures
        r.0@ == spec_join(proton_dir@, "files/bin/wineserver"@),
        r.1@ == spec_wineserver_check_env(proton_dir@, compat_data@),
{
    let ws = join(proton_dir, "files/bin/wineserver");
    let pfx = join(compat_data, "pfx");
    let lib64 = join(proton_dir, "files/lib64");
    let lib = join(proton_dir, "files/lib");
    let mut v: Vec<char> = Vec::new();
    push_str(&mut v, lib64.as_str());
    push_str(&mut v, ":");
    push_str(&mut v, lib.as_str());
    assert(v@ =~= lib64@ + ":"@ + lib@);
    let ld = string_from_chars(v.as_slice());
    let mut env = EnvVars::new();
    env.insert("WINEPREFIX", pfx.as_str());
    env.insert("LD_LIBRARY_PATH", ld.as_str());
    (ws, env)
}

/// The command Steam asked to run: the arguments after `inject`. `LaunchFailed` when
/// `inject` is missing or nothing follows it.
pub open spec fn spec_command_args(argv: Seq<Seq<char>>) -> Result<Seq<Seq<char>>, Seq<char>> {
    match first_inject(argv, 0) {
        None => Err("Could not find 'inject' in argv"@),
        Some(i) => if i + 1 >= argv.len() {
            Err("No command provided. Usage: wanda inject %command%"@)
        } else {
            Ok(argv.skip(i + 1))
        },
    }
}

/// The position of the first `inject` argument from `i` on.
pub open spec fn first_inject(argv: Seq<Seq<char>>, i: int) -> Option<int>
    decreases argv.len() - i,
{
    if i < 0 || i >= argv.len() {
        None
    } else if argv[i] == "inject"@ {
        Some(i)
    } else {
        first_inject(argv, i + 1)
    }
}

/// The command Steam asked to run (see `spec_command_args`).
pub fn command_args(argv: &Vec<String>) -> (r: Result<Vec<String>, WandaError>)
    ensures
        match spec_command_args(views(argv@)) {
            Ok(a) => r matches Ok(v) && views(v@) == a,
            Err(m) => r matches Err(WandaError::LaunchFailed { reason }) && reason@ == m,
        },
{
    let ghost av = views(argv@);
    let mut i: usize = 0;
    while i < argv.len()
        invariant
            i <= argv@.len(),
            av == views(argv@),
            first_inject(av, 0) == first_inject(av, i as int),
        decreases argv.len() - i,
    {
        if str_eq(argv[i].as_str(), "inject") {
            if i + 1 >= argv.len() {
                return Err(
                    WandaError::LaunchFailed {
                        reason: string_of("No command provided. Usage: wanda inject %command%"),
                    },
                );
            }
            let mut out: Vec<String> = Vec::new();
            let mut j = i + 1;
            while j < argv.len()
                invariant
                    i + 1 <= j <= argv@.len(),
                    av == views(argv@),
                    views(out@) == av.subrange(i + 1, j as int),
                decreases argv.len() - j,
            {
                let ghost before = views(out@);
                out.push(string_of(argv[j].as_str()));
                assert(views(out@) =~= before.push(av[j as int]));
                j = j + 1;
                assert(views(out@) =~= av.subrange(i + 1, j as int));
            }
            assert(av.subrange(i + 1, argv@.len() as int) =~= av.skip(i + 1));
            return Ok(out);
        }
        i = i + 1;
    }
    Err(WandaError::LaunchFailed { reason: string_of("Could not find 'inject' in argv") })
}

/// The game's compatdata directory from `STEAM_COMPAT_DATA_PATH`; `LaunchFailed` when it is
/// not set (WANDA was not started from Steam's launch options).
pub fn compat_data_path(var: Option<String>) -> (r: Result<String, WandaError>)
    ensures
        match var {
            Some(v) => r matches Ok(p) && p@ == v@,
            None => r matches Err(WandaError::LaunchFailed { reason }) && reason@
                == "STEAM_COMPAT_DATA_PATH not set. Are you running this from Steam launch options?"@,
        },
{
    match var {
        Some(v) => Ok(v),
        None => Err(
            WandaError::LaunchFailed {
                reason: string_of(
                    "STEAM_COMPAT_DATA_PATH not set. Are you running this from Steam launch options?",
                ),
            },
        ),
    }
}

/// The command run in place of the game: Steam's command up to the game executable, with
/// the inject batch (as a `Z:` path) in place of the game and its arguments.
pub fn inject_exec_args(command: &Vec<String>, game_exe_idx: usize, batch_path: &str) -> (r:
    Vec<String>)
    requires
        1 <= game_exe_idx <= command@.len(),
    ensures
        views(r@) == views(command@).subrange(1, game_exe_idx as int).push(
            crate::launcher::spec_to_wine_path(batch_path@),
        ),
{
    let mut out: Vec<String> = Vec::new();
    let mut j: usize = 1;
    while j < game_exe_idx
        invariant
            1 <= j <= game_exe_idx,
            game_exe_idx <= command@.len(),
            views(out@) == views(command@).subrange(1, j as int),
        decreases game_exe_idx - j,
    {
        let ghost before = views(out@);
        out.push(string_of(command[j].as_str()));
        assert(views(out@) =~= before.push(views(command@)[j as int]));
        j = j + 1;
        assert(views(out@) =~= views(command@).subrange(1, j as int));
    }
    let ghost before = views(out@);
    out.push(GameLauncher::to_wine_path(batch_path));
    assert(views(out@) =~= before.push(crate::launcher::spec_to_wine_path(batch_path@)));
    assert(views(out@) =~= views(command@).subrange(1, game_exe_idx as int).push(
        crate::launcher::spec_to_wine_path(batch_path@),
    ));
    out
}

} // verus!
