//! Decisions the command-line tool makes: which game a query names, how games are listed,
//! how launch arguments split, what the doctor suggests.

use vstd::prelude::*;
use crate::config::opt_view;
use crate::error::WandaError;
use crate::prefix::manager::{
    PrefixHealth, PrefixIssue, PrefixManager, WandaPrefix, first_prefix_named,
};
use crate::steam::library::{
    SteamApp, SteamInstallation, first_library_with, games_listing, matching_games, name_matches,
    recorded_in,
};
use crate::text::{
    decimal, is_whitespace, parse_u32, push_decimal, push_str, spec_contains, spec_decimal,
    spec_is_whitespace, spec_lex_lt, spec_lowercase, spec_parse_u32, str_contains, str_eq, str_lt,
    string_from_chars, string_of, to_lowercase,
};

verus! {

/// The words of `s`: the maximal runs of non-whitespace characters, in order
/// (`str::split_whitespace`), and whether `s` ends inside a word.
pub open spec fn spec_words(s: Seq<char>) -> (Seq<Seq<char>>, bool)
    decreases s.len(),
{
    if s.len() == 0 {
        (Seq::empty(), false)
    } else {
        let (ws, inside) = spec_words(s.drop_last());
        let c = s.last();
        if spec_is_whitespace(c) {
            (ws, false)
        } else if inside {
            (ws.update(ws.len() - 1, ws.last().push(c)), true)
        } else {
            (ws.push(seq![c]), true)
        }
    }
}

/// `str::split_whitespace`: the words of `s`, in order.
pub fn split_whitespace(s: &str) -> (r: Vec<String>)
    ensures
        r@.map_values(|w: String| w@) == spec_words(s@).0,
{
    let cs = crate::text::chars_of(s);
    let mut words: Vec<String> = Vec::new();
    let mut cur: Vec<char> = Vec::new();
    let mut inside = false;
    let mut i: usize = 0;
    while i < cs.len()
        invariant
            i <= cs@.len(),
            cs@ == s@,
            spec_words(cs@.take(i as int)).1 == inside,
            !inside ==> cur@.len() == 0,
            inside ==> spec_words(cs@.take(i as int)).0 == words@.map_values(|w: String| w@).push(
                cur@,
            ),
            !inside ==> spec_words(cs@.take(i as int)).0 == words@.map_values(|w: String| w@),
        decreases cs.len() - i,
    {
        let c = cs[i];
        let ghost wv = words@.map_values(|w: String| w@);
        let ghost before = cur@;
        proof {
            assert(cs@.take(i + 1).drop_last() =~= cs@.take(i as int));
            assert(cs@.take(i + 1).last() == c);
        }
        if is_whitespace(c) {
            if inside {
                let w = string_from_chars(cur.as_slice());
                words.push(w);
                assert(words@.map_values(|w: String| w@) =~= wv.push(before));
                cur = Vec::new();
            }
            inside = false;
        } else {
            cur.push(c);
            if inside {
                assert(wv.push(before).update(wv.len() as int, before.push(c)) =~= wv.push(cur@));
            } else {
                assert(cur@ =~= seq![c]);
            }
            inside = true;
        }
        i = i + 1;
    }
    if inside {
        let ghost wv = words@.map_values(|w: String| w@);
        let w = string_from_chars(cur.as_slice());
        words.push(w);
        assert(words@.map_values(|w: String| w@) =~= wv.push(cur@));
    }
    assert(cs@.take(cs@.len() as int) =~= cs@);
    words
}

/// The `steam://` URL that asks Steam to run a game.
pub open spec fn spec_steam_run_url(app_id: u32) -> Seq<char> {
    "steam://rungameid/"@ + spec_decimal(app_id as nat)
}

/// The `steam://` URL that asks Steam to run a game.
pub fn steam_run_url(app_id: u32) -> (r: String)
    ensures
        r@ == spec_steam_run_url(app_id),
{
    let mut v: Vec<char> = Vec::new();
    push_str(&mut v, "steam://rungameid/");
    push_decimal(&mut v, app_id as u64);
    assert(v@ =~= spec_steam_run_url(app_id));
    string_from_chars(v.as_slice())
}

/// Some recorded game matches the search text.
pub open spec fn some_game_matches(libs: Seq<crate::steam::library::SteamLibrary>, q: Seq<char>) -> bool {
    exists|i: int, k: u32|
        0 <= i < libs.len() && #[trigger] libs[i].apps@.contains_key(k) && name_matches(
            libs[i].apps@[k],
            q,
        )
}

/// The game a query names: an App ID when the query is a number (`GameNotFound` if no
/// library has it), else the one game whose name contains the query, ignoring case
/// (`LaunchFailed` when none does, or when several do: it succeeds exactly when, in the
/// order `get_all_games` lists them, one game matches).
pub fn select_game<'a>(steam: &'a SteamInstallation, query: &str) -> (r: Result<
    &'a SteamApp,
    WandaError,
>)
    ensures
        match spec_parse_u32(query@) {
            Some(id) => match first_library_with(steam.libraries@, id) {
                Some(i) => r == Ok::<&SteamApp, WandaError>(&steam.libraries@[i].apps@[id]),
                None => r matches Err(WandaError::GameNotFound { app_id }) && app_id == id,
            },
            None => {
                &&& r matches Ok(g) ==> recorded_in(steam.libraries@, *g) && name_matches(*g, query@)
                &&& r matches Err(e) ==> (e matches WandaError::LaunchFailed { reason } && (reason@
                    == "No game found matching '"@ + query@ + "'"@ || reason@
                    == "Please specify the exact App ID"@))
                &&& (r matches Err(WandaError::LaunchFailed { reason }) && reason@
                    == "No game found matching '"@ + query@ + "'"@) <==> !some_game_matches(
                    steam.libraries@,
                    query@,
                )
                &&& exists|all: Seq<&SteamApp>|
                    #[trigger] games_listing(steam.libraries@, all) && (r is Ok <==> matching_games(
                        all,
                        query@,
                    ).len() == 1)
            },
        },
{
    match parse_u32(query) {
        Some(id) => match steam.find_game(id) {
            Some(g) => Ok(g),
            None => Err(WandaError::GameNotFound { app_id: id }),
        },
        None => {
            let matches = steam.find_game_by_name(query);
            let ghost all = choose|all: Seq<&SteamApp>|
                #[trigger] games_listing(steam.libraries@, all) && matches@ == matching_games(
                    all,
                    query@,
                );
            assert(games_listing(steam.libraries@, all));
            proof {
                reveal_strlit("Please specify the exact App ID");
                reveal_strlit("No game found matching '");
            }
            if matches.len() == 0 {
                assert(!some_game_matches(steam.libraries@, query@)) by {
                    if some_game_matches(steam.libraries@, query@) {
                        let (i, k) = choose|i: int, k: u32|
                            0 <= i < steam.libraries@.len()
                                && #[trigger] steam.libraries@[i].apps@.contains_key(k)
                                && name_matches(steam.libraries@[i].apps@[k], query@);
                        assert(steam.libraries@[i].apps@.contains_key(k));
                    }
                }
                let mut v: Vec<char> = Vec::new();
                push_str(&mut v, "No game found matching '");
                push_str(&mut v, query);
                push_str(&mut v, "'");
                assert(v@ =~= "No game found matching '"@ + query@ + "'"@);
                return Err(WandaError::LaunchFailed { reason: string_from_chars(v.as_slice()) });
            }
            assert(some_game_matches(steam.libraries@, query@)) by {
                let g = *matches@[0];
                assert(recorded_in(steam.libraries@, g));
                assert(name_matches(g, query@));
                lemma_recorded_some(steam.libraries@, g, query@);
            }
            if matches.len() == 1 {
                return Ok(matches[0]);
            }
            let reason = string_of("Please specify the exact App ID");
            assert(reason@ != "No game found matching '"@ + query@ + "'"@) by {
                assert(reason@[0] == 'P');
                assert(("No game found matching '"@ + query@ + "'"@)[0] == 'N');
            }
            Err(WandaError::LaunchFailed { reason })
        },
    }
}

proof fn lemma_recorded_some(libs: Seq<crate::steam::library::SteamLibrary>, g: SteamApp, q: Seq<char>)
    requires
        recorded_in(libs, g),
        name_matches(g, q),
    ensures
        some_game_matches(libs, q),
{
    let (i, k) = choose|i: int, k: u32|
        0 <= i < libs.len() && #[trigger] libs[i].apps@.contains_key(k) && libs[i].apps@[k] == g;
    assert(libs[i].apps@.contains_key(k));
}

/// Whether the installed WeMod is the newest: the versions agree, an unknown version
/// standing as `unknown`.
pub open spec fn spec_up_to_date(current: Option<Seq<char>>, latest: Option<Seq<char>>) -> bool {
    (match current {
        Some(c) => c,
        None => "unknown"@,
    }) == (match latest {
        Some(l) => l,
        None => "unknown"@,
    })
}

/// Whether the installed WeMod is the newest (see `spec_up_to_date`).
pub fn wemod_up_to_date(current: &Option<String>, latest: &Option<String>) -> (r: bool)
    ensures
        r == spec_up_to_date(opt_view(*current), opt_view(*latest)),
{
    let c = match current {
        Some(c) => string_of(c.as_str()),
        None => string_of("unknown"),
    };
    let l = match latest {
        Some(l) => string_of(l.as_str()),
        None => string_of("unknown"),
    };
    str_eq(c.as_str(), l.as_str())
}

/// The doctor's suggestions for its list of problems, in order: initialising when something
/// is not initialized, installing WeMod when WeMod is mentioned, repairing the prefix when a
/// prefix is, installing GE-Proton when Proton is.
pub open spec fn spec_suggestions(issues: Seq<Seq<char>>) -> Seq<Seq<char>> {
    let any = |p: Seq<char>| any_issue_contains(issues, p);
    let a = if any("not initialized"@) {
        seq!["Run 'wanda init' to initialize WANDA"@]
    } else {
        Seq::empty()
    };
    let b = if any("WeMod"@) {
        a.push("Run 'wanda wemod install' to install WeMod"@)
    } else {
        a
    };
    let c = if any("Prefix"@) {
        b.push("Run 'wanda prefix repair' to fix prefix issues"@)
    } else {
        b
    };
    if any("Proton"@) {
        c.push("Install GE-Proton via ProtonUp-Qt or Steam"@)
    } else {
        c
    }
}

/// What `wanda doctor`'s checks found.
#[derive(Debug, Clone)]
pub struct CliDoctorFindings {
    /// Steam was found.
    pub steam_found: bool,
    /// How many Proton builds were found (when Steam was).
    pub proton_count: usize,
    /// A build is recommended (when Steam was found).
    pub has_recommended: bool,
    /// The health of the `default` prefix; `None` when there is no such prefix.
    pub prefix: Option<PrefixHealth>,
    /// The `default` prefix records WeMod as installed.
    pub wemod_installed: bool,
    /// WeMod's executable exists in the `default` prefix.
    pub wemod_exe_found: bool,
    /// For each of `doctor_tools`, in order, whether it is on `PATH`.
    pub tools_found: Vec<bool>,
}

/// The names of the programs the doctor looks for on `PATH`, in order.
pub open spec fn spec_doctor_tool_names() -> Seq<Seq<char>> {
    seq!["Wine"@, "Winetricks"@, "Steam CLI"@, "XDG utilities"@]
}

/// The programs the doctor looks for on `PATH`: (command, name) for Wine, Winetricks, Steam
/// and the XDG utilities.
pub fn doctor_tools() -> (r: Vec<(String, String)>)
    ensures
        r@.len() == 4,
        r@[0].0@ == "wine"@,
        r@[1].0@ == "winetricks"@,
        r@[2].0@ == "steam"@,
        r@[3].0@ == "xdg-open"@,
        forall|i: int| 0 <= i < 4 ==> #[trigger] r@[i].1@ == spec_doctor_tool_names()[i],
{
    let mut r: Vec<(String, String)> = Vec::new();
    r.push((string_of("wine"), string_of("Wine")));
    r.push((string_of("winetricks"), string_of("Winetricks")));
    r.push((string_of("steam"), string_of("Steam CLI")));
    r.push((string_of("xdg-open"), string_of("XDG utilities")));
    r
}

/// The problems with Steam and Proton.
pub open spec fn spec_steam_issues(f: CliDoctorFindings) -> Seq<Seq<char>> {
    if !f.steam_found {
        seq!["Steam installation not found"@]
    } else if f.proton_count == 0 {
        seq!["No Proton versions installed"@]
    } else if !f.has_recommended {
        seq!["No recommended Proton version found"@]
    } else {
        Seq::empty()
    }
}

/// The problems a prefix's health reports.
pub open spec fn spec_health_issues(h: PrefixHealth) -> Seq<Seq<char>> {
    match h {
        PrefixHealth::Healthy => Seq::empty(),
        PrefixHealth::NeedsRepair(list) => list@.map_values(
            |i: PrefixIssue| "Prefix issue: "@ + i.spec_message(),
        ),
        PrefixHealth::Corrupted(reason) => seq!["Prefix corrupted: "@ + reason@],
        PrefixHealth::NotCreated => seq!["WANDA prefix not created"@],
    }
}

/// The problems with the `default` prefix and WeMod.
pub open spec fn spec_prefix_issues(f: CliDoctorFindings) -> Seq<Seq<char>> {
    match f.prefix {
        None => seq!["WANDA not initialized"@],
        Some(h) => spec_health_issues(h) + if !f.wemod_installed {
            seq!["WeMod not installed"@]
        } else if !f.wemod_exe_found {
            seq!["WeMod executable not found"@]
        } else {
            Seq::empty()
        },
    }
}

/// The programs missing from `PATH` among the first `n` looked for.
pub open spec fn spec_tool_issues(found: Seq<bool>, n: int) -> Seq<Seq<char>>
    decreases n,
{
    if n <= 0 {
        Seq::empty()
    } else {
        let rest = spec_tool_issues(found, n - 1);
        if n - 1 < found.len() && !found[n - 1] {
            rest.push(spec_doctor_tool_names()[n - 1] + " not found in PATH"@)
        } else {
            rest
        }
    }
}

/// The doctor's list of problems, in the order it checks: Steam and Proton, the prefix and
/// WeMod, then the programs on `PATH`.
pub open spec fn spec_cli_doctor_issues(f: CliDoctorFindings) -> Seq<Seq<char>> {
    spec_steam_issues(f) + spec_prefix_issues(f) + spec_tool_issues(f.tools_found@, 4)
}

fn joined(a: &str, b: &str) -> (r: String)
    ensures
        r@ == a@ + b@,
{
    let mut v: Vec<char> = Vec::new();
    push_str(&mut v, a);
    push_str(&mut v, b);
    assert(v@ =~= a@ + b@);
    string_from_chars(v.as_slice())
}

/// Appends the problems a prefix's health reports.
fn push_health_issues(r: &mut Vec<String>, h: &PrefixHealth)
    ensures
        final(r)@.map_values(|s: String| s@) == old(r)@.map_values(|s: String| s@)
            + spec_health_issues(*h),
{
    let ghost start = r@.map_values(|s: String| s@);
    match h {
        PrefixHealth::Healthy => {},
        PrefixHealth::NeedsRepair(list) => {
            let ghost before = r@.map_values(|s: String| s@);
            for i in 0..list.len()
                invariant
                    r@.map_values(|s: String| s@) == before + list@.take(i as int).map_values(
                        |x: PrefixIssue| "Prefix issue: "@ + x.spec_message(),
                    ),
            {
                let m = list[i].message();
                let ghost prev = r@.map_values(|s: String| s@);
                r.push(joined("Prefix issue: ", m.as_str()));
                assert(r@.map_values(|s: String| s@) =~= prev.push(
                    "Prefix issue: "@ + list@[i as int].spec_message(),
                ));
                assert(list@.take(i + 1).map_values(
                    |x: PrefixIssue| "Prefix issue: "@ + x.spec_message(),
                ) =~= list@.take(i as int).map_values(
                    |x: PrefixIssue| "Prefix issue: "@ + x.spec_message(),
                ).push("Prefix issue: "@ + list@[i as int].spec_message()));
                assert(r@.map_values(|s: String| s@) =~= before + list@.take(
                    i + 1,
                ).map_values(|x: PrefixIssue| "Prefix issue: "@ + x.spec_message()));
            }
            assert(list@.take(list@.len() as int) =~= list@);
        },
        PrefixHealth::Corrupted(reason) => {
            r.push(joined("Prefix corrupted: ", reason.as_str()));
        },
        PrefixHealth::NotCreated => {
            r.push(string_of("WANDA prefix not created"));
        },
    }
    assert(r@.map_values(|s: String| s@) =~= start + spec_health_issues(*h));
}

/// The doctor's list of problems from what its checks found (see `spec_cli_doctor_issues`).
pub fn doctor_issues(f: &CliDoctorFindings) -> (r: Vec<String>)
    ensures
        r@.map_values(|s: String| s@) == spec_cli_doctor_issues(*f),
{
    let mut r: Vec<String> = Vec::new();
    if !f.steam_found {
        r.push(string_of("Steam installation not found"));
    } else if f.proton_count == 0 {
        r.push(string_of("No Proton versions installed"));
    } else if !f.has_recommended {
        r.push(string_of("No recommended Proton version found"));
    }
    assert(r@.map_values(|s: String| s@) =~= spec_steam_issues(*f));
    let ghost a = r@.map_values(|s: String| s@);
    match &f.prefix {
        None => {
            r.push(string_of("WANDA not initialized"));
        },
        Some(h) => {
            push_health_issues(&mut r, h);
            assert(r@.map_values(|s: String| s@) =~= a + spec_health_issues(*h));
            let ghost c = r@.map_values(|s: String| s@);
            if !f.wemod_installed {
                r.push(string_of("WeMod not installed"));
                assert(r@.map_values(|s: String| s@) =~= c.push("WeMod not installed"@));
            } else if !f.wemod_exe_found {
                r.push(string_of("WeMod executable not found"));
                assert(r@.map_values(|s: String| s@) =~= c.push("WeMod executable not found"@));
            }
            assert(r@.map_values(|s: String| s@) =~= a + spec_prefix_issues(*f));
        },
    }
    assert(r@.map_values(|s: String| s@) =~= a + spec_prefix_issues(*f));
    let ghost b = r@.map_values(|s: String| s@);
    let names = doctor_tools();
    let mut n: usize = 0;
    while n < 4
        invariant
            n <= 4,
            names@.len() == 4,
            forall|i: int| 0 <= i < 4 ==> #[trigger] names@[i].1@ == spec_doctor_tool_names()[i],
            r@.map_values(|s: String| s@) == b + spec_tool_issues(f.tools_found@, n as int),
        decreases 4 - n,
    {
        if n < f.tools_found.len() && !f.tools_found[n] {
            assert(names@[n as int].1@ == spec_doctor_tool_names()[n as int]);
            let ghost prev = r@.map_values(|s: String| s@);
            r.push(joined(names[n].1.as_str(), " not found in PATH"));
            assert(r@.map_values(|s: String| s@) =~= prev.push(
                spec_doctor_tool_names()[n as int] + " not found in PATH"@,
            ));
            assert(r@.map_values(|s: String| s@) =~= b + spec_tool_issues(
                f.tools_found@,
                n + 1,
            ));
        } else {
            assert(spec_tool_issues(f.tools_found@, n + 1) == spec_tool_issues(
                f.tools_found@,
                n as int,
            ));
        }
        n = n + 1;
    }
    assert(r@.map_values(|s: String| s@) =~= spec_cli_doctor_issues(*f));
    r
}

/// Some problem mentions `p`.
pub open spec fn any_issue_contains(issues: Seq<Seq<char>>, p: Seq<char>) -> bool {
    exists|i: int| 0 <= i < issues.len() && spec_contains(#[trigger] issues[i], p)
}

fn any_contains(issues: &Vec<String>, p: &str) -> (r: bool)
    ensures
        r == any_issue_contains(issues@.map_values(|s: String| s@), p@),
{
    let ghost iv = issues@.map_values(|s: String| s@);
    let mut i: usize = 0;
    while i < issues.len()
        invariant
            i <= issues@.len(),
            iv == issues@.map_values(|s: String| s@),
            forall|j: int| 0 <= j < i ==> !spec_contains(#[trigger] iv[j], p@),
        decreases issues.len() - i,
    {
        assert(iv[i as int] == issues@[i as int]@);
        if str_contains(issues[i].as_str(), p) {
            return true;
        }
        i = i + 1;
    }
    false
}

/// The doctor's suggestions for its list of problems (see `spec_suggestions`).
pub fn doctor_suggestions(issues: &Vec<String>) -> (r: Vec<String>)
    ensures
        r@.map_values(|s: String| s@) == spec_suggestions(issues@.map_values(|s: String| s@)),
{
    let ghost iv = issues@.map_values(|s: String| s@);
    let mut r: Vec<String> = Vec::new();
    if any_contains(issues, "not initialized") {
        r.push(string_of("Run 'wanda init' to initialize WANDA"));
    }
    if any_contains(issues, "WeMod") {
        r.push(string_of("Run 'wanda wemod install' to install WeMod"));
    }
    if any_contains(issues, "Prefix") {
        r.push(string_of("Run 'wanda prefix repair' to fix prefix issues"));
    }
    if any_contains(issues, "Proton") {
        r.push(string_of("Install GE-Proton via ProtonUp-Qt or Steam"));
    }
    assert(r@.map_values(|s: String| s@) =~= spec_suggestions(iv));
    r
}

impl WandaPrefix {
    /// The record of a game's own compatdata prefix, where WeMod (linked in from this
    /// prefix) runs with the game: named `game`, WeMod installed, the versions of this
    /// prefix.
    pub fn for_game(&self, compat_data: &str) -> (r: WandaPrefix)
        ensures
            r.name@ == "game"@,
            r.path@ == compat_data@,
            r.wemod_installed,
            opt_view(r.wemod_version) == opt_view(self.wemod_version),
            opt_view(r.proton_version) == opt_view(self.proton_version),
            r.created_at is None,
            r.last_used is None,
    {
        WandaPrefix {
            name: string_of("game"),
            path: string_of(compat_data),
            wemod_installed: true,
            wemod_version: match &self.wemod_version {
                Some(v) => Some(string_of(v.as_str())),
                None => None,
            },
            proton_version: match &self.proton_version {
                Some(v) => Some(string_of(v.as_str())),
                None => None,
            },
            created_at: None,
            last_used: None,
        }
    }
}

/// `r` is the record of the compatdata prefix `compat` of a game, with WeMod linked in from
/// `base` (what `WandaPrefix::for_game` gives).
pub open spec fn game_record_of(r: WandaPrefix, base: WandaPrefix, compat: Seq<char>) -> bool {
    &&& r.name@ == "game"@
    &&& r.path@ == compat
    &&& r.wemod_installed
    &&& opt_view(r.wemod_version) == opt_view(base.wemod_version)
    &&& opt_view(r.proton_version) == opt_view(base.proton_version)
    &&& r.created_at is None
    &&& r.last_used is None
}

/// The prefix `wanda launch` takes WeMod from: the one named `default`, which must exist
/// (`LaunchFailed` otherwise) and have WeMod installed (`WemodNotInstalled` otherwise).
pub fn launch_base_prefix(manager: &PrefixManager) -> (r: Result<&WandaPrefix, WandaError>)
    ensures
        match first_prefix_named(manager.prefixes@, "default"@, 0) {
            Some(i) => if manager.prefixes@[i].wemod_installed {
                r == Ok::<&WandaPrefix, WandaError>(&manager.prefixes@[i])
            } else {
                r matches Err(WandaError::WemodNotInstalled)
            },
            None => r matches Err(WandaError::LaunchFailed { reason }) && reason@
                == "WANDA not initialized. Run 'wanda init' first."@,
        },
{
    match manager.get("default") {
        Some(p) => if p.wemod_installed {
            Ok(p)
        } else {
            Err(WandaError::WemodNotInstalled)
        },
        None => Err(
            WandaError::LaunchFailed {
                reason: string_of("WANDA not initialized. Run 'wanda init' first."),
            },
        ),
    }
}

/// The prefix a game runs in under `wanda launch`: its own compatdata prefix when it has one
/// (a record with WeMod linked in from `base`); otherwise `None`, which means `base` itself,
/// except in standalone mode, which needs the game's own prefix (`LaunchFailed`).
pub fn launch_prefix(base: &WandaPrefix, game: &SteamApp, standalone: bool) -> (r: Result<
    Option<WandaPrefix>,
    WandaError,
>)
    ensures
        match game.compat_data_path {
            Some(c) => r matches Ok(Some(p)) && game_record_of(p, *base, c@),
            None => if standalone {
                r matches Err(WandaError::LaunchFailed { reason }) && reason@ == "Game '"@
                    + game.name@ + "' has no Proton compat data. Launch it via Steam once first."@
            } else {
                r matches Ok(None)
            },
        },
{
    match &game.compat_data_path {
        Some(c) => Ok(Some(base.for_game(c.as_str()))),
        None => {
            if standalone {
                let mut v: Vec<char> = Vec::new();
                push_str(&mut v, "Game '");
                push_str(&mut v, game.name.as_str());
                push_str(&mut v, "' has no Proton compat data. Launch it via Steam once first.");
                assert(v@ =~= "Game '"@ + game.name@
                    + "' has no Proton compat data. Launch it via Steam once first."@);
                Err(WandaError::LaunchFailed { reason: string_from_chars(v.as_slice()) })
            } else {
                Ok(None)
            }
        },
    }
}

/// The key games are listed by: the lower-cased name.
pub open spec fn name_key(g: SteamApp) -> Seq<char> {
    spec_lowercase(g.name@)
}

/// The games a scan lists, before sorting: those matching the filter (if any), and only
/// those running through Proton unless all are wanted.
pub open spec fn spec_scan_filter(gs: Seq<SteamApp>, filter: Option<Seq<char>>, all: bool) -> Seq<
    SteamApp,
>
    decreases gs.len(),
{
    if gs.len() == 0 {
        Seq::empty()
    } else {
        let rest = spec_scan_filter(gs.drop_last(), filter, all);
        let g = gs.last();
        let keep = (match filter {
            Some(f) => name_matches(g, f),
            None => true,
        }) && (all || g.compat_data_path is Some);
        if keep {
            rest.push(g)
        } else {
            rest
        }
    }
}

/// The first position in `sorted` whose name comes after `g`'s, or the end.
pub open spec fn name_insert_pos(sorted: Seq<SteamApp>, g: SteamApp) -> int
    decreases sorted.len(),
{
    if sorted.len() == 0 {
        0
    } else if spec_lex_lt(name_key(g), name_key(sorted[0])) {
        0
    } else {
        1 + name_insert_pos(sorted.drop_first(), g)
    }
}

/// Games ordered by lower-cased name, games of equal name keeping their order (a stable
/// sort).
pub open spec fn spec_sort_by_name(s: Seq<SteamApp>) -> Seq<SteamApp>
    decreases s.len(),
{
    if s.len() == 0 {
        Seq::empty()
    } else {
        let sorted = spec_sort_by_name(s.drop_last());
        sorted.insert(name_insert_pos(sorted, s.last()), s.last())
    }
}

proof fn lemma_name_insert_pos(sorted: Seq<SteamApp>, g: SteamApp)
    ensures
        0 <= name_insert_pos(sorted, g) <= sorted.len(),
        forall|j: int|
            0 <= j < name_insert_pos(sorted, g) ==> !spec_lex_lt(name_key(g), name_key(#[trigger] sorted[j])),
        name_insert_pos(sorted, g) < sorted.len() ==> spec_lex_lt(
            name_key(g),
            name_key(sorted[name_insert_pos(sorted, g)]),
        ),
    decreases sorted.len(),
{
    if sorted.len() > 0 && !spec_lex_lt(name_key(g), name_key(sorted[0])) {
        lemma_name_insert_pos(sorted.drop_first(), g);
        assert forall|j: int| 0 <= j < name_insert_pos(sorted, g) implies !spec_lex_lt(
            name_key(g),
            name_key(#[trigger] sorted[j]),
        ) by {
            if j > 0 {
                assert(sorted[j] == sorted.drop_first()[j - 1]);
            }
        }
    }
}

/// The views of a list of game references.
pub open spec fn apps_view(v: Seq<&SteamApp>) -> Seq<SteamApp> {
    v.map_values(|g: &SteamApp| *g)
}

/// The games a scan lists (see `spec_scan_filter`), sorted by name ignoring case.
pub fn scan_games<'a>(games: &Vec<&'a SteamApp>, filter: Option<&str>, all: bool) -> (r: Vec<
    &'a SteamApp,
>)
    ensures
        apps_view(r@) == spec_sort_by_name(
            spec_scan_filter(
                apps_view(games@),
                match filter {
                    Some(f) => Some(f@),
                    None => None,
                },
                all,
            ),
        ),
{
    let ghost fv = match filter {
        Some(f) => Some(f@),
        None => None::<Seq<char>>,
    };
    let ghost gs = apps_view(games@);
    let mut kept: Vec<&'a SteamApp> = Vec::new();
    let mut i: usize = 0;
    while i < games.len()
        invariant
            i <= games@.len(),
            gs == apps_view(games@),
            fv == (match filter {
                Some(f) => Some(f@),
                None => None::<Seq<char>>,
            }),
            apps_view(kept@) == spec_scan_filter(gs.take(i as int), fv, all),
        decreases games.len() - i,
    {
        proof {
            assert(gs.take(i + 1).drop_last() =~= gs.take(i as int));
            assert(gs.take(i + 1).last() == *games@[i as int]);
        }
        let g = games[i];
        let matches = match filter {
            Some(f) => {
                let a = to_lowercase(g.name.as_str());
                let b = to_lowercase(f);
                str_contains(a.as_str(), b.as_str())
            },
            None => true,
        };
        if matches && (all || g.uses_proton()) {
            let ghost before = apps_view(kept@);
            kept.push(g);
            assert(apps_view(kept@) =~= before.push(*g));
        }
        i = i + 1;
    }
    assert(gs.take(games@.len() as int) =~= gs);
    let ghost filtered = apps_view(kept@);
    let mut sorted: Vec<&'a SteamApp> = Vec::new();
    let mut keys: Vec<String> = Vec::new();
    let mut k: usize = 0;
    while k < kept.len()
        invariant
            k <= kept@.len(),
            filtered == apps_view(kept@),
            apps_view(sorted@) == spec_sort_by_name(filtered.take(k as int)),
            keys@.len() == sorted@.len(),
            forall|j: int| 0 <= j < keys@.len() ==> #[trigger] keys@[j]@ == name_key(*sorted@[j]),
        decreases kept.len() - k,
    {
        let g = kept[k];
        let ghost sv = apps_view(sorted@);
        proof {
            assert(filtered.take(k + 1).drop_last() =~= filtered.take(k as int));
            assert(filtered.take(k + 1).last() == *g);
            lemma_name_insert_pos(sv, *g);
        }
        let key = to_lowercase(g.name.as_str());
        let mut p: usize = 0;
        while p < sorted.len() && !str_lt(key.as_str(), keys[p].as_str())
            invariant
                p <= sorted@.len(),
                keys@.len() == sorted@.len(),
                sv == apps_view(sorted@),
                key@ == name_key(*g),
                forall|j: int| 0 <= j < keys@.len() ==> #[trigger] keys@[j]@ == name_key(*sorted@[j]),
                forall|j: int| 0 <= j < p ==> !spec_lex_lt(name_key(*g), name_key(#[trigger] sv[j])),
            decreases sorted.len() - p,
        {
            assert(keys@[p as int]@ == name_key(sv[p as int]));
            p = p + 1;
        }
        proof {
            lemma_name_insert_pos(sv, *g);
            let q = name_insert_pos(sv, *g);
            if p < sorted@.len() {
                assert(keys@[p as int]@ == name_key(sv[p as int]));
            }
            assert(!(p < q)) by {
                if p < q {
                    assert(!spec_lex_lt(name_key(*g), name_key(sv[p as int])));
                }
            }
            assert(!(q < p)) by {
                if q < p {
                    assert(!spec_lex_lt(name_key(*g), name_key(sv[q])));
                }
            }
        }
        let ghost ks = keys@;
        let ghost ss = sorted@;
        sorted.insert(p, g);
        keys.insert(p, key);
        proof {
            assert(apps_view(sorted@) =~= sv.insert(p as int, *g));
            assert forall|j: int| 0 <= j < keys@.len() implies #[trigger] keys@[j]@ == name_key(*sorted@[j]) by {
                if j < p {
                    assert(keys@[j] == ks[j] && sorted@[j] == ss[j]);
                } else if j > p {
                    assert(keys@[j] == ks[j - 1] && sorted@[j] == ss[j - 1]);
                }
            }
        }
        k = k + 1;
    }
    assert(filtered.take(kept@.len() as int) =~= filtered);
    sorted
}

proof fn lemma_sort_by_name_ordered(s: Seq<SteamApp>)
    ensures
        forall|i: int, j: int|
            0 <= i < j < spec_sort_by_name(s).len() ==> !spec_lex_lt(
                name_key(#[trigger] spec_sort_by_name(s)[j]),
                name_key(#[trigger] spec_sort_by_name(s)[i]),
            ),
        spec_sort_by_name(s).len() == s.len(),
    decreases s.len(),
{
    if s.len() > 0 {
        let sorted = spec_sort_by_name(s.drop_last());
        lemma_sort_by_name_ordered(s.drop_last());
        let x = s.last();
        let p = name_insert_pos(sorted, x);
        lemma_name_insert_pos(sorted, x);
        let r = sorted.insert(p, x);
        assert forall|i: int, j: int| 0 <= i < j < r.len() implies !spec_lex_lt(
            name_key(#[trigger] r[j]),
            name_key(#[trigger] r[i]),
        ) by {
            lemma_insert_step(sorted, x, p, i, j);
        }
    }
}

proof fn lemma_insert_step(sorted: Seq<SteamApp>, x: SteamApp, p: int, i: int, j: int)
    requires
        p == name_insert_pos(sorted, x),
        0 <= p <= sorted.len(),
        forall|a: int| 0 <= a < p ==> !spec_lex_lt(name_key(x), name_key(#[trigger] sorted[a])),
        p < sorted.len() ==> spec_lex_lt(name_key(x), name_key(sorted[p])),
        forall|a: int, b: int|
            0 <= a < b < sorted.len() ==> !spec_lex_lt(
                name_key(#[trigger] sorted[b]),
                name_key(#[trigger] sorted[a]),
            ),
        0 <= i < j < sorted.len() + 1,
    ensures
        !spec_lex_lt(name_key(sorted.insert(p, x)[j]), name_key(sorted.insert(p, x)[i])),
{
    let r = sorted.insert(p, x);
    if j < p {
        assert(r[i] == sorted[i] && r[j] == sorted[j]);
    } else if j == p {
        assert(r[i] == sorted[i] && r[j] == x);
    } else if i < p {
        assert(r[i] == sorted[i] && r[j] == sorted[j - 1]);
    } else if i == p {
        assert(r[j] == sorted[j - 1]);
        assert(r[i] == x);
        if spec_lex_lt(name_key(sorted[j - 1]), name_key(x)) {
            crate::text::lemma_lex_trans(name_key(sorted[j - 1]), name_key(x), name_key(sorted[p]));
            if p < j - 1 {
                assert(!spec_lex_lt(name_key(sorted[j - 1]), name_key(sorted[p])));
            } else {
                crate::text::lemma_lex_irreflexive(name_key(sorted[p]));
            }
        }
    } else {
        assert(r[i] == sorted[i - 1] && r[j] == sorted[j - 1]);
    }
}

proof fn lemma_sort_by_name_multiset(s: Seq<SteamApp>)
    ensures
        spec_sort_by_name(s).to_multiset() == s.to_multiset(),
    decreases s.len(),
{
    broadcast use vstd::seq_lib::group_seq_properties;
    broadcast use vstd::multiset::group_multiset_axioms;
    if s.len() > 0 {
        let sorted = spec_sort_by_name(s.drop_last());
        lemma_sort_by_name_multiset(s.drop_last());
        let x = s.last();
        let p = name_insert_pos(sorted, x);
        lemma_name_insert_pos(sorted, x);
        assert(s =~= s.drop_last().push(x));
        assert(sorted.insert(p, x).to_multiset() == sorted.to_multiset().insert(x));
    }
}

/// Sorting games by name keeps every game, each as often as it occurs, and puts no game
/// before one whose lower-cased name comes earlier.
pub proof fn lemma_sort_by_name(s: Seq<SteamApp>)
    ensures
        spec_sort_by_name(s).to_multiset() == s.to_multiset(),
        forall|i: int, j: int|
            0 <= i < j < spec_sort_by_name(s).len() ==> !spec_lex_lt(
                name_key(#[trigger] spec_sort_by_name(s)[j]),
                name_key(#[trigger] spec_sort_by_name(s)[i]),
            ),
{
    lemma_sort_by_name_ordered(s);
    lemma_sort_by_name_multiset(s);
}

} // verus!
