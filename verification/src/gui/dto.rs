//! The records the desktop application hands to its front end.

use vstd::prelude::*;
use crate::config::{WandaConfig, opt_view};
use crate::gui::state::AppState;
use crate::prefix::manager::{PrefixHealth, PrefixIssue, WandaPrefix, first_prefix_named};
use crate::steam::library::{SteamApp, spec_size_human};
use crate::steam::proton::{ProtonCompatibility, ProtonVersion};
use crate::text::{push_str, str_eq, string_from_chars, string_of};
use crate::wemod::downloader::WemodRelease;

verus! {

/// A game, as the front end lists it.
#[derive(Debug, Clone)]
pub struct GameInfo {
    pub app_id: u32,
    pub name: String,
    /// Size on disk, for people (e.g. `50.0 GB`).
    pub size: String,
    pub uses_proton: bool,
    pub install_path: String,
}

/// A prefix and its health, as the front end lists it.
#[derive(Debug, Clone)]
pub struct PrefixInfo {
    pub name: String,
    pub path: String,
    pub wemod_installed: bool,
    pub wemod_version: Option<String>,
    pub proton_version: Option<String>,
    /// `healthy`, `needs_repair`, `corrupted` or `not_created`.
    pub health: String,
    /// The problems found, for people.
    pub issues: Vec<String>,
}

/// A Proton build, as the front end lists it.
#[derive(Debug, Clone)]
pub struct ProtonInfo {
    pub name: String,
    pub path: String,
    /// `recommended`, `supported`, `experimental` or `unsupported`.
    pub compatibility: String,
    pub is_ge: bool,
    /// Whether this is the build WANDA would use.
    pub is_recommended: bool,
}

/// Whether WeMod is installed and whether a newer release is available.
#[derive(Debug, Clone)]
pub struct WemodStatus {
    pub installed: bool,
    pub version: Option<String>,
    pub update_available: bool,
    pub latest_version: Option<String>,
}

/// How far WANDA is set up.
#[derive(Debug, Clone, Copy)]
pub struct InitStatus {
    pub initialized: bool,
    pub steam_found: bool,
    pub proton_found: bool,
    pub prefix_exists: bool,
    pub wemod_installed: bool,
}

/// What the doctor found.
#[derive(Debug, Clone)]
pub struct DoctorReport {
    pub steam_ok: bool,
    pub steam_path: Option<String>,
    pub proton_ok: bool,
    pub proton_count: usize,
    pub prefix_ok: bool,
    pub wemod_ok: bool,
    pub issues: Vec<String>,
}

/// The settings the front end can change.
#[derive(Debug, Clone)]
pub struct ConfigDto {
    pub steam_path: Option<String>,
    pub scan_flatpak: bool,
    pub preferred_proton: Option<String>,
    pub auto_update_wemod: bool,
}

impl GameInfo {
    /// This record describes `g`.
    pub open spec fn describes(self, g: SteamApp) -> bool {
        &&& self.app_id == g.app_id
        &&& self.name@ == g.name@
        &&& self.size@ == spec_size_human(g.size_on_disk as nat)
        &&& self.uses_proton == g.compat_data_path is Some
        &&& self.install_path@ == g.install_path@
    }

    /// The record of a game.
    pub fn from_app(g: &SteamApp) -> (r: GameInfo)
        ensures
            r.describes(*g),
    {
        GameInfo {
            app_id: g.app_id,
            name: string_of(g.name.as_str()),
            size: g.size_human(),
            uses_proton: g.uses_proton(),
            install_path: string_of(g.install_path.as_str()),
        }
    }
}

/// The games that run through Proton, in order.
pub open spec fn proton_games(gs: Seq<SteamApp>) -> Seq<SteamApp>
    decreases gs.len(),
{
    if gs.len() == 0 {
        Seq::empty()
    } else {
        let rest = proton_games(gs.drop_last());
        if gs.last().compat_data_path is Some {
            rest.push(gs.last())
        } else {
            rest
        }
    }
}

/// The games behind a list of references.
pub open spec fn apps_of(games: Seq<&SteamApp>) -> Seq<SteamApp> {
    games.map_values(|g: &SteamApp| *g)
}

/// The records of the games that run through Proton, in the order given.
pub fn games_info(games: &Vec<&SteamApp>) -> (r: Vec<GameInfo>)
    ensures
        r@.len() == proton_games(apps_of(games@)).len(),
        forall|i: int|
            0 <= i < r@.len() ==> #[trigger] r@[i].describes(
                proton_games(apps_of(games@))[i],
            ),
{
    let ghost gs = apps_of(games@);
    let mut out: Vec<GameInfo> = Vec::new();
    let mut i: usize = 0;
    while i < games.len()
        invariant
            i <= games@.len(),
            gs == apps_of(games@),
            out@.len() == proton_games(gs.take(i as int)).len(),
            forall|k: int|
                0 <= k < out@.len() ==> #[trigger] out@[k].describes(
                    proton_games(gs.take(i as int))[k],
                ),
        decreases games.len() - i,
    {
        proof {
            assert(gs.take(i + 1).drop_last() =~= gs.take(i as int));
            assert(gs.take(i + 1).last() == *games@[i as int]);
        }
        let g = games[i];
        let ghost prev = proton_games(gs.take(i as int));
        let ghost old_out = out@;
        if g.uses_proton() {
            let info = GameInfo::from_app(g);
            assert(info.describes(*g));
            out.push(info);
            assert(out@[old_out.len() as int] == info);
        }
        proof {
            let now = proton_games(gs.take(i + 1));
            assert(now == (if g.compat_data_path is Some {
                prev.push(*g)
            } else {
                prev
            }));
            assert forall|k: int| 0 <= k < out@.len() implies #[trigger] out@[k].describes(
                now[k],
            ) by {
                if k < old_out.len() {
                    assert(old_out[k].describes(prev[k]));
                    assert(out@[k] == old_out[k]);
                    assert(now[k] == prev[k]);
                } else {
                    assert(g.compat_data_path is Some);
                    assert(now[k] == *g);
                }
            }
        }
        i = i + 1;
    }
    proof {
        assert(gs.take(games@.len() as int) =~= gs);
    }
    out
}

/// The health label the front end shows.
pub open spec fn spec_health_label(h: PrefixHealth) -> Seq<char> {
    match h {
        PrefixHealth::Healthy => "healthy"@,
        PrefixHealth::NeedsRepair(_) => "needs_repair"@,
        PrefixHealth::Corrupted(_) => "corrupted"@,
        PrefixHealth::NotCreated => "not_created"@,
    }
}

/// The problems the front end lists: each issue's message when the prefix needs repair, the
/// reason when it is corrupted, none otherwise.
pub open spec fn spec_health_issues(h: PrefixHealth) -> Seq<Seq<char>> {
    match h {
        PrefixHealth::NeedsRepair(is) => is@.map_values(|i: PrefixIssue| i.spec_message()),
        PrefixHealth::Corrupted(reason) => seq![reason@],
        _ => Seq::empty(),
    }
}

impl PrefixInfo {
    /// The record of a prefix in the given health.
    pub fn new(p: &WandaPrefix, health: &PrefixHealth) -> (r: PrefixInfo)
        ensures
            r.name@ == p.name@,
            r.path@ == p.path@,
            r.wemod_installed == p.wemod_installed,
            opt_view(r.wemod_version) == opt_view(p.wemod_version),
            opt_view(r.proton_version) == opt_view(p.proton_version),
            r.health@ == spec_health_label(*health),
            r.issues@.map_values(|s: String| s@) == spec_health_issues(*health),
    {
        let mut issues: Vec<String> = Vec::new();
        let label = match health {
            PrefixHealth::Healthy => string_of("healthy"),
            PrefixHealth::NeedsRepair(is) => {
                for i in 0..is.len()
                    invariant
                        issues@.map_values(|s: String| s@) == is@.take(i as int).map_values(
                            |x: PrefixIssue| x.spec_message(),
                        ),
                {
                    let ghost before = issues@;
                    let m = is[i].message();
                    issues.push(m);
                    proof {
                        assert(is@.take(i + 1) =~= is@.take(i as int).push(is@[i as int]));
                        assert(issues@ =~= before.push(m));
                        assert(issues@.map_values(|s: String| s@) =~= before.map_values(
                            |s: String| s@,
                        ).push(m@));
                        assert(is@.take(i + 1).map_values(|x: PrefixIssue| x.spec_message())
                            =~= is@.take(i as int).map_values(|x: PrefixIssue| x.spec_message()).push(
                            is@[i as int].spec_message(),
                        ));
                    }
                }
                assert(is@.take(is@.len() as int) =~= is@);
                string_of("needs_repair")
            },
            PrefixHealth::Corrupted(reason) => {
                issues.push(string_of(reason.as_str()));
                assert(issues@.map_values(|s: String| s@) =~= seq![reason@]);
                string_of("corrupted")
            },
            PrefixHealth::NotCreated => string_of("not_created"),
        };
        assert(issues@.map_values(|s: String| s@) =~= spec_health_issues(*health));
        PrefixInfo {
            name: string_of(p.name.as_str()),
            path: string_of(p.path.as_str()),
            wemod_installed: p.wemod_installed,
            wemod_version: clone_opt(&p.wemod_version),
            proton_version: clone_opt(&p.proton_version),
            health: label,
            issues,
        }
    }
}

/// A copy of an optional string.
fn clone_opt(o: &Option<String>) -> (r: Option<String>)
    ensures
        opt_view(r) == opt_view(*o),
{
    match o {
        Some(s) => Some(string_of(s.as_str())),
        None => None,
    }
}

/// The compatibility label the front end shows.
pub open spec fn spec_compat_label(c: ProtonCompatibility) -> Seq<char> {
    match c {
        ProtonCompatibility::Recommended => "recommended"@,
        ProtonCompatibility::Supported => "supported"@,
        ProtonCompatibility::Experimental => "experimental"@,
        ProtonCompatibility::Unsupported => "unsupported"@,
    }
}

impl ProtonInfo {
    /// The record of a build; it is marked recommended when it has the name of the build
    /// WANDA would use.
    pub fn new(v: &ProtonVersion, preferred: Option<&ProtonVersion>) -> (r: ProtonInfo)
        ensures
            r.name@ == v.name@,
            r.path@ == v.path@,
            r.compatibility@ == spec_compat_label(v.compatibility),
            r.is_ge == v.is_ge,
            r.is_recommended == (preferred matches Some(p) && p.name@ == v.name@),
    {
        let compatibility = match v.compatibility {
            ProtonCompatibility::Recommended => string_of("recommended"),
            ProtonCompatibility::Supported => string_of("supported"),
            ProtonCompatibility::Experimental => string_of("experimental"),
            ProtonCompatibility::Unsupported => string_of("unsupported"),
        };
        let is_recommended = match preferred {
            Some(p) => str_eq(p.name.as_str(), v.name.as_str()),
            None => false,
        };
        ProtonInfo {
            name: string_of(v.name.as_str()),
            path: string_of(v.path.as_str()),
            compatibility,
            is_ge: v.is_ge,
            is_recommended,
        }
    }
}

impl WemodStatus {
    /// WeMod's status in the default prefix (if any), given the newest release (if it could
    /// be found): an update is available when both versions are known and differ.
    pub fn new(prefix: Option<&WandaPrefix>, latest: Option<&WemodRelease>) -> (r: WemodStatus)
        ensures
            r.installed == (prefix matches Some(p) && p.wemod_installed),
            opt_view(r.version) == (match prefix {
                Some(p) => opt_view(p.wemod_version),
                None => None,
            }),
            opt_view(r.latest_version) == (match latest {
                Some(l) => opt_view(l.version),
                None => None,
            }),
            r.update_available == (match (opt_view(r.version), opt_view(r.latest_version)) {
                (Some(a), Some(b)) => a != b,
                _ => false,
            }),
    {
        let installed = match prefix {
            Some(p) => p.wemod_installed,
            None => false,
        };
        let version = match prefix {
            Some(p) => clone_opt(&p.wemod_version),
            None => None,
        };
        let latest_version = match latest {
            Some(l) => clone_opt(&l.version),
            None => None,
        };
        let update_available = match (&version, &latest_version) {
            (Some(a), Some(b)) => !str_eq(a.as_str(), b.as_str()),
            _ => false,
        };
        WemodStatus { installed, version, update_available, latest_version }
    }
}

impl InitStatus {
    /// How far WANDA is set up, from the application state after a load attempt: Steam and
    /// Proton builds found, the `default` prefix present, WeMod installed in it.
    pub fn from_state(state: &AppState) -> (r: InitStatus)
        ensures
            r.steam_found == state.steam is Some,
            r.proton_found == (state.proton matches Some(p) && p.versions@.len() > 0),
            r.prefix_exists == (state.prefix_manager matches Some(pm) && first_prefix_named(
                pm.prefixes@,
                "default"@,
                0,
            ) is Some),
            r.wemod_installed == (state.prefix_manager matches Some(pm) && (match first_prefix_named(
                pm.prefixes@,
                "default"@,
                0,
            ) {
                Some(i) => pm.prefixes@[i].wemod_installed,
                None => false,
            })),
            r.initialized == r.wemod_installed,
    {
        let steam_found = state.steam.is_some();
        let proton_found = match &state.proton {
            Some(p) => p.versions.len() > 0,
            None => false,
        };
        let (prefix_exists, wemod_installed) = match &state.prefix_manager {
            Some(pm) => match pm.get("default") {
                Some(p) => (true, p.wemod_installed),
                None => (false, false),
            },
            None => (false, false),
        };
        InitStatus {
            initialized: wemod_installed,
            steam_found,
            proton_found,
            prefix_exists,
            wemod_installed,
        }
    }
}

impl ConfigDto {
    /// The settings of a configuration.
    pub fn from_config(c: &WandaConfig) -> (r: ConfigDto)
        ensures
            opt_view(r.steam_path) == opt_view(c.steam.install_path),
            r.scan_flatpak == c.steam.scan_flatpak,
            opt_view(r.preferred_proton) == opt_view(c.proton.preferred_version),
            r.auto_update_wemod == c.wemod.auto_update,
    {
        ConfigDto {
            steam_path: clone_opt(&c.steam.install_path),
            scan_flatpak: c.steam.scan_flatpak,
            preferred_proton: clone_opt(&c.proton.preferred_version),
            auto_update_wemod: c.wemod.auto_update,
        }
    }

    /// Writes these settings into a configuration, leaving the rest of it as it was.
    pub fn apply(self, c: &mut WandaConfig)
        ensures
            final(c).steam.install_path == self.steam_path,
            final(c).steam.scan_flatpak == self.scan_flatpak,
            final(c).proton.preferred_version == self.preferred_proton,
            final(c).wemod.auto_update == self.auto_update_wemod,
            final(c).version == old(c).version,
            final(c).steam.additional_libraries == old(c).steam.additional_libraries,
            final(c).proton.search_paths == old(c).proton.search_paths,
            final(c).wemod.version == old(c).wemod.version,
            final(c).prefix == old(c).prefix,
    {
        c.steam.install_path = self.steam_path;
        c.steam.scan_flatpak = self.scan_flatpak;
        c.proton.preferred_version = self.preferred_proton;
        c.wemod.auto_update = self.auto_update_wemod;
    }
}

/// What the doctor's checks gave.
#[derive(Debug, Clone)]
pub struct DoctorFindings {
    /// Why the configuration could not be loaded, if it could not.
    pub config_error: Option<String>,
    /// Steam's root, or why it was not found (`None` when there was no configuration).
    pub steam: Option<Result<String, String>>,
    /// How many Proton builds were found, or why the search failed (`None` when Steam was
    /// not found).
    pub proton: Option<Result<usize, String>>,
    /// Whether the `default` prefix is healthy and has WeMod, when it exists (`None` when
    /// there was no configuration).
    pub prefix: Option<Option<(bool, bool)>>,
}

/// The doctor's list of problems, in the order they are checked.
pub open spec fn spec_doctor_issues(f: DoctorFindings) -> Seq<Seq<char>> {
    let a = match f.config_error {
        Some(e) => seq!["Config error: "@ + e@],
        None => Seq::empty(),
    };
    let b = match f.steam {
        Some(Err(e)) => a.push("Steam not found: "@ + e@),
        _ => a,
    };
    let c = match f.proton {
        Some(Ok(n)) => if n == 0 {
            b.push("No Proton versions found"@)
        } else {
            b
        },
        Some(Err(e)) => b.push("Proton error: "@ + e@),
        None => b,
    };
    let d = match f.prefix {
        Some(Some((healthy, _))) => if !healthy {
            c.push("Prefix needs repair"@)
        } else {
            c
        },
        Some(None) => c.push("WANDA not initialized"@),
        None => c,
    };
    match f.prefix {
        Some(Some((_, wemod))) => if !wemod {
            d.push("WeMod not installed"@)
        } else {
            d
        },
        _ => d,
    }
}

fn prefixed(p: &str, s: &str) -> (r: String)
    ensures
        r@ == p@ + s@,
{
    let mut v: Vec<char> = Vec::new();
    push_str(&mut v, p);
    push_str(&mut v, s);
    assert(v@ =~= p@ + s@);
    string_from_chars(v.as_slice())
}

impl DoctorReport {
    /// The doctor's report from its findings.
    pub fn from_findings(f: &DoctorFindings) -> (r: DoctorReport)
        ensures
            r.steam_ok == (f.steam matches Some(Ok(_))),
            opt_view(r.steam_path) == (match f.steam {
                Some(Ok(p)) => Some(p@),
                _ => None,
            }),
            r.proton_ok == (f.proton matches Some(Ok(n)) && n > 0),
            r.proton_count == (match f.proton {
                Some(Ok(n)) => n,
                _ => 0,
            }),
            r.prefix_ok == (f.prefix matches Some(Some(_))),
            r.wemod_ok == (f.prefix matches Some(Some((_, w))) && w),
            r.issues@.map_values(|s: String| s@) == spec_doctor_issues(*f),
    {
        let mut issues: Vec<String> = Vec::new();
        if let Some(e) = &f.config_error {
            issues.push(prefixed("Config error: ", e.as_str()));
        }
        let (steam_ok, steam_path) = match &f.steam {
            Some(Ok(p)) => (true, Some(string_of(p.as_str()))),
            Some(Err(e)) => {
                issues.push(prefixed("Steam not found: ", e.as_str()));
                (false, None)
            },
            None => (false, None),
        };
        let (proton_ok, proton_count) = match &f.proton {
            Some(Ok(n)) => {
                if *n > 0 {
                    (true, *n)
                } else {
                    issues.push(string_of("No Proton versions found"));
                    (false, 0)
                }
            },
            Some(Err(e)) => {
                issues.push(prefixed("Proton error: ", e.as_str()));
                (false, 0)
            },
            None => (false, 0),
        };
        let (prefix_ok, wemod_ok) = match &f.prefix {
            Some(Some((healthy, wemod))) => {
                if !*healthy {
                    issues.push(string_of("Prefix needs repair"));
                }
                (true, *wemod)
            },
            Some(None) => {
                issues.push(string_of("WANDA not initialized"));
                (false, false)
            },
            None => (false, false),
        };
        if !wemod_ok && prefix_ok {
            issues.push(string_of("WeMod not installed"));
        }
        assert(issues@.map_values(|s: String| s@) =~= spec_doctor_issues(*f));
        DoctorReport { steam_ok, steam_path, proton_ok, proton_count, prefix_ok, wemod_ok, issues }
    }
}

} // verus!
