//! Steam installations, their library folders and the games installed in them.

use vstd::prelude::*;
use std::collections::HashMap;
use crate::config::{WandaConfig, opt_view, user_data_local_dir, user_home_dir};
use crate::error::WandaError;
use crate::paths::{join, spec_join};
use crate::steam::vdf::{parse_vdf_file, spec_parse_vdf, SpecVdf, VdfValue};
use crate::text::{
    chars_of, decimal, parse_u32, parse_u64, push_decimal, push_str, spec_contains, spec_decimal,
    spec_ends_with, spec_lowercase, spec_parse_u32, spec_parse_u64, starts_with_chars,
    ends_with_chars, str_contains, string_from_chars, string_of, to_lowercase,
};

verus! {

broadcast use vstd::std_specs::hash::group_hash_axioms;

/// A Steam installation and its library folders.
#[derive(Debug, Clone)]
pub struct SteamInstallation {
    /// The Steam root directory.
    pub root_path: String,
    /// The library folders, in the order `libraryfolders.vdf` lists them.
    pub libraries: Vec<SteamLibrary>,
    /// Whether this is the Flatpak installation.
    pub is_flatpak: bool,
}

/// A Steam library folder and the games installed in it, by App ID.
#[derive(Debug, Clone)]
pub struct SteamLibrary {
    pub path: String,
    pub label: Option<String>,
    pub apps: HashMap<u32, SteamApp>,
}

/// An installed Steam game.
#[derive(Debug, Clone)]
pub struct SteamApp {
    pub app_id: u32,
    pub name: String,
    /// The directory name under `steamapps/common/`.
    pub install_dir: String,
    /// The full installation path.
    pub install_path: String,
    /// The library folder the game belongs to.
    pub library_path: String,
    /// Size on disk, in bytes.
    pub size_on_disk: u64,
    /// The game's Proton compatdata directory, when it has one.
    pub compat_data_path: Option<String>,
}

impl SteamApp {
    /// Whether the game runs through Proton (it has a compatdata directory).
    pub fn uses_proton(&self) -> (r: bool)
        ensures
            r == self.compat_data_path is Some,
    {
        self.compat_data_path.is_some()
    }

    /// The game's Wine prefix: `pfx` inside its compatdata directory.
    pub fn get_prefix_path(&self) -> (r: Option<String>)
        ensures
            opt_view(r) == match self.compat_data_path {
                Some(c) => Some(spec_join(c@, "pfx"@)),
                None => None,
            },
    {
        match &self.compat_data_path {
            Some(c) => Some(join(c.as_str(), "pfx")),
            None => None,
        }
    }
}

/// The spacing between neighbouring `f64` values around `u`: 1 below 2^53, doubling with
/// each further bit.
pub open spec fn f64_spacing(u: nat) -> nat
    decreases u,
{
    if u < 0x20_0000_0000_0000 {
        1
    } else {
        2 * f64_spacing(u / 2)
    }
}

/// `u as f64` for a whole number `u`: rounded to the nearest multiple of the spacing, ties
/// to the even multiple.
pub open spec fn f64_of(u: nat) -> nat {
    let s = f64_spacing(u);
    let lo = (u - u % s) as nat;
    let rem = u % s;
    if 2 * rem > s || (2 * rem == s && (lo / s) % 2 == 1) {
        lo + s
    } else {
        lo
    }
}

/// Tenths of `m / unit`, rounded to the nearest, ties to the even number of tenths (how
/// `{:.1}` prints a float).
pub open spec fn tenths(m: nat, unit: nat) -> nat {
    let q = (10 * m) / unit;
    let r = (10 * m) % unit;
    if 2 * r > unit || (2 * r == unit && q % 2 == 1) {
        q + 1
    } else {
        q
    }
}

/// A number of tenths written with one decimal, e.g. `500` as `50.0`.
pub open spec fn one_decimal(t: nat) -> Seq<char> {
    spec_decimal(t / 10) + seq!['.'] + spec_decimal(t % 10)
}

/// A size in bytes the way `size_human` writes it: in the largest of GB, MB and KB (powers of
/// 1024) that it reaches, with one decimal, else in bytes.
pub open spec fn spec_size_human(u: nat) -> Seq<char> {
    if u >= 0x4000_0000 {
        one_decimal(tenths(f64_of(u), 0x4000_0000)) + " GB"@
    } else if u >= 0x10_0000 {
        one_decimal(tenths(f64_of(u), 0x10_0000)) + " MB"@
    } else if u >= 0x400 {
        one_decimal(tenths(f64_of(u), 0x400)) + " KB"@
    } else {
        spec_decimal(u) + " B"@
    }
}

proof fn lemma_spacing_bounds(u: nat)
    ensures
        1 <= f64_spacing(u),
        u >= 0x20_0000_0000_0000 ==> f64_spacing(u) * 0x10_0000_0000_0000 <= u,
        u >= 0x20_0000_0000_0000 ==> f64_spacing(u) <= u,
    decreases u,
{
    if u >= 0x20_0000_0000_0000 {
        lemma_spacing_bounds(u / 2);
        assert(f64_spacing(u) * 0x10_0000_0000_0000 <= u) by (nonlinear_arith)
            requires
                f64_spacing(u) == 2 * f64_spacing(u / 2),
                (u / 2) >= 0x20_0000_0000_0000 ==> f64_spacing(u / 2) * 0x10_0000_0000_0000 <= u / 2,
                (u / 2) < 0x20_0000_0000_0000 ==> f64_spacing(u / 2) == 1,
                u >= 0x20_0000_0000_0000;
    }
}

/// `u as f64`, as a whole number.
fn f64_of_exec(u: u64) -> (m: u128)
    ensures
        m == f64_of(u as nat),
        m <= 2 * (u as nat) + 1,
{
    let mut s: u128 = 1;
    let mut v: u64 = u;
    while v >= 0x20_0000_0000_0000
        invariant
            f64_spacing(u as nat) == s * f64_spacing(v as nat),
            1 <= s <= 0x1000,
            s * v <= u,
            v >= 0x20_0000_0000_0000 ==> s < 0x800,
        decreases v,
    {
        proof {
            assert(f64_spacing(v as nat) == 2 * f64_spacing((v / 2) as nat));
            assert(s * f64_spacing(v as nat) == (2 * s) * f64_spacing((v / 2) as nat)) by (nonlinear_arith)
                requires f64_spacing(v as nat) == 2 * f64_spacing((v / 2) as nat);
            assert((2 * s) * ((v / 2) as nat) <= s * v) by (nonlinear_arith)
                requires s >= 1;
            if (v / 2) >= 0x20_0000_0000_0000 {
                assert(s * 2 < 0x800) by (nonlinear_arith)
                    requires s * v <= u, v >= 0x40_0000_0000_0000, u < 0x1_0000_0000_0000_0000;
            }
        }
        s = s * 2;
        v = v / 2;
    }
    assert(f64_spacing(v as nat) == 1);
    assert(f64_spacing(u as nat) == s) by (nonlinear_arith)
        requires f64_spacing(u as nat) == s * f64_spacing(v as nat), f64_spacing(v as nat) == 1;
    let uu = u as u128;
    let rem = uu % s;
    let lo = uu - rem;
    let r = if 2 * rem > s || (2 * rem == s && (lo / s) % 2 == 1) { lo + s } else { lo };
    proof {
        lemma_spacing_bounds(u as nat);
    }
    r
}

/// The one-decimal rendering of `m / unit` followed by `suffix`.
fn push_tenths(out: &mut Vec<char>, m: u128, unit: u128, suffix: &str)
    requires
        0x400 <= unit <= 0x1_0000_0000_0000,
        m <= 0x2_0000_0000_0000_0001,
    ensures
        final(out)@ == old(out)@ + one_decimal(tenths(m as nat, unit as nat)) + suffix@,
{
    let t10 = 10 * m;
    let q = t10 / unit;
    let r = t10 % unit;
    assert(q <= 0x8000_0000_0000_0000) by (nonlinear_arith)
        requires q == t10 / unit, unit >= 0x400, t10 == 10 * m, m <= 0x2_0000_0000_0000_0001;
    let t = if 2 * r > unit || (2 * r == unit && q % 2 == 1) { q + 1 } else { q };
    assert(t == tenths(m as nat, unit as nat));
    let whole = t / 10;
    let frac = t % 10;
    let ghost start = out@;
    push_decimal(out, whole as u64);
    out.push('.');
    push_decimal(out, frac as u64);
    push_str(out, suffix);
    assert(out@ =~= start + one_decimal(tenths(m as nat, unit as nat)) + suffix@);
}

impl SteamApp {
    /// The size on disk in human-readable form, e.g. `50.0 GB`.
    pub fn size_human(&self) -> (r: String)
        ensures
            r@ == spec_size_human(self.size_on_disk as nat),
    {
        let u = self.size_on_disk;
        let mut out: Vec<char> = Vec::new();
        if u >= 0x4000_0000 {
            let m = f64_of_exec(u);
            push_tenths(&mut out, m, 0x4000_0000, " GB");
        } else if u >= 0x10_0000 {
            let m = f64_of_exec(u);
            push_tenths(&mut out, m, 0x10_0000, " MB");
        } else if u >= 0x400 {
            let m = f64_of_exec(u);
            push_tenths(&mut out, m, 0x400, " KB");
        } else {
            push_decimal(&mut out, u);
            push_str(&mut out, " B");
        }
        assert(out@ =~= spec_size_human(u as nat));
        string_from_chars(out.as_slice())
    }
}


/// The string under key `k` of a block.
pub open spec fn spec_get_str(v: SpecVdf, k: Seq<char>) -> Option<Seq<char>> {
    match v.spec_get(k) {
        Some(SpecVdf::Str(t)) => Some(t),
        _ => None,
    }
}

/// Why an app manifest is rejected, if it is: the parser's message, or the missing or invalid
/// field.
pub open spec fn manifest_error(content: Seq<char>) -> Option<Seq<char>> {
    match spec_parse_vdf(content) {
        Err(e) => Some(e.spec_message()),
        Ok(root) => match root.spec_get("AppState"@) {
            None => Some("Missing 'AppState' key"@),
            Some(st) => match spec_get_str(st, "appid"@) {
                None => Some("Missing 'appid'"@),
                Some(a) => match spec_parse_u32(a) {
                    None => Some("Invalid 'appid'"@),
                    Some(_) => None,
                },
            },
        },
    }
}

/// The `AppState` block of a manifest that parses.
pub open spec fn manifest_state(content: Seq<char>) -> SpecVdf {
    match spec_parse_vdf(content) {
        Ok(root) => match root.spec_get("AppState"@) {
            Some(st) => st,
            None => SpecVdf::Str(Seq::empty()),
        },
        Err(_) => SpecVdf::Str(Seq::empty()),
    }
}

/// A string field of the `AppState` block, or `fallback` when it is missing.
pub open spec fn state_str_or(content: Seq<char>, k: Seq<char>, fallback: Seq<char>) -> Seq<char> {
    match spec_get_str(manifest_state(content), k) {
        Some(t) => t,
        None => fallback,
    }
}

/// The App ID of an accepted manifest.
pub open spec fn manifest_app_id(content: Seq<char>) -> u32 {
    match spec_get_str(manifest_state(content), "appid"@) {
        Some(a) => match spec_parse_u32(a) {
            Some(n) => n,
            None => 0,
        },
        None => 0,
    }
}

/// The size on disk an accepted manifest gives, 0 when missing or not a number.
pub open spec fn manifest_size(content: Seq<char>) -> u64 {
    match spec_get_str(manifest_state(content), "SizeOnDisk"@) {
        Some(a) => match spec_parse_u64(a) {
            Some(n) => n,
            None => 0,
        },
        None => 0,
    }
}

/// The size of a manifest whose `SizeOnDisk` field is written in decimal is that number,
/// for every size up to `u64::MAX` (a game of 50 GB reads as 50000000000 bytes).
pub proof fn lemma_manifest_size_reads_decimal(content: Seq<char>, n: u64)
    requires
        spec_get_str(manifest_state(content), "SizeOnDisk"@) == Some(spec_decimal(n as nat)),
    ensures
        manifest_size(content) == n,
{
    crate::text::lemma_parse_u64_decimal(n);
}

/// A manifest whose `appid` field is the decimal notation of an App ID is accepted if it
/// parses and has its `AppState` block, and the app read has that App ID.
pub proof fn lemma_manifest_app_id_reads_decimal(content: Seq<char>, id: u32)
    requires
        spec_parse_vdf(content) is Ok,
        spec_get_str(manifest_state(content), "appid"@) == Some(spec_decimal(id as nat)),
        spec_parse_vdf(content)->Ok_0.spec_get("AppState"@) is Some,
    ensures
        manifest_error(content) is None,
        manifest_app_id(content) == id,
{
    crate::text::lemma_parse_u32_decimal(id);
}

/// The compatdata directory for an App ID in a library.
pub open spec fn spec_compat_dir(library: Seq<char>, app_id: u32) -> Seq<char> {
    spec_join(spec_join(library, "steamapps/compatdata"@), spec_decimal(app_id as nat))
}

/// The file name of an app manifest: `appmanifest_*.acf`.
pub open spec fn spec_is_manifest_name(name: Seq<char>) -> bool {
    name.len() >= "appmanifest_"@.len() && name.take("appmanifest_"@.len() as int)
        == "appmanifest_"@ && spec_ends_with(name, ".acf"@)
}

/// A string's view paired with an optional string's view.
pub open spec fn pair_view(p: (String, Option<String>)) -> (Seq<char>, Option<Seq<char>>) {
    (p.0@, opt_view(p.1))
}

/// The library folders listed in the `libraryfolders` block: the entries whose key is a
/// number and whose block has a `path`, with their optional `label`, in order.
pub open spec fn spec_library_entries(es: Seq<(Seq<char>, SpecVdf)>) -> Seq<
    (Seq<char>, Option<Seq<char>>),
>
    decreases es.len(),
{
    if es.len() == 0 {
        Seq::empty()
    } else {
        let rest = spec_library_entries(es.drop_last());
        let (k, v) = es.last();
        if spec_parse_u32(k) is Some && spec_get_str(v, "path"@) is Some {
            rest.push((spec_get_str(v, "path"@)->0, spec_get_str(v, "label"@)))
        } else {
            rest
        }
    }
}

/// What reading `libraryfolders.vdf` gives: the library folders, or why the file is rejected.
pub open spec fn spec_library_folders(content: Seq<char>) -> Result<
    Seq<(Seq<char>, Option<Seq<char>>)>,
    Seq<char>,
> {
    match spec_parse_vdf(content) {
        Err(e) => Err(e.spec_message()),
        Ok(root) => match root.spec_get("libraryfolders"@) {
            None => Err("Missing 'libraryfolders' key"@),
            Some(SpecVdf::Str(_)) => Err("'libraryfolders' is not an object"@),
            Some(SpecVdf::Obj(es)) => Ok(spec_library_entries(es)),
        },
    }
}

/// The string under `key`, or `fallback` when there is none.
fn get_str_or(v: &VdfValue, key: &str, fallback: &str) -> (r: String)
    ensures
        r@ == match spec_get_str(v@, key@) {
            Some(t) => t,
            None => fallback@,
        },
{
    match v.get_str(key) {
        Some(t) => string_of(t),
        None => string_of(fallback),
    }
}

impl SteamApp {
    /// The app, keeping its compatdata directory only when that directory exists.
    pub fn with_compat_data(self, exists: bool) -> (r: SteamApp)
        ensures
            r.app_id == self.app_id,
            r.name == self.name,
            r.install_dir == self.install_dir,
            r.install_path == self.install_path,
            r.library_path == self.library_path,
            r.size_on_disk == self.size_on_disk,
            r.compat_data_path == (if exists {
                self.compat_data_path
            } else {
                None
            }),
    {
        let mut app = self;
        if !exists {
            app.compat_data_path = None;
        }
        app
    }
}

impl SteamLibrary {
    /// A library folder with no games recorded yet.
    pub fn new(path: String, label: Option<String>) -> (r: SteamLibrary)
        ensures
            r.path == path,
            r.label == label,
            r.apps@ == Map::<u32, SteamApp>::empty(),
    {
        SteamLibrary { path, label, apps: HashMap::new() }
    }

    /// Whether a file name in `steamapps` is an app manifest (`appmanifest_*.acf`).
    pub fn is_app_manifest_name(name: &str) -> (r: bool)
        ensures
            r == spec_is_manifest_name(name@),
    {
        let n = chars_of(name);
        let a = starts_with_chars(&n, &chars_of("appmanifest_"));
        let b = ends_with_chars(&n, &chars_of(".acf"));
        a && b
    }

    /// Records a game, replacing any game recorded under the same App ID.
    pub fn add_app(&mut self, app: SteamApp)
        ensures
            final(self).apps@ == old(self).apps@.insert(app.app_id, app),
            final(self).path == old(self).path,
            final(self).label == old(self).label,
    {
        self.apps.insert(app.app_id, app);
    }

    /// Reads an app manifest (`appmanifest_*.acf`) of this library given its path and text.
    /// The game's compatdata directory is recorded as
    /// `steamapps/compatdata/<app id>` under the library whether or not it exists (see
    /// `SteamApp::with_compat_data`).
    pub fn parse_app_manifest(&self, acf_path: &str, content: &str) -> (r: Result<
        SteamApp,
        WandaError,
    >)
        ensures
            match manifest_error(content@) {
                Some(reason) => r matches Err(WandaError::VdfParseError { path, reason: why }) && path@
                    == acf_path@ && why@ == reason,
                None => r matches Ok(app) && {
                    &&& app.app_id == manifest_app_id(content@)
                    &&& app.name@ == state_str_or(content@, "name"@, "Unknown"@)
                    &&& app.install_dir@ == state_str_or(content@, "installdir"@, ""@)
                    &&& app.install_path@ == spec_join(
                        spec_join(self.path@, "steamapps/common"@),
                        app.install_dir@,
                    )
                    &&& app.library_path@ == self.path@
                    &&& app.size_on_disk == manifest_size(content@)
                    &&& opt_view(app.compat_data_path) == Some(
                        spec_compat_dir(self.path@, app.app_id),
                    )
                },
            },
    {
        let vdf = match parse_vdf_file(acf_path, content) {
            Ok(v) => v,
            Err(e) => {
                return Err(e);
            },
        };
        let st = match vdf.get("AppState") {
            Some(st) => st,
            None => {
                return Err(
                    WandaError::VdfParseError {
                        path: string_of(acf_path),
                        reason: string_of("Missing 'AppState' key"),
                    },
                );
            },
        };
        let a = match st.get_str("appid") {
            Some(a) => a,
            None => {
                return Err(
                    WandaError::VdfParseError {
                        path: string_of(acf_path),
                        reason: string_of("Missing 'appid'"),
                    },
                );
            },
        };
        let app_id = match parse_u32(a) {
            Some(n) => n,
            None => {
                return Err(
                    WandaError::VdfParseError {
                        path: string_of(acf_path),
                        reason: string_of("Invalid 'appid'"),
                    },
                );
            },
        };
        let name = get_str_or(st, "name", "Unknown");
        let install_dir = get_str_or(st, "installdir", "");
        let size_on_disk = match st.get_str("SizeOnDisk") {
            Some(t) => match parse_u64(t) {
                Some(n) => n,
                None => 0,
            },
            None => 0,
        };
        let common = join(self.path.as_str(), "steamapps/common");
        let install_path = join(common.as_str(), install_dir.as_str());
        let compat_root = join(self.path.as_str(), "steamapps/compatdata");
        let id_text = decimal(app_id as u64);
        let compat = join(compat_root.as_str(), id_text.as_str());
        Ok(
            SteamApp {
                app_id,
                name,
                install_dir,
                install_path,
                library_path: self.path.clone(),
                size_on_disk,
                compat_data_path: Some(compat),
            },
        )
    }
}


/// Every value of `m` occurs in `seg`, and every element of `seg` is a value of `m`.
pub open spec fn covers(seg: Seq<&SteamApp>, m: Map<u32, SteamApp>) -> bool {
    &&& forall|j: int| 0 <= j < seg.len() ==> m.values().contains(*seg[j])
    &&& forall|k: u32| #[trigger] m.contains_key(k) ==> exists|y: int| 0 <= y < seg.len() && *seg[y] == m[k]
}

proof fn lemma_covers(seg: Seq<&SteamApp>, s: Seq<&SteamApp>, n: int, m: Map<u32, SteamApp>)
    ensures
        (n == s.len() && s.unref().to_set() == m.values() && seg == s.take(n)) ==> covers(seg, m),
        (s.len() == 0 && m.dom().len() == 0 && seg.len() == 0 && m.dom().finite()) ==> covers(seg, m),
{
    if n == s.len() && s.unref().to_set() == m.values() && seg == s.take(n) {
        assert(seg =~= s);
        assert forall|j: int| 0 <= j < seg.len() implies m.values().contains(*seg[j]) by {
            assert(s.unref()[j] == *s[j]);
            assert(s.unref().to_set().contains(*s[j]));
        }
        assert forall|k: u32| #[trigger] m.contains_key(k) implies exists|y: int| 0 <= y < seg.len() && *seg[y] == m[k] by {
            assert(m.values().contains(m[k]));
            assert(s.unref().to_set().contains(m[k]));
            let y = choose|y: int| 0 <= y < s.unref().len() && s.unref()[y] == m[k];
            assert(*seg[y] == m[k]);
        }
    }
    if s.len() == 0 && m.dom().len() == 0 && seg.len() == 0 && m.dom().finite() {
        assert forall|k: u32| #[trigger] m.contains_key(k) implies false by {
            assert(m.dom().contains(k));
        }
    }
}

/// How many games the libraries record, counting each library's games once.
pub open spec fn games_count(libs: Seq<SteamLibrary>) -> nat
    decreases libs.len(),
{
    if libs.len() == 0 {
        0
    } else {
        games_count(libs.drop_last()) + libs.last().apps@.dom().len()
    }
}

/// `all` lists the games of `libs` library by library, in order: for each library a run of
/// as many entries as it records games, in which every game it records occurs and nothing
/// else does (within a run the order is the `HashMap`'s).
pub open spec fn games_listing(libs: Seq<SteamLibrary>, all: Seq<&SteamApp>) -> bool
    decreases libs.len(),
{
    if libs.len() == 0 {
        all.len() == 0
    } else {
        let n = libs.last().apps@.dom().len();
        &&& n <= all.len()
        &&& covers(all.skip(all.len() - n), libs.last().apps@)
        &&& games_listing(libs.drop_last(), all.take(all.len() - n))
    }
}

/// The entries of `s` whose name contains `q` ignoring case, in order.
pub open spec fn matching_games(s: Seq<&SteamApp>, q: Seq<char>) -> Seq<&SteamApp>
    decreases s.len(),
{
    if s.len() == 0 {
        Seq::empty()
    } else {
        let rest = matching_games(s.drop_last(), q);
        if name_matches(*s.last(), q) {
            rest.push(s.last())
        } else {
            rest
        }
    }
}

/// `app` is recorded in one of the libraries.
pub open spec fn recorded_in(libs: Seq<SteamLibrary>, app: SteamApp) -> bool {
    exists|i: int, k: u32|
        0 <= i < libs.len() && #[trigger] libs[i].apps@.contains_key(k) && libs[i].apps@[k]
            == app
}

/// The first library, in order, that records App ID `id`.
pub open spec fn first_library_with(libs: Seq<SteamLibrary>, id: u32) -> Option<int>
    decreases libs.len(),
{
    if libs.len() == 0 {
        None
    } else {
        match first_library_with(libs.drop_last(), id) {
            Some(i) => Some(i),
            None => if libs.last().apps@.contains_key(id) {
                Some(libs.len() - 1)
            } else {
                None
            },
        }
    }
}

/// A game's name matches a search when the lower-cased search text occurs in the
/// lower-cased name.
pub open spec fn name_matches(app: SteamApp, search: Seq<char>) -> bool {
    spec_contains(spec_lowercase(app.name@), spec_lowercase(search))
}

proof fn lemma_first_library_with(libs: Seq<SteamLibrary>, id: u32)
    ensures
        first_library_with(libs, id) matches Some(i) ==> 0 <= i < libs.len()
            && libs[i].apps@.contains_key(id) && forall|j: int|
            0 <= j < i ==> !(#[trigger] libs[j].apps@.contains_key(id)),
        first_library_with(libs, id) is None ==> forall|j: int|
            0 <= j < libs.len() ==> !(#[trigger] libs[j].apps@.contains_key(id)),
    decreases libs.len(),
{
    if libs.len() > 0 {
        lemma_first_library_with(libs.drop_last(), id);
        assert forall|j: int| 0 <= j < libs.len() - 1 implies libs[j] == libs.drop_last()[j] by {}
    }
}

impl SteamInstallation {
    /// Every recorded game, library by library; within a library the order is the
    /// `HashMap`'s.
    pub fn get_all_games(&self) -> (r: Vec<&SteamApp>)
        ensures
            games_listing(self.libraries@, r@),
            r@.len() == games_count(self.libraries@),
            forall|j: int| 0 <= j < r@.len() ==> recorded_in(self.libraries@, *r@[j]),
            forall|i: int, k: u32|
                0 <= i < self.libraries@.len() && #[trigger] self.libraries@[i].apps@.contains_key(k)
                    ==> exists|j: int| 0 <= j < r@.len() && *r@[j] == self.libraries@[i].apps@[k],
    {
        let mut out: Vec<&SteamApp> = Vec::new();
        let mut i: usize = 0;
        while i < self.libraries.len()
            invariant
                i <= self.libraries@.len(),
                out@.len() == games_count(self.libraries@.take(i as int)),
                games_listing(self.libraries@.take(i as int), out@),
                forall|j: int| 0 <= j < out@.len() ==> recorded_in(self.libraries@, *out@[j]),
                forall|a: int, k: u32|
                    0 <= a < i && #[trigger] self.libraries@[a].apps@.contains_key(k) ==> exists|
                        j: int,
                    | 0 <= j < out@.len() && *out@[j] == self.libraries@[a].apps@[k],
            decreases self.libraries@.len() - i,
        {
            let lib = &self.libraries[i];
            let ghost before = out@;
            let ghost m = lib.apps@;
            for app in it: lib.apps.values()
                invariant
                    out@.len() == before.len() + it.index(),
                    forall|j: int| 0 <= j < before.len() ==> out@[j] == before[j],
                    forall|j: int|
                        0 <= j < it.index() ==> out@[before.len() + j] == it.seq()[j],
                    it.seq().unref().to_set() == m.values(),
                    it.seq().len() == m.dom().len(),
                    it.index() <= it.seq().len(),
                    m == lib.apps@,
                    it.index() == it.seq().len() ==> covers(out@.subrange(before.len() as int, out@.len() as int), m),
            {
                out.push(app);
                proof {
                    lemma_covers(out@.subrange(before.len() as int, out@.len() as int), it.seq(), it.index(), m);
                    lemma_covers(out@.subrange(before.len() as int, out@.len() as int), it.seq(), it.index() + 1, m);
                    assert(out@.subrange(before.len() as int, out@.len() as int) =~= it.seq().take(it.index() + 1)) by {
                        assert forall|j: int| 0 <= j < it.index() + 1 implies out@[before.len() + j] == it.seq()[j] by {}
                    }
                }
            }
            proof {
                assert(self.libraries@.take(i + 1).drop_last() =~= self.libraries@.take(i as int));
                lemma_covers(out@.subrange(before.len() as int, out@.len() as int), Seq::empty(), 0, m);
                let seg = out@.subrange(before.len() as int, out@.len() as int);
                assert(covers(seg, m));
                let lt = self.libraries@.take(i + 1);
                assert(lt.last() == self.libraries@[i as int]);
                assert(lt.drop_last() =~= self.libraries@.take(i as int));
                assert(out@.skip(out@.len() - m.dom().len()) =~= seg);
                assert(out@.take(out@.len() - m.dom().len()) =~= before);
                assert(games_listing(lt, out@));
                assert forall|j: int| 0 <= j < out@.len() implies recorded_in(
                    self.libraries@,
                    *out@[j],
                ) by {
                    if j >= before.len() {
                        let x = *out@[j];
                        assert(seg[j - before.len()] == out@[j]);
                        assert(m.values().contains(x));
                        let k = choose|k: u32| m.contains_key(k) && m[k] == x;
                        assert(self.libraries@[i as int].apps@.contains_key(k));
                        assert(self.libraries@[i as int].apps@[k] == x);
                        assert(recorded_in(self.libraries@, x));
                    } else {
                        assert(out@[j] == before[j]);
                        assert(recorded_in(self.libraries@, *before[j]));
                    }
                }
                assert forall|a: int, k: u32|
                    0 <= a < i + 1 && #[trigger] self.libraries@[a].apps@.contains_key(
                        k,
                    ) implies exists|j: int|
                    0 <= j < out@.len() && *out@[j] == self.libraries@[a].apps@[k] by {
                    if a == i {
                        let y = choose|y: int| 0 <= y < seg.len() && *seg[y] == m[k];
                        assert(out@[before.len() + y] == seg[y]);
                    }
                }
            }
            i = i + 1;
        }
        assert(self.libraries@.take(i as int) =~= self.libraries@);
        out
    }

    /// The game with App ID `app_id` from the first library, in order, that records it.
    pub fn find_game(&self, app_id: u32) -> (r: Option<&SteamApp>)
        ensures
            match first_library_with(self.libraries@, app_id) {
                Some(i) => r == Some(&self.libraries@[i].apps@[app_id]),
                None => r is None,
            },
    {
        proof {
            lemma_first_library_with(self.libraries@, app_id);
        }
        let mut i: usize = 0;
        while i < self.libraries.len()
            invariant
                i <= self.libraries@.len(),
                forall|j: int| 0 <= j < i ==> !(#[trigger] self.libraries@[j].apps@.contains_key(app_id)),
            decreases self.libraries@.len() - i,
        {
            let found = self.libraries[i].apps.get(&app_id);
            if found.is_some() {
                proof {
                    lemma_first_library_with(self.libraries@, app_id);
                    if let Some(m) = first_library_with(self.libraries@, app_id) {
                        assert(!(m < i));
                        assert(!(m > i));
                    }
                }
                return found;
            }
            i = i + 1;
        }
        proof {
            lemma_first_library_with(self.libraries@, app_id);
            if let Some(m) = first_library_with(self.libraries@, app_id) {
                assert(self.libraries@[m].apps@.contains_key(app_id));
            }
        }
        None
    }

    /// The games whose name contains `name`, compared in lower case, in the order
    /// `get_all_games` gives.
    pub fn find_game_by_name(&self, name: &str) -> (r: Vec<&SteamApp>)
        ensures
            exists|all: Seq<&SteamApp>|
                #[trigger] games_listing(self.libraries@, all) && r@ == matching_games(all, name@),
            forall|j: int|
                0 <= j < r@.len() ==> recorded_in(self.libraries@, *r@[j]) && name_matches(
                    *r@[j],
                    name@,
                ),
            forall|i: int, k: u32|
                0 <= i < self.libraries@.len() && #[trigger] self.libraries@[i].apps@.contains_key(k)
                    && name_matches(self.libraries@[i].apps@[k], name@) ==> exists|j: int|
                    0 <= j < r@.len() && *r@[j] == self.libraries@[i].apps@[k],
    {
        let lower = to_lowercase(name);
        let all = self.get_all_games();
        let mut out: Vec<&SteamApp> = Vec::new();
        let mut j: usize = 0;
        while j < all.len()
            invariant
                j <= all@.len(),
                forall|x: int|
                    0 <= x < out@.len() ==> recorded_in(self.libraries@, *out@[x]) && name_matches(
                        *out@[x],
                        name@,
                    ),
                forall|x: int|
                    0 <= x < j && name_matches(*all@[x], name@) ==> exists|y: int|
                        0 <= y < out@.len() && out@[y] == all@[x],
                forall|x: int| 0 <= x < all@.len() ==> recorded_in(self.libraries@, *all@[x]),
                lower@ == spec_lowercase(name@),
                out@ == matching_games(all@.take(j as int), name@),
            decreases all@.len() - j,
        {
            let app = all[j];
            proof {
                assert(all@.take(j + 1).drop_last() =~= all@.take(j as int));
                assert(all@.take(j + 1).last() == all@[j as int]);
            }
            let n = to_lowercase(app.name.as_str());
            let ghost old_out = out@;
            if str_contains(n.as_str(), lower.as_str()) {
                out.push(app);
                assert(out@[out@.len() - 1] == all@[j as int]);
                assert forall|x: int|
                    0 <= x < j + 1 && name_matches(*all@[x], name@) implies exists|y: int|
                        0 <= y < out@.len() && out@[y] == all@[x] by {
                    if x < j {
                        let y = choose|y: int| 0 <= y < old_out.len() && old_out[y] == all@[x];
                        assert(out@[y] == old_out[y]);
                    } else {
                        assert(out@[out@.len() - 1] == all@[x]);
                    }
                }
            } else {
                assert(!name_matches(*all@[j as int], name@));
            }
            j = j + 1;
        }
        proof {
            assert forall|i: int, k: u32|
                0 <= i < self.libraries@.len() && #[trigger] self.libraries@[i].apps@.contains_key(k)
                    && name_matches(self.libraries@[i].apps@[k], name@) implies exists|y: int|
                0 <= y < out@.len() && *out@[y] == self.libraries@[i].apps@[k] by {
                let x = choose|x: int| 0 <= x < all@.len() && *all@[x] == self.libraries@[i].apps@[k];
                let y = choose|y: int| 0 <= y < out@.len() && out@[y] == all@[x];
                assert(*out@[y] == self.libraries@[i].apps@[k]);
            }
            assert(all@.take(all@.len() as int) =~= all@);
            assert(games_listing(self.libraries@, all@));
        }
        out
    }
}


/// The places a Steam root is looked for, each with whether it is the Flatpak one: `Steam`
/// in the local data directory, `.steam/steam` and `.steam/root` in the home directory, and,
/// when `scan_flatpak` is set, Flatpak Steam's data directory in the home directory.
pub open spec fn spec_candidate_paths(
    data_local: Option<Seq<char>>,
    home: Option<Seq<char>>,
    scan_flatpak: bool,
) -> Seq<(Seq<char>, bool)> {
    let a: Seq<(Seq<char>, bool)> = match data_local {
        Some(d) => seq![(spec_join(d, "Steam"@), false)],
        None => Seq::empty(),
    };
    let b: Seq<(Seq<char>, bool)> = match home {
        Some(h) => seq![(spec_join(h, ".steam/steam"@), false), (spec_join(h, ".steam/root"@), false)],
        None => Seq::empty(),
    };
    let c: Seq<(Seq<char>, bool)> = match home {
        Some(h) => if scan_flatpak {
            seq![(spec_join(h, ".var/app/com.valvesoftware.Steam/.local/share/Steam"@), true)]
        } else {
            Seq::empty()
        },
        None => Seq::empty(),
    };
    a + b + c
}

/// The view of a list of candidate roots.
pub open spec fn candidates_view(v: Seq<(String, bool)>) -> Seq<(Seq<char>, bool)> {
    Seq::new(v.len(), |i: int| (v[i].0@, v[i].1))
}

/// The first candidate marked valid.
pub open spec fn first_valid(valid: Seq<bool>) -> Option<int>
    decreases valid.len(),
{
    if valid.len() == 0 {
        None
    } else {
        match first_valid(valid.drop_last()) {
            Some(i) => Some(i),
            None => if valid.last() {
                Some(valid.len() - 1)
            } else {
                None
            },
        }
    }
}

proof fn lemma_first_valid(valid: Seq<bool>)
    ensures
        first_valid(valid) matches Some(i) ==> 0 <= i < valid.len() && valid[i] && forall|j: int|
            0 <= j < i ==> !valid[j],
        first_valid(valid) is None ==> forall|j: int| 0 <= j < valid.len() ==> !valid[j],
    decreases valid.len(),
{
    if valid.len() > 0 {
        lemma_first_valid(valid.drop_last());
        assert forall|j: int| 0 <= j < valid.len() - 1 implies valid[j] == valid.drop_last()[j] by {}
    }
}

impl SteamInstallation {
    /// The places a Steam root is looked for, given the local data and home directories.
    pub fn candidate_paths_in(data_local: Option<String>, home: Option<String>, scan_flatpak: bool) -> (r: Vec<(String, bool)>)
        ensures
            candidates_view(r@) == spec_candidate_paths(opt_view(data_local), opt_view(home), scan_flatpak),
    {
        let mut v: Vec<(String, bool)> = Vec::new();
        match &data_local {
            Some(d) => v.push((join(d.as_str(), "Steam"), false)),
            None => {},
        }
        match &home {
            Some(h) => {
                v.push((join(h.as_str(), ".steam/steam"), false));
                v.push((join(h.as_str(), ".steam/root"), false));
                if scan_flatpak {
                    v.push((join(h.as_str(), ".var/app/com.valvesoftware.Steam/.local/share/Steam"), true));
                }
            },
            None => {},
        }
        assert(candidates_view(v@) =~= spec_candidate_paths(opt_view(data_local), opt_view(home), scan_flatpak));
        v
    }

    /// The places a Steam root is looked for, under the user's directories.
    pub fn get_candidate_paths(scan_flatpak: bool) -> (r: Vec<(String, bool)>)
        ensures
            exists|d: Option<Seq<char>>, h: Option<Seq<char>>| candidates_view(r@)
                == spec_candidate_paths(d, h, scan_flatpak),
    {
        let d = user_data_local_dir();
        let h = user_home_dir();
        let ghost dv = opt_view(d);
        let ghost hv = opt_view(h);
        Self::candidate_paths_in(d, h, scan_flatpak)
    }

    /// The two files whose presence makes a directory a Steam root:
    /// `config/libraryfolders.vdf` and `steamapps/libraryfolders.vdf`.
    pub fn library_folders_files(root: &str) -> (r: (String, String))
        ensures
            r.0@ == spec_join(root@, "config/libraryfolders.vdf"@),
            r.1@ == spec_join(root@, "steamapps/libraryfolders.vdf"@),
    {
        (join(root, "config/libraryfolders.vdf"), join(root, "steamapps/libraryfolders.vdf"))
    }

    /// Chooses the Steam root: the configured one when it is a valid Steam root, else the
    /// first valid candidate; `SteamNotFound` when there is none. `configured_valid` says
    /// whether the configured path is valid, `valid[i]` whether `candidates[i]` is.
    pub fn discover(
        config: &WandaConfig,
        configured_valid: bool,
        candidates: &Vec<(String, bool)>,
        valid: &Vec<bool>,
    ) -> (r: Result<(String, bool), WandaError>)
        requires
            valid@.len() == candidates@.len(),
        ensures
            if config.steam.install_path is Some && configured_valid {
                r matches Ok((root, flat)) && Some(root@) == opt_view(config.steam.install_path) && !flat
            } else {
                match first_valid(valid@) {
                    Some(i) => r matches Ok((root, flat)) && root@ == candidates@[i].0@ && flat
                        == candidates@[i].1,
                    None => r matches Err(WandaError::SteamNotFound),
                }
            },
    {
        match &config.steam.install_path {
            Some(p) => {
                if configured_valid {
                    return Ok((p.clone(), false));
                }
            },
            None => {},
        }
        proof {
            lemma_first_valid(valid@);
        }
        let mut i: usize = 0;
        while i < candidates.len()
            invariant
                i <= candidates@.len(),
                valid@.len() == candidates@.len(),
                !(config.steam.install_path is Some && configured_valid),
                forall|j: int| 0 <= j < i ==> !valid@[j],
            decreases candidates@.len() - i,
        {
            if valid[i] {
                proof {
                    lemma_first_valid(valid@);
                    if let Some(m) = first_valid(valid@) {
                        assert(!(m < i));
                        assert(!(m > i));
                    }
                }
                return Ok((candidates[i].0.clone(), candidates[i].1));
            }
            i = i + 1;
        }
        proof {
            lemma_first_valid(valid@);
            if let Some(m) = first_valid(valid@) {
                assert(valid@[m]);
            }
        }
        Err(WandaError::SteamNotFound)
    }

    /// The `libraryfolders.vdf` to read for a Steam root: the one under `config` when it
    /// exists, else the one under `steamapps`.
    pub fn library_folders_path(root: &str, config_file_exists: bool) -> (r: String)
        ensures
            r@ == (if config_file_exists {
                spec_join(root@, "config/libraryfolders.vdf"@)
            } else {
                spec_join(root@, "steamapps/libraryfolders.vdf"@)
            }),
    {
        if config_file_exists {
            join(root, "config/libraryfolders.vdf")
        } else {
            join(root, "steamapps/libraryfolders.vdf")
        }
    }

    /// Reads `libraryfolders.vdf` (given its path and text): the library folders it lists,
    /// with their labels, in order.
    pub fn parse_library_folders(vdf_path: &str, content: &str) -> (r: Result<
        Vec<(String, Option<String>)>,
        WandaError,
    >)
        ensures
            match spec_library_folders(content@) {
                Ok(libs) => r matches Ok(v) && v@.map_values(|p: (String, Option<String>)| pair_view(p))
                    == libs,
                Err(reason) => r matches Err(WandaError::VdfParseError { path, reason: why })
                    && path@ == vdf_path@ && why@ == reason,
            },
    {
        let vdf = match parse_vdf_file(vdf_path, content) {
            Ok(v) => v,
            Err(e) => {
                return Err(e);
            },
        };
        let folders = match vdf.get("libraryfolders") {
            Some(f) => f,
            None => {
                return Err(
                    WandaError::VdfParseError {
                        path: string_of(vdf_path),
                        reason: string_of("Missing 'libraryfolders' key"),
                    },
                );
            },
        };
        let es = match folders.as_object() {
            Some(es) => es,
            None => {
                return Err(
                    WandaError::VdfParseError {
                        path: string_of(vdf_path),
                        reason: string_of("'libraryfolders' is not an object"),
                    },
                );
            },
        };
        let ghost ev = crate::steam::vdf::entries_view(es@);
        proof {
            crate::steam::vdf::lemma_entries_view(es@);
        }
        let mut out: Vec<(String, Option<String>)> = Vec::new();
        let mut i: usize = 0;
        while i < es.len()
            invariant
                i <= es@.len(),
                ev == crate::steam::vdf::entries_view(es@),
                ev.len() == es@.len(),
                forall|j: int| 0 <= j < es@.len() ==> #[trigger] ev[j] == (es@[j].0@, es@[j].1@),
                out@.map_values(|p: (String, Option<String>)| pair_view(p)) == spec_library_entries(
                    ev.take(i as int),
                ),
            decreases es@.len() - i,
        {
            let (k, v) = &es[i];
            assert(ev.take(i + 1).drop_last() =~= ev.take(i as int));
            assert(ev.take(i + 1).last() == ev[i as int]);
            if parse_u32(k.as_str()).is_some() {
                match v.get_str("path") {
                    Some(p) => {
                        let label = match v.get_str("label") {
                            Some(l) => Some(string_of(l)),
                            None => None,
                        };
                        out.push((string_of(p), label));
                    },
                    None => {},
                }
            }
            i = i + 1;
            assert(out@.map_values(|p: (String, Option<String>)| pair_view(p)) =~= spec_library_entries(ev.take(i as int)));
        }
        assert(ev.take(i as int) =~= ev);
        Ok(out)
    }
}

} // verus!
