//! WANDA's Wine prefixes: where their parts live, how healthy they are, and the list of them.

use vstd::prelude::*;
use crate::config::{WandaConfig, dir_or_current, opt_view};
use crate::error::WandaError;
use crate::paths::{join, spec_join};
use crate::text::{
    chars_of, decimal, parse_u32_chars, push_decimal, spec_decimal, spec_parse_u32, spec_starts_with, str_eq,
    str_starts_with, string_from_chars, string_of,
};

verus! {

/// How healthy a prefix is.
#[derive(Debug, Clone)]
pub enum PrefixHealth {
    /// Ready for use.
    Healthy,
    /// Has problems that may be repairable.
    NeedsRepair(Vec<PrefixIssue>),
    /// Broken beyond repair, for the given reason.
    Corrupted(String),
    /// Does not exist yet.
    NotCreated,
}

/// A problem found in a prefix.
#[derive(Debug, Clone)]
pub enum PrefixIssue {
    /// .NET Framework is missing.
    MissingDotNet,
    /// A dependency is missing.
    MissingDependency(String),
    /// The registry looks damaged.
    CorruptedRegistry,
    /// WeMod is not installed.
    WemodNotInstalled,
    /// WeMod is out of date.
    WemodOutdated,
    /// The Wine prefix structure is incomplete.
    IncompletePrefix,
}

impl PrefixIssue {
    /// The description of the problem shown to users.
    pub open spec fn spec_message(&self) -> Seq<char> {
        match self {
            PrefixIssue::MissingDotNet => ".NET Framework 4.8 not installed"@,
            PrefixIssue::MissingDependency(dep) => "Missing dependency: "@ + dep@,
            PrefixIssue::CorruptedRegistry => "Windows registry is corrupted"@,
            PrefixIssue::WemodNotInstalled => "WeMod is not installed"@,
            PrefixIssue::WemodOutdated => "WeMod is outdated"@,
            PrefixIssue::IncompletePrefix => "Wine prefix structure is incomplete"@,
        }
    }

    /// The description of the problem shown to users (what `to_string` gives).
    pub fn message(&self) -> (m: String)
        ensures
            m@ == self.spec_message(),
    {
        match self {
            PrefixIssue::MissingDotNet => string_of(".NET Framework 4.8 not installed"),
            PrefixIssue::MissingDependency(dep) => {
                let mut v: Vec<char> = Vec::new();
                crate::text::push_str(&mut v, "Missing dependency: ");
                crate::text::push_str(&mut v, dep.as_str());
                crate::text::string_from_chars(v.as_slice())
            },
            PrefixIssue::CorruptedRegistry => string_of("Windows registry is corrupted"),
            PrefixIssue::WemodNotInstalled => string_of("WeMod is not installed"),
            PrefixIssue::WemodOutdated => string_of("WeMod is outdated"),
            PrefixIssue::IncompletePrefix => string_of("Wine prefix structure is incomplete"),
        }
    }
}

/// What WANDA records about one of its prefixes.
#[derive(Debug, Clone)]
pub struct WandaPrefix {
    /// The prefix's name.
    pub name: String,
    /// The prefix's directory (Proton's compatibility-data directory).
    pub path: String,
    /// Whether WeMod is installed in it.
    pub wemod_installed: bool,
    /// The installed WeMod version.
    pub wemod_version: Option<String>,
    /// The Proton build that created it.
    pub proton_version: Option<String>,
    /// When it was created, in ISO 8601 UTC (`chrono_lite_now`).
    pub created_at: Option<String>,
    /// When it was last used.
    pub last_used: Option<String>,
}

/// The Wine prefix inside a prefix directory (Proton keeps it in `pfx`).
pub open spec fn spec_pfx_path(path: Seq<char>) -> Seq<char> {
    spec_join(path, "pfx"@)
}

/// The prefix's `drive_c`.
pub open spec fn spec_drive_c(path: Seq<char>) -> Seq<char> {
    spec_join(spec_pfx_path(path), "drive_c"@)
}

/// The prefix's Windows user folder.
pub open spec fn spec_user_folder(path: Seq<char>) -> Seq<char> {
    spec_join(spec_drive_c(path), "users/steamuser"@)
}

/// Where WeMod 12 ("Wand") installs itself in a prefix.
pub open spec fn spec_wand_dir(path: Seq<char>) -> Seq<char> {
    spec_join(spec_user_folder(path), "AppData/Local/Wand"@)
}

/// Where WeMod 11 installs itself in a prefix.
pub open spec fn spec_wemod_dir(path: Seq<char>) -> Seq<char> {
    spec_join(spec_user_folder(path), "AppData/Local/WeMod"@)
}

/// An entry of a directory that may hold WeMod.
#[derive(Debug, Clone)]
pub struct DirEntryInfo {
    /// The entry's name.
    pub name: String,
    /// Whether the entry is a directory.
    pub is_dir: bool,
    /// Whether `WeMod.exe` exists inside the entry.
    pub has_wemod_exe: bool,
}

/// What is on disk in a directory that may hold WeMod.
#[derive(Debug, Clone)]
pub struct DirListing {
    /// Whether the directory exists.
    pub exists: bool,
    /// Whether `WeMod.exe` exists directly inside it (the updater stub).
    pub has_wemod_exe: bool,
    /// Its entries (empty when it cannot be read).
    pub entries: Vec<DirEntryInfo>,
}

/// The directory holds a WeMod install: a root `WeMod.exe`, or an `app-*` entry holding
/// `WeMod.exe`.
pub open spec fn spec_is_install_dir(l: DirListing) -> bool {
    l.has_wemod_exe || exists|i: int|
        0 <= i < l.entries@.len() && spec_starts_with(#[trigger] l.entries@[i].name@, "app-"@)
            && l.entries@[i].has_wemod_exe
}

/// Which of the two WeMod directories is used: the one holding an install (Wand first),
/// else the one that exists (Wand first), else the WeMod one.
pub open spec fn spec_uses_wand(wand: DirListing, wemod: DirListing) -> bool {
    if spec_is_install_dir(wand) {
        true
    } else if spec_is_install_dir(wemod) {
        false
    } else if wand.exists {
        true
    } else {
        false
    }
}

/// An entry that is a versioned WeMod app directory holding `WeMod.exe`.
pub open spec fn is_app_dir(e: DirEntryInfo) -> bool {
    spec_starts_with(e.name@, "app-"@) && e.is_dir && e.has_wemod_exe
}

/// The pieces of `s` between dots, in order (empty pieces included).
pub open spec fn dot_pieces(s: Seq<char>) -> Seq<Seq<char>>
    decreases s.len(),
{
    if s.len() == 0 {
        seq![Seq::empty()]
    } else {
        let ps = dot_pieces(s.drop_last());
        if s.last() == '.' {
            ps.push(Seq::empty())
        } else {
            ps.update(ps.len() - 1, ps.last().push(s.last()))
        }
    }
}

/// Each piece as a number, 0 for a piece that is not one.
pub open spec fn piece_values(ps: Seq<Seq<char>>) -> Seq<u32>
    decreases ps.len(),
{
    if ps.len() == 0 {
        Seq::empty()
    } else {
        piece_values(ps.drop_last()).push(
            match spec_parse_u32(ps.last()) {
                Some(n) => n,
                None => 0,
            },
        )
    }
}

/// The version of an `app-<version>` directory: the dot-separated numbers after `app-`.
pub open spec fn spec_app_version(name: Seq<char>) -> Seq<u32> {
    piece_values(dot_pieces(name.subrange(4, name.len() as int)))
}

/// Version `a` is lower than `b`: at the first place they differ `a`'s number is smaller, or
/// `a` ends where `b` goes on (so 11.9.0 < 11.10.0 and 11.10 < 11.10.0).
pub open spec fn spec_version_lt(a: Seq<u32>, b: Seq<u32>) -> bool
    decreases a.len(),
{
    if a.len() == 0 {
        b.len() > 0
    } else if b.len() == 0 {
        false
    } else if a[0] != b[0] {
        a[0] < b[0]
    } else {
        spec_version_lt(a.drop_first(), b.drop_first())
    }
}

/// The version of an `app-<version>` directory name (see `spec_app_version`).
pub fn app_version(name: &str) -> (r: Vec<u32>)
    requires
        name@.len() >= 4,
    ensures
        r@ == spec_app_version(name@),
{
    let cs = chars_of(name);
    let mut r: Vec<u32> = Vec::new();
    let mut cur: Vec<char> = Vec::new();
    let ghost mut done: Seq<Seq<char>> = Seq::empty();
    let mut i: usize = 4;
    proof {
        assert(cs@.subrange(4, 4) =~= Seq::<char>::empty());
        assert(done.push(cur@) =~= seq![Seq::<char>::empty()]);
    }
    while i < cs.len()
        invariant
            4 <= i <= cs.len(),
            cs@ == name@,
            dot_pieces(cs@.subrange(4, i as int)) == done.push(cur@),
            r@ == piece_values(done),
        decreases cs.len() - i,
    {
        let c = cs[i];
        proof {
            assert(cs@.subrange(4, i + 1).drop_last() =~= cs@.subrange(4, i as int));
            assert(cs@.subrange(4, i + 1).last() == c);
        }
        if c == '.' {
            let v = match parse_u32_chars(&cur) {
                Some(n) => n,
                None => 0,
            };
            proof {
                assert(done.push(cur@).drop_last() =~= done);
                done = done.push(cur@);
            }
            r.push(v);
            cur = Vec::new();
        } else {
            let ghost before = cur@;
            cur.push(c);
            proof {
                assert(done.push(before).update(done.len() as int, before.push(c)) =~= done.push(
                    cur@,
                ));
            }
        }
        i = i + 1;
    }
    let v = match parse_u32_chars(&cur) {
        Some(n) => n,
        None => 0,
    };
    proof {
        assert(cs@.subrange(4, cs.len() as int) =~= name@.subrange(4, name@.len() as int));
        assert(done.push(cur@).drop_last() =~= done);
    }
    r.push(v);
    r
}

/// Whether version `a` is lower than `b` (see `spec_version_lt`).
pub fn version_lt(a: &Vec<u32>, b: &Vec<u32>) -> (r: bool)
    ensures
        r == spec_version_lt(a@, b@),
{
    let mut i: usize = 0;
    assert(a@.skip(0) =~= a@);
    assert(b@.skip(0) =~= b@);
    while i < a.len() && i < b.len()
        invariant
            i <= a@.len(),
            i <= b@.len(),
            spec_version_lt(a@, b@) == spec_version_lt(a@.skip(i as int), b@.skip(i as int)),
        decreases a.len() - i,
    {
        assert(a@.skip(i as int)[0] == a@[i as int]);
        assert(b@.skip(i as int)[0] == b@[i as int]);
        if a[i] != b[i] {
            return a[i] < b[i];
        }
        assert(a@.skip(i as int).drop_first() =~= a@.skip(i + 1));
        assert(b@.skip(i as int).drop_first() =~= b@.skip(i + 1));
        i = i + 1;
    }
    i == a.len() && i < b.len()
}

/// The name of the app directory of highest version among `es` (the first of equal
/// versions).
pub open spec fn spec_best_app_dir(es: Seq<DirEntryInfo>) -> Option<Seq<char>>
    decreases es.len(),
{
    if es.len() == 0 {
        None
    } else {
        let b = spec_best_app_dir(es.drop_last());
        let e = es.last();
        if is_app_dir(e) && (b is None || spec_version_lt(
            spec_app_version(b->0),
            spec_app_version(e.name@),
        )) {
            Some(e.name@)
        } else {
            b
        }
    }
}

impl WandaPrefix {
    /// The Wine prefix (the `pfx` subdirectory).
    pub fn pfx_path(&self) -> (r: String)
        ensures
            r@ == spec_pfx_path(self.path@),
    {
        join(self.path.as_str(), "pfx")
    }

    /// The prefix's `drive_c`.
    pub fn drive_c(&self) -> (r: String)
        ensures
            r@ == spec_drive_c(self.path@),
    {
        join(self.pfx_path().as_str(), "drive_c")
    }

    /// The prefix's Windows user folder.
    pub fn user_folder(&self) -> (r: String)
        ensures
            r@ == spec_user_folder(self.path@),
    {
        join(self.drive_c().as_str(), "users/steamuser")
    }

    /// Whether a directory holds a WeMod install: a root `WeMod.exe` (the updater stub) or an
    /// `app-*` entry holding `WeMod.exe`.
    pub fn is_wemod_install_dir(dir: &DirListing) -> (r: bool)
        ensures
            r == spec_is_install_dir(*dir),
    {
        if dir.has_wemod_exe {
            return true;
        }
        for i in 0..dir.entries.len()
            invariant
                !dir.has_wemod_exe,
                forall|j: int|
                    0 <= j < i ==> !(spec_starts_with(#[trigger] dir.entries@[j].name@, "app-"@)
                        && dir.entries@[j].has_wemod_exe),
        {
            let e = &dir.entries[i];
            if str_starts_with(e.name.as_str(), "app-") && e.has_wemod_exe {
                return true;
            }
        }
        false
    }

    /// The WeMod directory: WeMod 12 installs under `Wand`, WeMod 11 under `WeMod` (and may
    /// leave an empty `Wand` for its logs), so the one holding an install wins, Wand first;
    /// then the one that exists, Wand first; else the WeMod one, for a fresh install.
    pub fn wemod_path(&self, wand: &DirListing, wemod: &DirListing) -> (r: String)
        ensures
            r@ == (if spec_uses_wand(*wand, *wemod) {
                spec_wand_dir(self.path@)
            } else {
                spec_wemod_dir(self.path@)
            }),
    {
        let user = self.user_folder();
        let wand_path = join(user.as_str(), "AppData/Local/Wand");
        let wemod_path = join(user.as_str(), "AppData/Local/WeMod");
        if Self::is_wemod_install_dir(wand) {
            return wand_path;
        }
        if Self::is_wemod_install_dir(wemod) {
            return wemod_path;
        }
        if wand.exists {
            return wand_path;
        }
        wemod_path
    }

    /// The WeMod updater stub, `WeMod.exe` in the WeMod directory.
    pub fn wemod_exe(&self, wand: &DirListing, wemod: &DirListing) -> (r: String)
        ensures
            r@ == spec_join(
                (if spec_uses_wand(*wand, *wemod) {
                    spec_wand_dir(self.path@)
                } else {
                    spec_wemod_dir(self.path@)
                }),
                "WeMod.exe"@,
            ),
    {
        join(self.wemod_path(wand, wemod).as_str(), "WeMod.exe")
    }

    /// The real WeMod executable, `WeMod.exe` in the `app-*` directory of highest version in the
    /// WeMod directory (the stub at the root only starts it and exits).
    pub fn wemod_app_exe(&self, wand: &DirListing, wemod: &DirListing) -> (r: Option<String>)
        ensures
            ({
                let uses_wand = spec_uses_wand(*wand, *wemod);
                let dir = if uses_wand {
                    spec_wand_dir(self.path@)
                } else {
                    spec_wemod_dir(self.path@)
                };
                let chosen = if uses_wand {
                    wand.entries@
                } else {
                    wemod.entries@
                };
                match spec_best_app_dir(chosen) {
                    Some(n) => r matches Some(p) && p@ == spec_join(spec_join(dir, n), "WeMod.exe"@),
                    None => r is None,
                }
            }),
    {
        let dir = self.wemod_path(wand, wemod);
        let uses_wand = Self::is_wemod_install_dir(wand) || (!Self::is_wemod_install_dir(wemod)
            && wand.exists);
        let entries = if uses_wand {
            &wand.entries
        } else {
            &wemod.entries
        };
        let mut best: Option<String> = None;
        let mut best_version: Vec<u32> = Vec::new();
        for i in 0..entries.len()
            invariant
                opt_view(best) == spec_best_app_dir(entries@.take(i as int)),
                best matches Some(b) ==> best_version@ == spec_app_version(b@),
        {
            proof {
                assert(entries@.take(i + 1).drop_last() =~= entries@.take(i as int));
                assert(entries@.take(i + 1).last() == entries@[i as int]);
                reveal_strlit("app-");
            }
            let e = &entries[i];
            if str_starts_with(e.name.as_str(), "app-") && e.is_dir && e.has_wemod_exe {
                let v = app_version(e.name.as_str());
                let better = match &best {
                    None => true,
                    Some(_) => version_lt(&best_version, &v),
                };
                if better {
                    best = Some(string_of(e.name.as_str()));
                    best_version = v;
                }
            }
        }
        proof {
            assert(entries@.take(entries@.len() as int) =~= entries@);
        }
        match best {
            Some(name) => Some(join(join(dir.as_str(), name.as_str()).as_str(), "WeMod.exe")),
            None => None,
        }
    }

    /// Both places WeMod may be installed, Wand first.
    pub fn wemod_paths_all(&self) -> (r: Vec<String>)
        ensures
            r@.len() == 2,
            r@[0]@ == spec_wand_dir(self.path@),
            r@[1]@ == spec_wemod_dir(self.path@),
    {
        let user = self.user_folder();
        let mut r: Vec<String> = Vec::new();
        r.push(join(user.as_str(), "AppData/Local/Wand"));
        r.push(join(user.as_str(), "AppData/Local/WeMod"));
        r
    }

    /// The prefix's `windows/system32`.
    pub fn system32(&self) -> (r: String)
        ensures
            r@ == spec_join(spec_drive_c(self.path@), "windows/system32"@),
    {
        join(self.drive_c().as_str(), "windows/system32")
    }

    /// The record of a prefix just built at `path` by the named Proton build, at time
    /// `created_at`; WeMod is not installed yet.
    pub fn created(name: &str, path: &str, proton_name: &str, created_at: &str) -> (r:
        WandaPrefix)
        ensures
            r.name@ == name@,
            r.path@ == path@,
            !r.wemod_installed,
            r.wemod_version is None,
            opt_view(r.proton_version) == Some(proton_name@),
            opt_view(r.created_at) == Some(created_at@),
            r.last_used is None,
    {
        WandaPrefix {
            name: string_of(name),
            path: string_of(path),
            wemod_installed: false,
            wemod_version: None,
            proton_version: Some(string_of(proton_name)),
            created_at: Some(string_of(created_at)),
            last_used: None,
        }
    }
}

/// What is on disk in a prefix, as far as its health goes.
#[derive(Debug, Clone, Copy)]
pub struct PrefixFacts {
    /// `drive_c` exists.
    pub drive_c: bool,
    /// `windows/system32` exists.
    pub system32: bool,
    /// `pfx/system.reg` exists.
    pub system_reg: bool,
    /// `pfx/user.reg` exists.
    pub user_reg: bool,
    /// `windows/Microsoft.NET` exists.
    pub dotnet: bool,
    /// The WeMod updater stub exists.
    pub wemod_exe: bool,
}

/// The problems found in a prefix whose `drive_c` exists, in the order they are checked.
pub open spec fn spec_issues(f: PrefixFacts) -> Seq<PrefixIssue> {
    let a = if !f.system32 {
        seq![PrefixIssue::IncompletePrefix]
    } else {
        Seq::empty()
    };
    let b = if !f.system_reg || !f.user_reg {
        a.push(PrefixIssue::CorruptedRegistry)
    } else {
        a
    };
    let c = if !f.dotnet {
        b.push(PrefixIssue::MissingDotNet)
    } else {
        b
    };
    if !f.wemod_exe {
        c.push(PrefixIssue::WemodNotInstalled)
    } else {
        c
    }
}

/// The reason given for a prefix whose registry files are missing.
pub open spec fn registry_reason() -> Seq<char> {
    "Registry files are missing or corrupted"@
}

/// The position of the first prefix from `i` on named `name`.
pub open spec fn first_prefix_named(ps: Seq<WandaPrefix>, name: Seq<char>, i: int) -> Option<int>
    decreases ps.len() - i,
{
    if i < 0 || i >= ps.len() {
        None
    } else if ps[i].name@ == name {
        Some(i)
    } else {
        first_prefix_named(ps, name, i + 1)
    }
}

proof fn lemma_first_prefix_named(ps: Seq<WandaPrefix>, name: Seq<char>, i: int)
    requires
        0 <= i,
    ensures
        match first_prefix_named(ps, name, i) {
            Some(k) => i <= k < ps.len() && ps[k].name@ == name && forall|j: int|
                i <= j < k ==> (#[trigger] ps[j]).name@ != name,
            None => forall|j: int| i <= j < ps.len() ==> (#[trigger] ps[j]).name@ != name,
        },
    decreases ps.len() - i,
{
    if i < ps.len() && ps[i].name@ != name {
        lemma_first_prefix_named(ps, name, i + 1);
    }
}

/// The prefixes that remain once those named `name` are dropped, in order.
pub open spec fn without_named(ps: Seq<WandaPrefix>, name: Seq<char>) -> Seq<WandaPrefix> {
    ps.filter(|p: WandaPrefix| p.name@ != name)
}

/// A prefix with `drive_c` is healthy exactly when everything is in place: `system32`, both
/// registry files, .NET and the WeMod stub.
pub proof fn lemma_healthy_iff(f: PrefixFacts)
    ensures
        spec_issues(f).len() == 0 <==> (f.system32 && f.system_reg && f.user_reg && f.dotnet
            && f.wemod_exe),
{
}

/// A prefix needing repair never lists a damaged registry: that makes it corrupted instead.
pub proof fn lemma_repairable_registry_ok(f: PrefixFacts, i: int)
    requires
        f.system_reg && f.user_reg,
        0 <= i < spec_issues(f).len(),
    ensures
        !(spec_issues(f)[i] is CorruptedRegistry),
{
}

/// After a prefix is deleted, no prefix of that name is known, and every prefix of another
/// name is still known.
pub proof fn lemma_delete_forgets(ps: Seq<WandaPrefix>, name: Seq<char>)
    ensures
        first_prefix_named(without_named(ps, name), name, 0) is None,
        forall|i: int|
            0 <= i < ps.len() && ps[i].name@ != name ==> without_named(ps, name).contains(
                #[trigger] ps[i],
            ),
{
    let r = without_named(ps, name);
    let pred = |p: WandaPrefix| p.name@ != name;
    ps.filter_lemma(pred);
    lemma_first_prefix_named(r, name, 0);
    if let Some(k) = first_prefix_named(r, name, 0) {
        assert(pred(r[k]));
    }
}

/// A newly registered prefix whose name was unused is the one found under that name.
pub proof fn lemma_register_then_get(ps: Seq<WandaPrefix>, p: WandaPrefix)
    requires
        first_prefix_named(ps, p.name@, 0) is None,
    ensures
        first_prefix_named(ps.push(p), p.name@, 0) == Some(ps.len() as int),
{
    lemma_first_prefix_named(ps, p.name@, 0);
    let q = ps.push(p);
    lemma_first_prefix_named(q, p.name@, 0);
    match first_prefix_named(q, p.name@, 0) {
        Some(k) => {
            if k < ps.len() {
                assert(q[k] == ps[k]);
            }
        },
        None => {
            assert(q[ps.len() as int] == p);
        },
    }
}

/// A step of repairing a prefix.
#[derive(Debug, Clone)]
pub enum RepairStep {
    /// Build the prefix from scratch.
    CreatePrefix,
    /// Install .NET Framework 4.8.
    InstallDotNet,
    /// Install a dependency through winetricks.
    InstallDependency(String),
}

/// The steps that repair the given problems, in order: .NET and missing dependencies are
/// installed; WeMod is installed separately, and the other problems cannot be repaired.
pub open spec fn spec_repair_steps(issues: Seq<PrefixIssue>) -> Seq<RepairStep>
    decreases issues.len(),
{
    if issues.len() == 0 {
        Seq::empty()
    } else {
        let rest = spec_repair_steps(issues.drop_last());
        match issues.last() {
            PrefixIssue::MissingDotNet => rest.push(RepairStep::InstallDotNet),
            PrefixIssue::MissingDependency(d) => rest.push(RepairStep::InstallDependency(d)),
            _ => rest,
        }
    }
}

/// The views of repair steps, with the dependency names as character sequences.
pub open spec fn step_view(s: RepairStep) -> (int, Seq<char>) {
    match s {
        RepairStep::CreatePrefix => (0, Seq::empty()),
        RepairStep::InstallDotNet => (1, Seq::empty()),
        RepairStep::InstallDependency(d) => (2, d@),
    }
}

/// WANDA's prefixes, under one base directory.
pub struct PrefixManager {
    /// The directory the prefixes live in.
    pub base_path: String,
    /// The prefixes known, in the order they were found or created.
    pub prefixes: Vec<WandaPrefix>,
}

impl PrefixManager {
    /// A manager for the prefixes under the configured base path (or `prefix` in the default
    /// data directory), knowing none yet.
    pub fn new(config: &WandaConfig) -> (r: PrefixManager)
        ensures
            exists|d: Option<Seq<char>>| r.base_path@ == config.spec_prefix_base_path(
                spec_join(dir_or_current(d), "wanda"@),
            ),
            r.prefixes@.len() == 0,
    {
        PrefixManager { base_path: config.prefix_base_path(), prefixes: Vec::new() }
    }

    /// Replaces the known prefixes by those found on disk.
    pub fn load(&mut self, found: Vec<WandaPrefix>)
        ensures
            final(self).prefixes@ == found@,
            final(self).base_path == old(self).base_path,
    {
        self.prefixes = found;
    }

    /// All known prefixes.
    pub fn list(&self) -> (r: &[WandaPrefix])
        ensures
            r@ == self.prefixes@,
    {
        self.prefixes.as_slice()
    }

    /// The first prefix named `name`.
    pub fn get(&self, name: &str) -> (r: Option<&WandaPrefix>)
        ensures
            match first_prefix_named(self.prefixes@, name@, 0) {
                Some(i) => r == Some(&self.prefixes@[i]),
                None => r is None,
            },
    {
        proof {
            lemma_first_prefix_named(self.prefixes@, name@, 0);
        }
        let mut i: usize = 0;
        while i < self.prefixes.len()
            invariant
                i <= self.prefixes@.len(),
                forall|j: int| 0 <= j < i ==> (#[trigger] self.prefixes@[j]).name@ != name@,
            decreases self.prefixes.len() - i,
        {
            if str_eq(self.prefixes[i].name.as_str(), name) {
                proof {
                    lemma_first_prefix_named(self.prefixes@, name@, 0);
                    match first_prefix_named(self.prefixes@, name@, 0) {
                        Some(k) => {
                            assert(!(k < i));
                            assert(!(k > i));
                        },
                        None => {},
                    }
                }
                return Some(&self.prefixes[i]);
            }
            i = i + 1;
        }
        None
    }

    /// The directory a prefix named `name` lives in.
    pub fn prefix_dir(&self, name: &str) -> (r: String)
        ensures
            r@ == spec_join(self.base_path@, name@),
    {
        join(self.base_path.as_str(), name)
    }

    /// How healthy the prefix named `name` is, given what is on disk in it: `NotCreated`
    /// without `drive_c`; otherwise the problems found, `Corrupted` when registry files are
    /// missing, `Healthy` when there are none. `PrefixNotFound` when no prefix has the name.
    pub fn validate(&self, name: &str, facts: &PrefixFacts) -> (r: Result<PrefixHealth, WandaError>)
        ensures
            match first_prefix_named(self.prefixes@, name@, 0) {
                None => r matches Err(WandaError::PrefixNotFound { path }) && path@ == spec_join(
                    self.base_path@,
                    name@,
                ),
                Some(_) => if !facts.drive_c {
                    r matches Ok(PrefixHealth::NotCreated)
                } else if spec_issues(*facts).len() == 0 {
                    r matches Ok(PrefixHealth::Healthy)
                } else if !facts.system_reg || !facts.user_reg {
                    r matches Ok(PrefixHealth::Corrupted(reason)) && reason@ == registry_reason()
                } else {
                    r matches Ok(PrefixHealth::NeedsRepair(issues)) && issues@ == spec_issues(
                        *facts,
                    )
                },
            },
    {
        if self.get(name).is_none() {
            return Err(WandaError::PrefixNotFound { path: self.prefix_dir(name) });
        }
        if !facts.drive_c {
            return Ok(PrefixHealth::NotCreated);
        }
        let mut issues: Vec<PrefixIssue> = Vec::new();
        let mut registry_broken = false;
        if !facts.system32 {
            issues.push(PrefixIssue::IncompletePrefix);
        }
        if !facts.system_reg || !facts.user_reg {
            issues.push(PrefixIssue::CorruptedRegistry);
            registry_broken = true;
        }
        if !facts.dotnet {
            issues.push(PrefixIssue::MissingDotNet);
        }
        if !facts.wemod_exe {
            issues.push(PrefixIssue::WemodNotInstalled);
        }
        assert(issues@ =~= spec_issues(*facts));
        if issues.len() == 0 {
            Ok(PrefixHealth::Healthy)
        } else if registry_broken {
            Ok(PrefixHealth::Corrupted(string_of("Registry files are missing or corrupted")))
        } else {
            Ok(PrefixHealth::NeedsRepair(issues))
        }
    }

    /// The steps that repair the prefix named `name` in the given health: none when it is
    /// healthy, building it when it was never created, installing .NET and missing
    /// dependencies when it needs repair; `PrefixCorrupted` when it is beyond repair.
    pub fn repair_plan(&self, name: &str, health: PrefixHealth) -> (r: Result<
        Vec<RepairStep>,
        WandaError,
    >)
        ensures
            match health {
                PrefixHealth::Healthy => r matches Ok(steps) && steps@.len() == 0,
                PrefixHealth::NotCreated => r matches Ok(steps) && steps@ == seq![
                    RepairStep::CreatePrefix,
                ],
                PrefixHealth::Corrupted(reason) => r matches Err(
                    WandaError::PrefixCorrupted { path, reason: why },
                ) && path@ == spec_join(self.base_path@, name@) && why@ == reason@,
                PrefixHealth::NeedsRepair(issues) => r matches Ok(steps) && steps@.map_values(
                    |s: RepairStep| step_view(s),
                ) == spec_repair_steps(issues@).map_values(|s: RepairStep| step_view(s)),
            },
    {
        match health {
            PrefixHealth::Healthy => Ok(Vec::new()),
            PrefixHealth::NotCreated => {
                let mut steps: Vec<RepairStep> = Vec::new();
                steps.push(RepairStep::CreatePrefix);
                assert(steps@ =~= seq![RepairStep::CreatePrefix]);
                Ok(steps)
            },
            PrefixHealth::Corrupted(reason) => Err(
                WandaError::PrefixCorrupted { path: self.prefix_dir(name), reason },
            ),
            PrefixHealth::NeedsRepair(issues) => {
                let mut steps: Vec<RepairStep> = Vec::new();
                for i in 0..issues.len()
                    invariant
                        steps@.map_values(|s: RepairStep| step_view(s)) == spec_repair_steps(
                            issues@.take(i as int),
                        ).map_values(|s: RepairStep| step_view(s)),
                {
                    proof {
                        assert(issues@.take(i + 1).drop_last() =~= issues@.take(i as int));
                        assert(issues@.take(i + 1).last() == issues@[i as int]);
                    }
                    let ghost before = steps@;
                    match &issues[i] {
                        PrefixIssue::MissingDotNet => {
                            steps.push(RepairStep::InstallDotNet);
                            assert(steps@.map_values(|s: RepairStep| step_view(s))
                                =~= before.map_values(|s: RepairStep| step_view(s)).push(
                                step_view(RepairStep::InstallDotNet),
                            ));
                        },
                        PrefixIssue::MissingDependency(dep) => {
                            steps.push(RepairStep::InstallDependency(string_of(dep.as_str())));
                            assert(steps@.map_values(|s: RepairStep| step_view(s))
                                =~= before.map_values(|s: RepairStep| step_view(s)).push(
                                (2, dep@),
                            ));
                        },
                        _ => {},
                    }
                }
                proof {
                    assert(issues@.take(issues@.len() as int) =~= issues@);
                }
                Ok(steps)
            },
        }
    }

    /// Checks that a prefix named `name` can be created, given whether its directory exists:
    /// the directory when it does not, `PrefixCreationFailed` when it does.
    pub fn check_creatable(&self, name: &str, dir_exists: bool) -> (r: Result<String, WandaError>)
        ensures
            dir_exists ==> (r matches Err(WandaError::PrefixCreationFailed { path, reason })
                && path@ == spec_join(self.base_path@, name@) && reason@
                == "Prefix already exists"@),
            !dir_exists ==> (r matches Ok(p) && p@ == spec_join(self.base_path@, name@)),
    {
        let path = self.prefix_dir(name);
        if dir_exists {
            return Err(
                WandaError::PrefixCreationFailed {
                    path,
                    reason: string_of("Prefix already exists"),
                },
            );
        }
        Ok(path)
    }

    /// Adds a newly created prefix to the known ones.
    pub fn register(&mut self, prefix: WandaPrefix)
        ensures
            final(self).prefixes@ == old(self).prefixes@.push(prefix),
            final(self).base_path == old(self).base_path,
    {
        self.prefixes.push(prefix);
    }

    /// Forgets the prefix named `name` once its directory is dealt with: `PrefixNotFound`
    /// when the directory did not exist (`None`), an I/O error when removing it failed;
    /// otherwise every prefix of that name is dropped.
    pub fn delete(&mut self, name: &str, removal: Option<Result<(), String>>) -> (r: Result<
        (),
        WandaError,
    >)
        ensures
            final(self).base_path == old(self).base_path,
            match removal {
                None => r matches Err(WandaError::PrefixNotFound { path }) && path@ == spec_join(
                    old(self).base_path@,
                    name@,
                ) && final(self).prefixes@ == old(self).prefixes@,
                Some(Err(e)) => r matches Err(WandaError::Io(m)) && m@ == e@
                    && final(self).prefixes@ == old(self).prefixes@,
                Some(Ok(())) => r is Ok && final(self).prefixes@ == without_named(
                    old(self).prefixes@,
                    name@,
                ),
            },
    {
        match removal {
            None => Err(WandaError::PrefixNotFound { path: self.prefix_dir(name) }),
            Some(Err(e)) => Err(WandaError::Io(e)),
            Some(Ok(())) => {
                let ghost old_ps = self.prefixes@;
                let mut kept: Vec<WandaPrefix> = Vec::new();
                let mut rest: Vec<WandaPrefix> = Vec::new();
                std::mem::swap(&mut rest, &mut self.prefixes);
                let ghost mut k: int = 0;
                while rest.len() > 0
                    invariant
                        0 <= k <= old_ps.len(),
                        rest@ == old_ps.skip(k),
                        kept@ == without_named(old_ps.take(k), name@),
                    decreases rest.len(),
                {
                    let p = rest.remove(0);
                    proof {
                        assert(old_ps.take(k + 1).drop_last() =~= old_ps.take(k));
                        assert(old_ps.take(k + 1).last() == p);
                        assert(rest@ =~= old_ps.skip(k + 1));
                        reveal(Seq::<WandaPrefix>::filter);
                        k = k + 1;
                    }
                    if !str_eq(p.name.as_str(), name) {
                        kept.push(p);
                    }
                }
                proof {
                    assert(old_ps.take(k) =~= old_ps);
                }
                self.prefixes = kept;
                Ok(())
            },
        }
    }

    /// Applies `updater` to the first prefix named `name`; whether there was one.
    pub fn update_metadata<F: FnOnce(WandaPrefix) -> WandaPrefix>(
        &mut self,
        name: &str,
        updater: F,
    ) -> (found: bool)
        requires
            forall|p: WandaPrefix| updater.requires((p,)),
        ensures
            final(self).base_path == old(self).base_path,
            match first_prefix_named(old(self).prefixes@, name@, 0) {
                None => !found && final(self).prefixes@ == old(self).prefixes@,
                Some(i) => found && final(self).prefixes@.len()
                    == old(self).prefixes@.len() && updater.ensures(
                    (old(self).prefixes@[i],),
                    final(self).prefixes@[i],
                ) && forall|j: int|
                    0 <= j < old(self).prefixes@.len() && j != i
                        ==> #[trigger] final(self).prefixes@[j]
                        == old(self).prefixes@[j],
            },
    {
        proof {
            lemma_first_prefix_named(self.prefixes@, name@, 0);
        }
        let mut i: usize = 0;
        while i < self.prefixes.len()
            invariant
                i <= self.prefixes@.len(),
                self.prefixes@ == old(self).prefixes@,
                self.base_path == old(self).base_path,
                forall|p: WandaPrefix| updater.requires((p,)),
                forall|j: int| 0 <= j < i ==> (#[trigger] self.prefixes@[j]).name@ != name@,
            decreases self.prefixes.len() - i,
        {
            if str_eq(self.prefixes[i].name.as_str(), name) {
                proof {
                    lemma_first_prefix_named(self.prefixes@, name@, 0);
                    match first_prefix_named(self.prefixes@, name@, 0) {
                        Some(k) => {
                            assert(!(k < i));
                            assert(!(k > i));
                        },
                        None => {},
                    }
                }
                let p = self.prefixes.remove(i);
                let q = updater(p);
                self.prefixes.insert(i, q);
                return true;
            }
            i = i + 1;
        }
        false
    }
}

/// The current time as seconds since the Unix epoch (0 if the clock is before it). Nothing
/// is promised of the value: it is the time.
#[verifier::external_body]
fn unix_now_secs() -> u64 {
    std::time::SystemTime::now().duration_since(std::time::UNIX_EPOCH).unwrap_or_default().as_secs()
}

/// A leap year of the Gregorian calendar.
pub open spec fn is_leap(y: nat) -> bool {
    (y % 4 == 0 && y % 100 != 0) || y % 400 == 0
}

/// The number of days of year `y`.
pub open spec fn year_days(y: nat) -> nat {
    if is_leap(y) {
        366
    } else {
        365
    }
}

/// The number of days of month `m` (1 to 12) of year `y`.
pub open spec fn month_days(y: nat, m: nat) -> nat {
    if m == 2 {
        if is_leap(y) {
            29
        } else {
            28
        }
    } else if m == 4 || m == 6 || m == 9 || m == 11 {
        30
    } else {
        31
    }
}

/// (month, day) of the date `days` days after the first day of month `m` of year `y`
/// (within that year).
pub open spec fn month_from(days: nat, y: nat, m: nat) -> (nat, nat)
    decreases 12 - m,
{
    if m >= 12 || days < month_days(y, m) {
        (m, days + 1)
    } else {
        month_from((days - month_days(y, m)) as nat, y, m + 1)
    }
}

/// (year, month, day) of the date `days` days after 1 January of year `y`.
pub open spec fn civil_from(days: nat, y: nat) -> (nat, nat, nat)
    decreases days,
{
    if days < year_days(y) {
        let (m, d) = month_from(days, y, 1);
        (y, m, d)
    } else {
        civil_from((days - year_days(y)) as nat, y + 1)
    }
}

/// A number in at least two digits (a leading `0` below 10).
pub open spec fn spec_two_digits(n: nat) -> Seq<char> {
    if n < 10 {
        seq!['0'] + spec_decimal(n)
    } else {
        spec_decimal(n)
    }
}

/// The UTC time `t` seconds after the Unix epoch in ISO 8601, `YYYY-MM-DDThh:mm:ssZ`.
pub open spec fn spec_iso8601(t: nat) -> Seq<char> {
    let (y, m, d) = civil_from(t / 86400, 1970);
    let s = t % 86400;
    spec_decimal(y) + seq!['-'] + spec_two_digits(m) + seq!['-'] + spec_two_digits(d) + seq!['T']
        + spec_two_digits(s / 3600) + seq![':'] + spec_two_digits((s % 3600) / 60) + seq![':']
        + spec_two_digits(s % 60) + seq!['Z']
}

fn year_len(y: u64) -> (r: u64)
    ensures
        r == year_days(y as nat),
{
    if (y % 4 == 0 && y % 100 != 0) || y % 400 == 0 {
        366
    } else {
        365
    }
}

fn month_len(y: u64, m: u64) -> (r: u64)
    ensures
        r == month_days(y as nat, m as nat),
{
    if m == 2 {
        if (y % 4 == 0 && y % 100 != 0) || y % 400 == 0 {
            29
        } else {
            28
        }
    } else if m == 4 || m == 6 || m == 9 || m == 11 {
        30
    } else {
        31
    }
}

/// The calendar date (year, month, day) `days` days after 1 January 1970.
pub fn civil_date(days: u64) -> (r: (u64, u64, u64))
    requires
        days <= u64::MAX / 2,
    ensures
        (r.0 as nat, r.1 as nat, r.2 as nat) == civil_from(days as nat, 1970),
{
    let mut y: u64 = 1970;
    let mut rest: u64 = days;
    while rest >= year_len(y)
        invariant
            civil_from(days as nat, 1970) == civil_from(rest as nat, y as nat),
            y + rest <= 1970 + days,
            days <= u64::MAX / 2,
        decreases rest,
    {
        rest = rest - year_len(y);
        y = y + 1;
    }
    let ghost r0 = rest;
    let mut m: u64 = 1;
    while m < 12 && rest >= month_len(y, m)
        invariant
            1 <= m <= 12,
            rest <= r0,
            r0 < 366,
            month_from(r0 as nat, y as nat, 1) == month_from(rest as nat, y as nat, m as nat),
        decreases 12 - m,
    {
        rest = rest - month_len(y, m);
        m = m + 1;
    }
    (y, m, rest + 1)
}

fn push_two_digits(out: &mut Vec<char>, n: u64)
    ensures
        final(out)@ == old(out)@ + spec_two_digits(n as nat),
{
    if n < 10 {
        out.push('0');
    }
    push_decimal(out, n);
    assert(out@ =~= old(out)@ + spec_two_digits(n as nat));
}

/// The UTC time `t` seconds after the Unix epoch in ISO 8601 (see `spec_iso8601`).
pub fn iso8601(t: u64) -> (r: String)
    ensures
        r@ == spec_iso8601(t as nat),
{
    let days = t / 86400;
    let s = t % 86400;
    let (y, m, d) = civil_date(days);
    let mut v: Vec<char> = Vec::new();
    push_decimal(&mut v, y);
    v.push('-');
    push_two_digits(&mut v, m);
    v.push('-');
    push_two_digits(&mut v, d);
    v.push('T');
    push_two_digits(&mut v, s / 3600);
    v.push(':');
    push_two_digits(&mut v, (s % 3600) / 60);
    v.push(':');
    push_two_digits(&mut v, s % 60);
    v.push('Z');
    assert(v@ =~= spec_iso8601(t as nat));
    string_from_chars(v.as_slice())
}

/// The current time as text: the clock's reading in whole seconds, in ISO 8601 UTC
/// (`spec_iso8601`).
pub fn chrono_lite_now() -> (r: String)
    ensures
        exists|t: u64| r@ == spec_iso8601(t as nat),
{
    let t = unix_now_secs();
    iso8601(t)
}

} // verus!
