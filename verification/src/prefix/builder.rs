//! Building a Wine prefix for WeMod through a Proton build: the environments the tools run
//! in, where Steam is, and the patch that makes WeMod accept Wine Mono's `mscorlib.dll`.

use vstd::prelude::*;
use crate::config::{opt_view, user_cache_dir};
use crate::env::{EnvVars, env_insert};
use crate::error::WandaError;
use crate::paths::{join, parent, spec_join, spec_parent};
use crate::steam::proton::ProtonVersion;
use crate::text::{
    push_signed_decimal, push_str, spec_signed_decimal, string_from_chars, string_of,
};

verus! {

/// Which files of a Proton build exist.
#[derive(Debug, Clone, Copy)]
pub struct ProtonFiles {
    /// `files/bin/wine64`.
    pub wine64: bool,
    /// `files/bin/wine`.
    pub wine: bool,
    /// `files/bin/wineserver`.
    pub wineserver: bool,
    /// `files/lib64`.
    pub lib64: bool,
    /// `files/lib`.
    pub lib: bool,
}

/// The variables of WANDA's own environment that are passed on to Wine.
#[derive(Debug, Clone)]
pub struct HostEnv {
    /// `DISPLAY`.
    pub display: Option<String>,
    /// `WAYLAND_DISPLAY`.
    pub wayland_display: Option<String>,
    /// `XDG_RUNTIME_DIR`.
    pub xdg_runtime_dir: Option<String>,
    /// `XAUTHORITY`.
    pub xauthority: Option<String>,
    /// `LD_LIBRARY_PATH`.
    pub ld_library_path: Option<String>,
}

/// Builds a Wine prefix through a Proton build.
pub struct PrefixBuilder<'a> {
    base_path: String,
    prefix_path: String,
    proton: &'a ProtonVersion,
}

/// Sets `k` to the value of `o` when there is one.
pub open spec fn env_insert_opt(
    e: Seq<(Seq<char>, Seq<char>)>,
    k: Seq<char>,
    o: Option<Seq<char>>,
) -> Seq<(Seq<char>, Seq<char>)> {
    match o {
        Some(v) => env_insert(e, k, v),
        None => e,
    }
}

/// Passes the display variables of WANDA's environment on.
pub open spec fn spec_with_display(e: Seq<(Seq<char>, Seq<char>)>, host: HostEnv) -> Seq<
    (Seq<char>, Seq<char>),
> {
    env_insert_opt(
        env_insert_opt(
            env_insert_opt(e, "DISPLAY"@, opt_view(host.display)),
            "WAYLAND_DISPLAY"@,
            opt_view(host.wayland_display),
        ),
        "XDG_RUNTIME_DIR"@,
        opt_view(host.xdg_runtime_dir),
    )
}

/// Proton's settings for WANDA: no esync, no fsync, no Wine debug output.
pub open spec fn spec_with_proton_flags(e: Seq<(Seq<char>, Seq<char>)>) -> Seq<
    (Seq<char>, Seq<char>),
> {
    env_insert(
        env_insert(env_insert(e, "PROTON_NO_ESYNC"@, "1"@), "PROTON_NO_FSYNC"@, "1"@),
        "WINEDEBUG"@,
        "-all"@,
    )
}

/// The Wine binary to use: Proton's `wine64`, else Proton's `wine`, else the system's.
pub open spec fn spec_wine_path(proton: Seq<char>, files: ProtonFiles) -> Seq<char> {
    if files.wine64 {
        spec_join(proton, "files/bin/wine64"@)
    } else if files.wine {
        spec_join(proton, "files/bin/wine"@)
    } else {
        "wine"@
    }
}

/// The wineserver to wait on: Proton's, else the system's.
pub open spec fn spec_wineserver(proton: Seq<char>, files: ProtonFiles) -> Seq<char> {
    if files.wineserver {
        spec_join(proton, "files/bin/wineserver"@)
    } else {
        "wineserver"@
    }
}

/// The library path: Proton's `lib64` and `lib` (those that exist, joined by `:`), followed
/// by the inherited one.
pub open spec fn spec_ld_path(proton: Seq<char>, files: ProtonFiles, inherited: Option<
    Seq<char>,
>) -> Seq<char> {
    let a = if files.lib64 {
        spec_join(proton, "files/lib64"@)
    } else {
        Seq::empty()
    };
    let b = if files.lib {
        (if a.len() > 0 {
            a + ":"@
        } else {
            a
        }) + spec_join(proton, "files/lib"@)
    } else {
        a
    };
    match inherited {
        Some(e) => b + ":"@ + e,
        None => b,
    }
}

/// The environment for running Wine and winetricks in the prefix.
pub open spec fn spec_build_env(
    proton: Seq<char>,
    prefix: Seq<char>,
    files: ProtonFiles,
    host: HostEnv,
) -> Seq<(Seq<char>, Seq<char>)> {
    let e1 = env_insert(Seq::empty(), "WINEPREFIX"@, prefix);
    let e2 = env_insert(e1, "WINEARCH"@, "win64"@);
    let e3 = env_insert(e2, "WINE"@, spec_wine_path(proton, files));
    let e4 = if files.wineserver {
        env_insert(e3, "WINESERVER"@, spec_join(proton, "files/bin/wineserver"@))
    } else {
        e3
    };
    let e5 = if files.lib64 || files.lib {
        env_insert(
            e4,
            "LD_LIBRARY_PATH"@,
            spec_ld_path(proton, files, opt_view(host.ld_library_path)),
        )
    } else {
        e4
    };
    spec_with_display(spec_with_proton_flags(e5), host)
}

/// The directories above `p`, nearest first, at most `n` of them.
pub open spec fn spec_ancestors(p: Seq<char>, n: nat) -> Seq<Seq<char>>
    decreases n,
{
    if n == 0 {
        Seq::empty()
    } else {
        match spec_parent(p) {
            None => Seq::empty(),
            Some(q) => seq![q] + spec_ancestors(q, (n - 1) as nat),
        }
    }
}

/// The first candidate from position `i` on that is marked as a Steam root.
pub open spec fn first_marked(cands: Seq<Seq<char>>, marks: Seq<bool>, i: int) -> Option<
    Seq<char>,
>
    decreases cands.len() - i,
{
    if i < 0 || i >= cands.len() {
        None
    } else if i < marks.len() && marks[i] {
        Some(cands[i])
    } else {
        first_marked(cands, marks, i + 1)
    }
}

/// The environment for running the Proton script: Proton finds the prefix from
/// `STEAM_COMPAT_DATA_PATH` and Steam from `STEAM_COMPAT_CLIENT_INSTALL_PATH`.
pub open spec fn spec_proton_env(base: Seq<char>, steam_root: Option<Seq<char>>, host: HostEnv) -> Seq<
    (Seq<char>, Seq<char>),
> {
    let e1 = env_insert(Seq::empty(), "STEAM_COMPAT_DATA_PATH"@, base);
    let e2 = env_insert_opt(e1, "STEAM_COMPAT_CLIENT_INSTALL_PATH"@, steam_root);
    spec_with_display(spec_with_proton_flags(e2), host)
}

impl<'a> PrefixBuilder<'a> {
    /// The prefix directory (Proton's `STEAM_COMPAT_DATA_PATH`).
    pub closed spec fn spec_base(&self) -> Seq<char> {
        self.base_path@
    }

    /// The Wine prefix inside it.
    pub closed spec fn spec_prefix(&self) -> Seq<char> {
        self.prefix_path@
    }

    /// The Proton build used.
    pub closed spec fn spec_proton(&self) -> ProtonVersion {
        *self.proton
    }

    /// A builder for the prefix at `base_path`; Proton keeps the Wine prefix in its `pfx`
    /// subdirectory.
    pub fn new(base_path: &str, proton: &'a ProtonVersion) -> (r: PrefixBuilder<'a>)
        ensures
            r.spec_base() == base_path@,
            r.spec_prefix() == spec_join(base_path@, "pfx"@),
            r.spec_proton() == *proton,
    {
        PrefixBuilder { base_path: string_of(base_path), prefix_path: join(base_path, "pfx"), proton }
    }

    /// The prefix directory.
    pub fn base_path(&self) -> (r: &str)
        ensures
            r@ == self.spec_base(),
    {
        self.base_path.as_str()
    }

    /// The Wine prefix (the `pfx` subdirectory).
    pub fn wine_prefix_path(&self) -> (r: &str)
        ensures
            r@ == self.spec_prefix(),
    {
        self.prefix_path.as_str()
    }

    /// The Wine binary to use: Proton's `wine64`, else Proton's `wine`, else the system's.
    pub fn get_wine_path(&self, files: &ProtonFiles) -> (r: String)
        ensures
            r@ == spec_wine_path(self.spec_proton().path@, *files),
    {
        if files.wine64 {
            return join(self.proton.path.as_str(), "files/bin/wine64");
        }
        if files.wine {
            return join(self.proton.path.as_str(), "files/bin/wine");
        }
        string_of("wine")
    }

    /// The wineserver to wait on once Wine work is done.
    pub fn wineserver_path(&self, files: &ProtonFiles) -> (r: String)
        ensures
            r@ == spec_wineserver(self.spec_proton().path@, *files),
    {
        if files.wineserver {
            join(self.proton.path.as_str(), "files/bin/wineserver")
        } else {
            string_of("wineserver")
        }
    }

    /// The environment for running Wine and winetricks in the prefix: the prefix and a 64-bit
    /// Windows, the Wine and wineserver to use, Proton's libraries, Proton's settings and the
    /// display variables.
    pub fn build_env(&self, files: &ProtonFiles, host: &HostEnv) -> (r: EnvVars)
        ensures
            r@ == spec_build_env(self.spec_proton().path@, self.spec_prefix(), *files, *host),
    {
        let proton = self.proton.path.as_str();
        let mut env = EnvVars::new();
        env.insert("WINEPREFIX", self.prefix_path.as_str());
        env.insert("WINEARCH", "win64");
        let wine = self.get_wine_path(files);
        env.insert("WINE", wine.as_str());
        if files.wineserver {
            let ws = join(proton, "files/bin/wineserver");
            env.insert("WINESERVER", ws.as_str());
        }
        if files.lib64 || files.lib {
            let lds = proton_ld_path(proton, files, &host.ld_library_path);
            env.insert("LD_LIBRARY_PATH", lds.as_str());
        }
        add_proton_flags(&mut env);
        add_display(&mut env, host);
        env
    }

    /// The directories above the Proton build, nearest first, at most five: where the Steam
    /// root is looked for.
    pub fn steam_root_candidates(&self) -> (r: Vec<String>)
        ensures
            r@.map_values(|s: String| s@) == spec_ancestors(self.spec_proton().path@, 5),
    {
        let mut r: Vec<String> = Vec::new();
        let mut cur = string_of(self.proton.path.as_str());
        let mut i: usize = 0;
        while i < 5
            invariant
                i <= 5,
                r@.map_values(|s: String| s@) + spec_ancestors(cur@, (5 - i) as nat)
                    == spec_ancestors(self.proton.path@, 5),
            decreases 5 - i,
        {
            match parent(cur.as_str()) {
                None => {
                    assert(spec_ancestors(cur@, (5 - i) as nat) =~= Seq::<Seq<char>>::empty());
                    assert(r@.map_values(|s: String| s@) + Seq::<Seq<char>>::empty()
                        =~= r@.map_values(|s: String| s@));
                    return r;
                },
                Some(q) => {
                    let ghost before = r@;
                    let ghost c = cur@;
                    r.push(string_of(q.as_str()));
                    assert(spec_ancestors(c, (5 - i) as nat) == seq![q@] + spec_ancestors(
                        q@,
                        (5 - i - 1) as nat,
                    ));
                    assert(r@.map_values(|s: String| s@) =~= before.map_values(|s: String| s@).push(
                        q@,
                    ));
                    assert(r@.map_values(|s: String| s@) + spec_ancestors(q@, (5 - i - 1) as nat)
                        =~= before.map_values(|s: String| s@) + spec_ancestors(c, (5 - i) as nat));
                    cur = q;
                },
            }
            i = i + 1;
        }
        assert(spec_ancestors(cur@, 0) =~= Seq::<Seq<char>>::empty());
        assert(r@.map_values(|s: String| s@) + Seq::<Seq<char>>::empty() =~= r@.map_values(
            |s: String| s@,
        ));
        r
    }

    /// The Steam root: the first of the directories above the Proton build (see
    /// `steam_root_candidates`) marked as holding `steam.sh`, `ubuntu12_32` or `steamapps`;
    /// `marks[i]` tells it for the `i`-th one.
    pub fn find_steam_root(&self, marks: &Vec<bool>) -> (r: Option<String>)
        ensures
            opt_view(r) == first_marked(spec_ancestors(self.spec_proton().path@, 5), marks@, 0),
    {
        let cands = self.steam_root_candidates();
        let ghost cv = cands@.map_values(|s: String| s@);
        let mut i: usize = 0;
        while i < cands.len()
            invariant
                i <= cands@.len(),
                cv == cands@.map_values(|s: String| s@),
                cv == spec_ancestors(self.proton.path@, 5),
                first_marked(cv, marks@, 0) == first_marked(cv, marks@, i as int),
            decreases cands.len() - i,
        {
            if i < marks.len() && marks[i] {
                return Some(string_of(cands[i].as_str()));
            }
            i = i + 1;
        }
        None
    }

    /// The environment for running the Proton script on the prefix, given the marks of the
    /// directories above the Proton build (see `find_steam_root`).
    pub fn build_proton_env(&self, marks: &Vec<bool>, host: &HostEnv) -> (r: EnvVars)
        ensures
            r@ == spec_proton_env(
                self.spec_base(),
                first_marked(spec_ancestors(self.spec_proton().path@, 5), marks@, 0),
                *host,
            ),
    {
        let mut env = EnvVars::new();
        env.insert("STEAM_COMPAT_DATA_PATH", self.base_path.as_str());
        if let Some(root) = self.find_steam_root(marks) {
            env.insert("STEAM_COMPAT_CLIENT_INSTALL_PATH", root.as_str());
        }
        add_proton_flags(&mut env);
        add_display(&mut env, host);
        env
    }

    /// Where Wine Mono's `mscorlib.dll` lives in the prefix, 64-bit first.
    pub fn mscorlib_paths(&self) -> (r: Vec<String>)
        ensures
            r@.len() == 2,
            r@[0]@ == spec_join(
                self.spec_prefix(),
                "drive_c/windows/Microsoft.NET/Framework64/v4.0.30319/mscorlib.dll"@,
            ),
            r@[1]@ == spec_join(
                self.spec_prefix(),
                "drive_c/windows/Microsoft.NET/Framework/v4.0.30319/mscorlib.dll"@,
            ),
    {
        let mut r: Vec<String> = Vec::new();
        r.push(
            join(
                self.prefix_path.as_str(),
                "drive_c/windows/Microsoft.NET/Framework64/v4.0.30319/mscorlib.dll",
            ),
        );
        r.push(
            join(
                self.prefix_path.as_str(),
                "drive_c/windows/Microsoft.NET/Framework/v4.0.30319/mscorlib.dll",
            ),
        );
        r
    }
}

/// The library path for Wine: Proton's `files/lib64` and `files/lib` (those that exist,
/// joined by `:`), followed by the inherited one.
pub fn proton_ld_path(proton: &str, files: &ProtonFiles, inherited: &Option<String>) -> (r:
    String)
    ensures
        r@ == spec_ld_path(proton@, *files, opt_view(*inherited)),
{
    let mut ld: Vec<char> = Vec::new();
    proof {
        reveal_strlit(":");
    }
    let ghost a = if files.lib64 {
        spec_join(proton@, "files/lib64"@)
    } else {
        Seq::<char>::empty()
    };
    if files.lib64 {
        let l = join(proton, "files/lib64");
        push_str(&mut ld, l.as_str());
    }
    assert(ld@ =~= a);
    let ghost b = if files.lib {
        (if a.len() > 0 {
            a + ":"@
        } else {
            a
        }) + spec_join(proton@, "files/lib"@)
    } else {
        a
    };
    if files.lib {
        if ld.len() > 0 {
            ld.push(':');
        }
        assert(ld@ =~= (if a.len() > 0 {
            a + ":"@
        } else {
            a
        }));
        let l = join(proton, "files/lib");
        push_str(&mut ld, l.as_str());
    }
    assert(ld@ =~= b);
    if let Some(existing) = inherited {
        ld.push(':');
        push_str(&mut ld, existing.as_str());
    }
    assert(ld@ =~= spec_ld_path(proton@, *files, opt_view(*inherited)));
    string_from_chars(ld.as_slice())
}

fn add_proton_flags(env: &mut EnvVars)
    ensures
        final(env)@ == spec_with_proton_flags(old(env)@),
{
    env.insert("PROTON_NO_ESYNC", "1");
    env.insert("PROTON_NO_FSYNC", "1");
    env.insert("WINEDEBUG", "-all");
}

fn add_display(env: &mut EnvVars, host: &HostEnv)
    ensures
        final(env)@ == spec_with_display(old(env)@, *host),
{
    if let Some(d) = &host.display {
        env.insert("DISPLAY", d.as_str());
    }
    if let Some(d) = &host.wayland_display {
        env.insert("WAYLAND_DISPLAY", d.as_str());
    }
    if let Some(d) = &host.xdg_runtime_dir {
        env.insert("XDG_RUNTIME_DIR", d.as_str());
    }
}

/// The little-endian bytes of a 32-bit number.
pub open spec fn le_bytes(n: u32) -> Seq<u8> {
    seq![
        (n % 256) as u8,
        (n / 256 % 256) as u8,
        (n / 65536 % 256) as u8,
        (n / 16777216) as u8,
    ]
}

/// The 32-bit number stored little-endian at `i`.
pub open spec fn le_u32_at(d: Seq<u8>, i: int) -> int {
    d[i] + d[i + 1] * 256 + d[i + 2] * 65536 + d[i + 3] * 16777216
}

/// The `VS_FIXEDFILEINFO` signature 0xFEEF04BD, little-endian.
pub open spec fn fixed_file_info_signature() -> Seq<u8> {
    le_bytes(0xFEEF04BD)
}

/// The most significant half of version 4.8.9232.0: major 4, minor 8.
pub open spec fn version_ms() -> u32 {
    (4 * 65536 + 8) as u32
}

/// The least significant half of version 4.8.9232.0: build 9232, revision 0.
pub open spec fn version_ls() -> u32 {
    (9232 * 65536) as u32
}

/// The first position from `i` on where the signature starts.
pub open spec fn find_signature(d: Seq<u8>, i: int) -> Option<int>
    decreases d.len() - i,
{
    if i < 0 || i + 4 > d.len() {
        None
    } else if d.subrange(i, i + 4) == fixed_file_info_signature() {
        Some(i)
    } else {
        find_signature(d, i + 1)
    }
}

/// What patching a `mscorlib.dll` did.
#[derive(Debug, Clone, Copy, PartialEq, Eq, Structural)]
pub enum PatchOutcome {
    /// The version was patched; it was `old_ms`, `old_ls` (most and least significant halves
    /// of the file version).
    Patched { old_ms: u32, old_ls: u32 },
    /// There is no `VS_FIXEDFILEINFO` signature.
    SignatureNotFound,
    /// The signature is too close to the end of the file to hold the version.
    TooCloseToEnd,
}

/// `d` with the file and product versions of the `VS_FIXEDFILEINFO` at `p` set to 4.8.9232.0
/// (bytes `p + 8` to `p + 24`).
pub open spec fn spec_patched(d: Seq<u8>, p: int) -> Seq<u8> {
    let v = le_bytes(version_ms()) + le_bytes(version_ls()) + le_bytes(version_ms()) + le_bytes(
        version_ls(),
    );
    Seq::new(
        d.len(),
        |j: int|
            if p + 8 <= j < p + 24 {
                v[j - p - 8]
            } else {
                d[j]
            },
    )
}

/// Stores `v` little-endian at `at`.
fn put_le_u32(data: &mut Vec<u8>, at: usize, v: u32)
    requires
        at + 4 <= old(data).len(),
    ensures
        final(data)@.len() == old(data)@.len(),
        forall|j: int|
            0 <= j < old(data)@.len() ==> #[trigger] final(data)@[j] == if at <= j < at + 4 {
                le_bytes(v)[j - at]
            } else {
                old(data)@[j]
            },
{
    data.set(at, (v % 256) as u8);
    data.set(at + 1, (v / 256 % 256) as u8);
    data.set(at + 2, (v / 65536 % 256) as u8);
    data.set(at + 3, (v / 16777216) as u8);
}

proof fn lemma_find_signature(d: Seq<u8>, i: int)
    requires
        0 <= i,
    ensures
        find_signature(d, i) matches Some(p) ==> i <= p && p + 4 <= d.len(),
    decreases d.len() - i,
{
    if i + 4 <= d.len() && d.subrange(i, i + 4) != fixed_file_info_signature() {
        lemma_find_signature(d, i + 1);
    }
}

/// The first position of the `VS_FIXEDFILEINFO` signature.
fn find_fixed_file_info(data: &Vec<u8>) -> (r: Option<usize>)
    ensures
        match r {
            Some(p) => find_signature(data@, 0) == Some(p as int),
            None => find_signature(data@, 0) is None,
        },
{
    let ghost sig = fixed_file_info_signature();
    assert(sig =~= seq![0xBDu8, 0x04u8, 0xEFu8, 0xFEu8]);
    let mut i: usize = 0;
    while i < data.len() && data.len() - i >= 4
        invariant
            find_signature(data@, 0) == find_signature(data@, i as int),
            sig == seq![0xBDu8, 0x04u8, 0xEFu8, 0xFEu8],
            sig == fixed_file_info_signature(),
        decreases data.len() - i,
    {
        if data[i] == 0xBD && data[i + 1] == 0x04 && data[i + 2] == 0xEF && data[i + 3] == 0xFE {
            assert(data@.subrange(i as int, i + 4) =~= sig);
            return Some(i);
        }
        assert(data@.subrange(i as int, i + 4) != sig) by {
            if data@.subrange(i as int, i + 4) == sig {
                assert(data@.subrange(i as int, i + 4)[0] == data@[i as int]);
                assert(data@.subrange(i as int, i + 4)[1] == data@[i + 1]);
                assert(data@.subrange(i as int, i + 4)[2] == data@[i + 2]);
                assert(data@.subrange(i as int, i + 4)[3] == data@[i + 3]);
            }
        }
        i = i + 1;
    }
    None
}

/// Sets the version of Wine Mono's `mscorlib.dll` to 4.8.9232.0 so that WeMod's .NET check
/// passes: finds the first `VS_FIXEDFILEINFO` signature and overwrites the file and product
/// versions that follow it. The data is unchanged when there is no signature or it is too
/// close to the end.
pub fn patch_version_resource(data: &mut Vec<u8>) -> (r: PatchOutcome)
    ensures
        match find_signature(old(data)@, 0) {
            None => r == PatchOutcome::SignatureNotFound && final(data)@ == old(data)@,
            Some(p) => if p + 24 > old(data)@.len() {
                r == PatchOutcome::TooCloseToEnd && final(data)@ == old(data)@
            } else {
                &&& r matches PatchOutcome::Patched { old_ms, old_ls }
                &&& old_ms == le_u32_at(old(data)@, p + 8)
                &&& old_ls == le_u32_at(old(data)@, p + 12)
                &&& final(data)@ == spec_patched(old(data)@, p)
            },
        },
{
    let pos = match find_fixed_file_info(data) {
        Some(p) => p,
        None => {
            return PatchOutcome::SignatureNotFound;
        },
    };
    proof {
        lemma_find_signature(data@, 0);
    }
    if data.len() - pos < 24 {
        return PatchOutcome::TooCloseToEnd;
    }
    let old_ms: u32 = (data[pos + 8] as u32) + (data[pos + 9] as u32) * 256 + (data[pos + 10] as u32)
        * 65536 + (data[pos + 11] as u32) * 16777216;
    let old_ls: u32 = (data[pos + 12] as u32) + (data[pos + 13] as u32) * 256 + (data[pos
        + 14] as u32) * 65536 + (data[pos + 15] as u32) * 16777216;
    let ms: u32 = 4 * 65536 + 8;
    let ls: u32 = 9232 * 65536;
    put_le_u32(data, pos + 8, ms);
    put_le_u32(data, pos + 12, ls);
    put_le_u32(data, pos + 16, ms);
    put_le_u32(data, pos + 20, ls);
    assert(data@ =~= spec_patched(old(data)@, pos as int));
    PatchOutcome::Patched { old_ms, old_ls }
}

/// After patching, the file and product versions read back as 4.8.9232.0, and every byte
/// outside them is as it was.
pub proof fn lemma_patch_reads_back(d: Seq<u8>, p: int)
    requires
        0 <= p,
        p + 24 <= d.len(),
    ensures
        le_u32_at(spec_patched(d, p), p + 8) == version_ms(),
        le_u32_at(spec_patched(d, p), p + 12) == version_ls(),
        le_u32_at(spec_patched(d, p), p + 16) == version_ms(),
        le_u32_at(spec_patched(d, p), p + 20) == version_ls(),
        spec_patched(d, p).len() == d.len(),
        forall|j: int|
            0 <= j < d.len() && !(p + 8 <= j < p + 24) ==> #[trigger] spec_patched(d, p)[j]
                == d[j],
{
    assert(le_bytes(version_ms()) =~= seq![8u8, 0u8, 4u8, 0u8]);
    assert(le_bytes(version_ls()) =~= seq![0u8, 0u8, 16u8, 36u8]);
    let v = le_bytes(version_ms()) + le_bytes(version_ls()) + le_bytes(version_ms()) + le_bytes(
        version_ls(),
    );
    assert(v =~= seq![8u8, 0u8, 4u8, 0u8, 0u8, 0u8, 16u8, 36u8, 8u8, 0u8, 4u8, 0u8, 0u8, 0u8, 16u8, 36u8]);
    let q = spec_patched(d, p);
    assert(q[p + 8] == 8u8 && q[p + 9] == 0u8 && q[p + 10] == 4u8 && q[p + 11] == 0u8);
    assert(q[p + 12] == 0u8 && q[p + 13] == 0u8 && q[p + 14] == 16u8 && q[p + 15] == 36u8);
    assert(q[p + 16] == 8u8 && q[p + 17] == 0u8 && q[p + 18] == 4u8 && q[p + 19] == 0u8);
    assert(q[p + 20] == 0u8 && q[p + 21] == 0u8 && q[p + 22] == 16u8 && q[p + 23] == 36u8);
}

proof fn lemma_find_signature_same(d: Seq<u8>, e: Seq<u8>, p: int, i: int)
    requires
        0 <= i <= p,
        p + 8 <= d.len(),
        d.len() == e.len(),
        find_signature(d, i) == Some(p),
        forall|j: int| 0 <= j < p + 8 ==> #[trigger] e[j] == d[j],
    ensures
        find_signature(e, i) == Some(p),
    decreases p - i,
{
    assert(e.subrange(i, i + 4) =~= d.subrange(i, i + 4));
    if d.subrange(i, i + 4) != fixed_file_info_signature() {
        lemma_find_signature(d, i + 1);
        lemma_find_signature_same(d, e, p, i + 1);
    }
}

/// Patching is idempotent: the patched data has its signature at the same place, so a
/// second patch finds it there and changes nothing.
pub proof fn lemma_patch_idempotent(d: Seq<u8>, p: int)
    requires
        find_signature(d, 0) == Some(p),
        p + 24 <= d.len(),
    ensures
        find_signature(spec_patched(d, p), 0) == Some(p),
        spec_patched(spec_patched(d, p), p) == spec_patched(d, p),
{
    lemma_find_signature(d, 0);
    let q = spec_patched(d, p);
    assert forall|j: int| 0 <= j < p + 8 implies #[trigger] q[j] == d[j] by {}
    lemma_find_signature_same(d, q, p, 0);
    assert(spec_patched(q, p) =~= q);
}

/// What running the .NET Framework installer gave.
#[derive(Debug, Clone)]
pub enum InstallerOutcome {
    /// It ran and exited with this code (`None` when a signal ended it).
    Exited(Option<i32>),
    /// It could not be started, for this reason.
    FailedToStart(String),
    /// It did not finish within the time allowed.
    TimedOut,
}

/// How long the .NET installer may run, in seconds.
pub open spec fn dotnet_timeout() -> u64 {
    300
}

/// The .NET installer's time limit in seconds.
pub fn dotnet_install_timeout_secs() -> (r: u64)
    ensures
        r == dotnet_timeout(),
{
    300
}

/// How an exit code prints with `{:?}`: `Some(code)` or `None`.
pub open spec fn spec_debug_code(code: Option<i32>) -> Seq<char> {
    match code {
        Some(c) => "Some("@ + spec_signed_decimal(c as int) + ")"@,
        None => "None"@,
    }
}

fn push_debug_code(out: &mut Vec<char>, code: Option<i32>)
    ensures
        final(out)@ == old(out)@ + spec_debug_code(code),
{
    match code {
        Some(c) => {
            push_str(out, "Some(");
            push_signed_decimal(out, c as i64);
            push_str(out, ")");
        },
        None => push_str(out, "None"),
    }
    assert(out@ =~= old(out)@ + spec_debug_code(code));
}

/// The .NET installer succeeded: it exited with 0, or with 1641 or 3010 (success, reboot
/// requested, which Wine does not need).
pub open spec fn dotnet_succeeded(code: Option<i32>) -> bool {
    code == Some(0i32) || code == Some(1641i32) || code == Some(3010i32)
}

/// The result of running the .NET Framework installer: success when it exited with 0, 1641
/// or 3010; otherwise `WinetricksFailed` saying how it failed.
pub fn dotnet_install_result(outcome: InstallerOutcome) -> (r: Result<(), WandaError>)
    ensures
        match outcome {
            InstallerOutcome::Exited(code) => if dotnet_succeeded(code) {
                r is Ok
            } else {
                r matches Err(WandaError::WinetricksFailed { reason }) && reason@
                    == ".NET 4.8 installer failed with exit code "@ + spec_debug_code(code)
            },
            InstallerOutcome::FailedToStart(e) => r matches Err(
                WandaError::WinetricksFailed { reason },
            ) && reason@ == "Failed to run .NET installer: "@ + e@,
            InstallerOutcome::TimedOut => r matches Err(WandaError::WinetricksFailed { reason })
                && reason@ == ".NET installer timed out after 300s"@,
        },
{
    match outcome {
        InstallerOutcome::Exited(code) => {
            let ok = match code {
                Some(c) => c == 0 || c == 1641 || c == 3010,
                None => false,
            };
            if ok {
                Ok(())
            } else {
                let mut v: Vec<char> = Vec::new();
                push_str(&mut v, ".NET 4.8 installer failed with exit code ");
                push_debug_code(&mut v, code);
                Err(WandaError::WinetricksFailed { reason: string_from_chars(v.as_slice()) })
            }
        },
        InstallerOutcome::FailedToStart(e) => {
            let mut v: Vec<char> = Vec::new();
            push_str(&mut v, "Failed to run .NET installer: ");
            push_str(&mut v, e.as_str());
            Err(WandaError::WinetricksFailed { reason: string_from_chars(v.as_slice()) })
        },
        InstallerOutcome::TimedOut => Err(
            WandaError::WinetricksFailed {
                reason: string_of(".NET installer timed out after 300s"),
            },
        ),
    }
}

/// The result of running `winetricks` for a component: success when it exited with 0,
/// otherwise `WinetricksFailed` naming the component and the exit code.
pub fn winetricks_result(component: &str, code: Option<i32>) -> (r: Result<(), WandaError>)
    ensures
        code == Some(0i32) ==> r is Ok,
        code != Some(0i32) ==> (r matches Err(WandaError::WinetricksFailed { reason }) && reason@
            == "winetricks "@ + component@ + " failed with exit code "@ + spec_debug_code(code)),
{
    if let Some(0) = code {
        return Ok(());
    }
    let mut v: Vec<char> = Vec::new();
    push_str(&mut v, "winetricks ");
    push_str(&mut v, component);
    push_str(&mut v, " failed with exit code ");
    push_debug_code(&mut v, code);
    Err(WandaError::WinetricksFailed { reason: string_from_chars(v.as_slice()) })
}

/// The file name of Microsoft's .NET Framework 4.8 offline installer.
pub fn dotnet_installer_name() -> (r: String)
    ensures
        r@ == "ndp48-x86-x64-allos-enu.exe"@,
{
    string_of("ndp48-x86-x64-allos-enu.exe")
}

/// Where Microsoft's .NET Framework 4.8 offline installer is downloaded from.
pub fn dotnet_installer_url() -> (r: String)
    ensures
        r@ == "https://download.visualstudio.microsoft.com/download/pr/2d6bb6b2-226a-4baa-bdec-798822606ff1/8494001c276a4b96804cde7829c04d7f/ndp48-x86-x64-allos-enu.exe"@,
{
    string_of(
        "https://download.visualstudio.microsoft.com/download/pr/2d6bb6b2-226a-4baa-bdec-798822606ff1/8494001c276a4b96804cde7829c04d7f/ndp48-x86-x64-allos-enu.exe",
    )
}

/// A directory the environment gave, or `/tmp` when it gave none.
pub open spec fn dir_or_tmp(d: Option<Seq<char>>) -> Seq<char> {
    match d {
        Some(p) => p,
        None => "/tmp"@,
    }
}

/// Where downloads are cached: `wanda/downloads` under the user's cache directory (or under
/// `/tmp` if there is none).
pub fn download_cache_dir() -> (r: String)
    ensures
        exists|d: Option<Seq<char>>| r@ == spec_join(dir_or_tmp(d), "wanda/downloads"@),
{
    let d = user_cache_dir();
    let ghost dv = opt_view(d);
    let base = match d {
        Some(p) => p,
        None => string_of("/tmp"),
    };
    let r = join(base.as_str(), "wanda/downloads");
    assert(r@ == spec_join(dir_or_tmp(dv), "wanda/downloads"@));
    r
}

} // verus!
