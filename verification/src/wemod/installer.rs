//! Installing WeMod into a prefix and checking that it is there.

use vstd::prelude::*;
use crate::config::opt_view;
use crate::env::{EnvVars, env_insert};
use crate::error::WandaError;
use crate::paths::{join, spec_join};
use crate::prefix::builder::{HostEnv, ProtonFiles, proton_ld_path, spec_ld_path};
use crate::prefix::manager::{
    DirListing, WandaPrefix, spec_drive_c, spec_uses_wand, spec_user_folder, spec_wand_dir,
    spec_wemod_dir,
};
use crate::steam::proton::ProtonVersion;
use crate::text::{
    push_str, spec_starts_with, spec_strip_prefix_str, spec_trim, str_starts_with,
    string_from_chars, string_of, strip_prefix_str, trim,
};

verus! {

/// The environment the WeMod installer runs in: the prefix's Wine prefix (`pfx`), a 64-bit
/// Windows, Wine warnings
/// on, Proton's esync and fsync off, Proton's libraries.
pub open spec fn spec_installer_env(
    prefix: Seq<char>,
    proton: Seq<char>,
    files: ProtonFiles,
    host: HostEnv,
) -> Seq<(Seq<char>, Seq<char>)> {
    let e1 = env_insert(Seq::empty(), "WINEPREFIX"@, spec_join(prefix, "pfx"@));
    let e2 = env_insert(e1, "WINEARCH"@, "win64"@);
    let e3 = env_insert(e2, "WINEDEBUG"@, "warn+all"@);
    let e4 = env_insert(env_insert(e3, "PROTON_NO_ESYNC"@, "1"@), "PROTON_NO_FSYNC"@, "1"@);
    if files.lib64 || files.lib {
        env_insert(e4, "LD_LIBRARY_PATH"@, spec_ld_path(proton, files, opt_view(host.ld_library_path)))
    } else {
        e4
    }
}

/// The WeMod directory of a prefix, given its two candidate directories.
pub open spec fn spec_wemod_dir_of(path: Seq<char>, wand: DirListing, wemod: DirListing) -> Seq<
    char,
> {
    if spec_uses_wand(wand, wemod) {
        spec_wand_dir(path)
    } else {
        spec_wemod_dir(path)
    }
}

/// The first entry name from position `i` on that starts with `app-`.
pub open spec fn first_app_entry(names: Seq<Seq<char>>, i: int) -> Option<int>
    decreases names.len() - i,
{
    if i < 0 || i >= names.len() {
        None
    } else if spec_starts_with(names[i], "app-"@) {
        Some(i)
    } else {
        first_app_entry(names, i + 1)
    }
}

/// The installed WeMod version: the trimmed content of WeMod's `current` file when it is
/// not empty, else the version of the first `app-<version>` directory.
pub open spec fn spec_installed_version(current: Option<Seq<char>>, names: Seq<Seq<char>>) -> Option<
    Seq<char>,
> {
    match current {
        Some(c) if spec_trim(c).len() > 0 => Some(spec_trim(c)),
        _ => match first_app_entry(names, 0) {
            Some(i) => spec_strip_prefix_str(names[i], "app-"@),
            None => None,
        },
    }
}

/// Installs WeMod into a prefix through a Proton build.
pub struct WemodInstaller<'a> {
    prefix: &'a WandaPrefix,
    proton: &'a ProtonVersion,
}

impl<'a> WemodInstaller<'a> {
    /// The prefix installed into.
    pub closed spec fn spec_prefix(&self) -> WandaPrefix {
        *self.prefix
    }

    /// The Proton build that runs the installer.
    pub closed spec fn spec_proton(&self) -> ProtonVersion {
        *self.proton
    }

    /// An installer into `prefix` through `proton`.
    pub fn new(prefix: &'a WandaPrefix, proton: &'a ProtonVersion) -> (r: WemodInstaller<'a>)
        ensures
            r.spec_prefix() == *prefix,
            r.spec_proton() == *proton,
    {
        WemodInstaller { prefix, proton }
    }

    /// The environment the installer runs in (see `spec_installer_env`).
    pub fn build_env(&self, files: &ProtonFiles, host: &HostEnv) -> (r: EnvVars)
        ensures
            r@ == spec_installer_env(
                self.spec_prefix().path@,
                self.spec_proton().path@,
                *files,
                *host,
            ),
    {
        let mut env = EnvVars::new();
        let pfx = self.prefix.pfx_path();
        env.insert("WINEPREFIX", pfx.as_str());
        env.insert("WINEARCH", "win64");
        env.insert("WINEDEBUG", "warn+all");
        env.insert("PROTON_NO_ESYNC", "1");
        env.insert("PROTON_NO_FSYNC", "1");
        if files.lib64 || files.lib {
            let ld = proton_ld_path(self.proton.path.as_str(), files, &host.ld_library_path);
            env.insert("LD_LIBRARY_PATH", ld.as_str());
        }
        env
    }

    /// The Wine binary: Proton's `wine64` when it exists, else the system's.
    pub fn wine_exe(&self, files: &ProtonFiles) -> (r: String)
        ensures
            r@ == (if files.wine64 {
                spec_join(self.spec_proton().path@, "files/bin/wine64"@)
            } else {
                "wine"@
            }),
    {
        if files.wine64 {
            self.proton.wine_exe()
        } else {
            string_of("wine")
        }
    }

    /// The wineserver: Proton's when it exists, else the system's.
    pub fn wineserver_exe(&self, files: &ProtonFiles) -> (r: String)
        ensures
            r@ == (if files.wineserver {
                spec_join(self.spec_proton().path@, "files/bin/wineserver"@)
            } else {
                "wineserver"@
            }),
    {
        if files.wineserver {
            join(self.proton.path.as_str(), "files/bin/wineserver")
        } else {
            string_of("wineserver")
        }
    }

    /// Checks that the installer exists before running it: `WemodInstallFailed` otherwise.
    pub fn check_installer(installer_path: &str, exists: bool) -> (r: Result<(), WandaError>)
        ensures
            exists ==> r is Ok,
            !exists ==> (r matches Err(WandaError::WemodInstallFailed { reason }) && reason@
                == "Installer not found at "@ + installer_path@),
    {
        if exists {
            return Ok(());
        }
        let mut v: Vec<char> = Vec::new();
        push_str(&mut v, "Installer not found at ");
        push_str(&mut v, installer_path);
        Err(WandaError::WemodInstallFailed { reason: string_from_chars(v.as_slice()) })
    }

    /// The result of an installation, once WeMod was looked for (the installer's own exit
    /// status does not decide it): `WemodInstallFailed` when WeMod was not found.
    pub fn install_result(verified: bool) -> (r: Result<(), WandaError>)
        ensures
            verified ==> r is Ok,
            !verified ==> (r matches Err(WandaError::WemodInstallFailed { reason }) && reason@
                == "WeMod executable not found after installation"@),
    {
        if verified {
            Ok(())
        } else {
            Err(
                WandaError::WemodInstallFailed {
                    reason: string_of("WeMod executable not found after installation"),
                },
            )
        }
    }

    /// Where WeMod is looked for after installing: the WeMod stub, then
    /// `AppData/Local/WeMod/WeMod.exe`, `Program Files/WeMod/WeMod.exe` and
    /// `Program Files (x86)/WeMod/WeMod.exe`.
    pub fn verify_locations(&self, wand: &DirListing, wemod: &DirListing) -> (r: Vec<String>)
        ensures
            r@.len() == 4,
            r@[0]@ == spec_join(
                spec_wemod_dir_of(self.spec_prefix().path@, *wand, *wemod),
                "WeMod.exe"@,
            ),
            r@[1]@ == spec_join(
                spec_user_folder(self.spec_prefix().path@),
                "AppData/Local/WeMod/WeMod.exe"@,
            ),
            r@[2]@ == spec_join(
                spec_drive_c(self.spec_prefix().path@),
                "Program Files/WeMod/WeMod.exe"@,
            ),
            r@[3]@ == spec_join(
                spec_drive_c(self.spec_prefix().path@),
                "Program Files (x86)/WeMod/WeMod.exe"@,
            ),
    {
        let mut r: Vec<String> = Vec::new();
        r.push(self.prefix.wemod_exe(wand, wemod));
        r.push(join(self.prefix.user_folder().as_str(), "AppData/Local/WeMod/WeMod.exe"));
        r.push(join(self.prefix.drive_c().as_str(), "Program Files/WeMod/WeMod.exe"));
        r.push(join(self.prefix.drive_c().as_str(), "Program Files (x86)/WeMod/WeMod.exe"));
        r
    }

    /// Whether WeMod is installed: one of `verify_locations` exists (`found[i]` tells it for
    /// the `i`-th).
    pub fn verify(&self, found: &Vec<bool>) -> (r: bool)
        ensures
            r == exists|i: int| 0 <= i < found@.len() && i < 4 && #[trigger] found@[i],
    {
        let mut i: usize = 0;
        while i < found.len() && i < 4
            invariant
                i <= found@.len(),
                i <= 4,
                forall|j: int| 0 <= j < i ==> !#[trigger] found@[j],
            decreases found.len() - i,
        {
            if found[i] {
                return true;
            }
            i = i + 1;
        }
        false
    }

    /// WeMod's `current` file, naming the installed version.
    pub fn version_file(&self, wand: &DirListing, wemod: &DirListing) -> (r: String)
        ensures
            r@ == spec_join(
                spec_wemod_dir_of(self.spec_prefix().path@, *wand, *wemod),
                "current"@,
            ),
    {
        join(self.prefix.wemod_path(wand, wemod).as_str(), "current")
    }

    /// The installed WeMod version (see `spec_installed_version`), given the content of the
    /// `current` file (if it could be read) and the names in the WeMod directory.
    pub fn get_version(current: &Option<String>, names: &Vec<String>) -> (r: Option<String>)
        ensures
            opt_view(r) == spec_installed_version(
                opt_view(*current),
                names@.map_values(|s: String| s@),
            ),
    {
        if let Some(c) = current {
            let t = trim(c.as_str());
            if !t.as_str().is_empty() {
                return Some(t);
            }
        }
        let ghost nv = names@.map_values(|s: String| s@);
        let mut i: usize = 0;
        while i < names.len()
            invariant
                i <= names@.len(),
                nv == names@.map_values(|s: String| s@),
                first_app_entry(nv, 0) == first_app_entry(nv, i as int),
                match opt_view(*current) {
                    Some(c) => spec_trim(c).len() == 0,
                    None => true,
                },
            decreases names.len() - i,
        {
            if str_starts_with(names[i].as_str(), "app-") {
                return strip_prefix_str(names[i].as_str(), "app-");
            }
            i = i + 1;
        }
        None
    }

    /// Checks that WeMod is installed before running it: `WemodNotInstalled` otherwise.
    pub fn check_runnable(wemod_exe_exists: bool) -> (r: Result<(), WandaError>)
        ensures
            wemod_exe_exists ==> r is Ok,
            !wemod_exe_exists ==> r matches Err(WandaError::WemodNotInstalled),
    {
        if wemod_exe_exists {
            Ok(())
        } else {
            Err(WandaError::WemodNotInstalled)
        }
    }
}

} // verus!
