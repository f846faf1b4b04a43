//! The desktop application's cached view of the system.

use vstd::prelude::*;
use crate::config::WandaConfig;
use crate::prefix::manager::{PrefixManager, WandaPrefix, first_prefix_named};
use crate::steam::library::SteamInstallation;
use crate::steam::proton::ProtonManager;
use crate::text::string_of;

verus! {

/// What loading the application state from disk found: the configuration, Steam, the
/// Proton builds and the prefixes.
pub struct Loaded {
    pub config: WandaConfig,
    pub steam: SteamInstallation,
    pub proton: ProtonManager,
    pub prefix_manager: PrefixManager,
}

/// WANDA is set up when the `default` prefix exists and has WeMod installed.
pub open spec fn spec_initialized(pm: PrefixManager) -> bool {
    match first_prefix_named(pm.prefixes@, "default"@, 0) {
        Some(i) => pm.prefixes@[i].wemod_installed,
        None => false,
    }
}

/// The application's state: what was last loaded, if anything.
pub struct AppState {
    /// The configuration.
    pub config: Option<WandaConfig>,
    /// The Steam installation.
    pub steam: Option<SteamInstallation>,
    /// The Proton builds.
    pub proton: Option<ProtonManager>,
    /// The prefixes.
    pub prefix_manager: Option<PrefixManager>,
    /// Whether WANDA is set up (see `spec_initialized`).
    pub initialized: bool,
}

impl AppState {
    /// Nothing loaded yet.
    pub fn new() -> (r: AppState)
        ensures
            r.config is None,
            r.steam is None,
            r.proton is None,
            r.prefix_manager is None,
            !r.initialized,
    {
        AppState { config: None, steam: None, proton: None, prefix_manager: None, initialized: false }
    }

    /// Takes in what loading found; on failure the state is left as it was and the error is
    /// passed on.
    pub fn load(&mut self, loaded: Result<Loaded, String>) -> (r: Result<(), String>)
        ensures
            match loaded {
                Ok(l) => {
                    &&& r is Ok
                    &&& final(self).config == Some(l.config)
                    &&& final(self).steam == Some(l.steam)
                    &&& final(self).proton == Some(l.proton)
                    &&& final(self).prefix_manager == Some(l.prefix_manager)
                    &&& final(self).initialized == spec_initialized(l.prefix_manager)
                },
                Err(e) => r == Err::<(), String>(e) && *final(self) == *old(self),
            },
    {
        match loaded {
            Ok(l) => {
                let initialized = match l.prefix_manager.get("default") {
                    Some(p) => p.wemod_installed,
                    None => false,
                };
                self.config = Some(l.config);
                self.steam = Some(l.steam);
                self.proton = Some(l.proton);
                self.prefix_manager = Some(l.prefix_manager);
                self.initialized = initialized;
                Ok(())
            },
            Err(e) => Err(e),
        }
    }

    /// Loads the state through `loader` unless a configuration is already loaded: then it
    /// does what `load` does with what `loader` returned.
    pub fn ensure_loaded<F: FnOnce() -> Result<Loaded, String>>(&mut self, loader: F) -> (r: Result<
        (),
        String,
    >)
        requires
            loader.requires(()),
        ensures
            old(self).config is Some ==> r is Ok && *final(self) == *old(self),
            old(self).config is None ==> exists|res: Result<Loaded, String>|
                #[trigger] loader.ensures((), res) && match res {
                    Ok(l) => r is Ok && final(self).config == Some(l.config)
                        && final(self).steam == Some(l.steam) && final(self).proton == Some(
                        l.proton,
                    ) && final(self).prefix_manager == Some(l.prefix_manager)
                        && final(self).initialized == spec_initialized(l.prefix_manager),
                    Err(e) => r == Err::<(), String>(e) && *final(self) == *old(self),
                },
    {
        if self.config.is_none() {
            let res = loader();
            return self.load(res);
        }
        Ok(())
    }
}

impl Default for AppState {
    fn default() -> (r: Self)
        ensures
            r.config is None,
            r.steam is None,
            r.proton is None,
            r.prefix_manager is None,
            !r.initialized,
    {
        Self::new()
    }
}

} // verus!
