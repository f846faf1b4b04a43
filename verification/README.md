# wanda_core

WANDA runs WeMod on Linux through Wine/Proton and launches it in the same Wine session as a
Steam game, so that its trainers can attach.

- `src/` is the library, verified with Verus: Steam's VDF files and libraries, Proton
  discovery and ranking, prefix health and repair plans, the `mscorlib.dll` version patch,
  Wine environments, launch and inject batch files, WeMod release and install decisions, and
  the command line's choices (which game a query names, how games are listed, what the doctor
  suggests). Calls into `dirs` and a few std functions stand behind small trusted wrappers.
- `app/` is the `wanda` command line: argument parsing, files, processes, downloads and the
  TOML/JSON forms of the configuration and prefix records. It hands the library plain values
  and acts on what it decides.
- `tests/` exercises the library on concrete values.
- The desktop application's command layer (Tauri) is not part of this crate; the decisions
  it makes (game, prefix, Proton and WeMod summaries, setup status, the doctor's report) are
  in `src/gui`.
