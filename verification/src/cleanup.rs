//! Choosing which processes to kill when cleaning up after WeMod and Wine.

use vstd::prelude::*;
use crate::config::opt_view;
use crate::text::{
    decimal, spec_contains, spec_decimal, spec_starts_with, str_contains, str_starts_with,
    string_of, strip_prefix_str,
};

verus! {

/// The position of the first `WINEPREFIX=` entry from position `i` on.
pub open spec fn first_wineprefix(vars: Seq<Seq<char>>, i: int) -> Option<int>
    decreases vars.len() - i,
{
    if i < 0 || i >= vars.len() {
        None
    } else if spec_starts_with(vars[i], "WINEPREFIX="@) {
        Some(i)
    } else {
        first_wineprefix(vars, i + 1)
    }
}

/// The prefix a process runs in, from its environment's `KEY=VALUE` entries, when it is a
/// Steam compatdata prefix or lies under WANDA's prefix directory `wanda_base` (ignored when
/// empty): such processes belong to a Wine session WANDA started.
pub open spec fn spec_prefix_to_kill(vars: Seq<Seq<char>>, wanda_base: Seq<char>) -> Option<
    Seq<char>,
> {
    match first_wineprefix(vars, 0) {
        None => None,
        Some(i) => {
            let v = vars[i].skip(11);
            if spec_contains(v, "/steamapps/compatdata/"@) || (wanda_base.len() > 0 && spec_contains(
                v,
                wanda_base,
            )) {
                Some(v)
            } else {
                None
            }
        },
    }
}

/// The prefix of a process to kill, if it is to be killed (see `spec_prefix_to_kill`).
pub fn wineprefix_to_kill(environ: &Vec<String>, wanda_base: &str) -> (r: Option<String>)
    ensures
        opt_view(r) == spec_prefix_to_kill(environ@.map_values(|s: String| s@), wanda_base@),
{
    let ghost vs = environ@.map_values(|s: String| s@);
    proof {
        reveal_strlit("WINEPREFIX=");
    }
    let mut i: usize = 0;
    while i < environ.len()
        invariant
            i <= environ@.len(),
            vs == environ@.map_values(|s: String| s@),
            first_wineprefix(vs, 0) == first_wineprefix(vs, i as int),
        decreases environ.len() - i,
    {
        let var = environ[i].as_str();
        proof {
            reveal_strlit("WINEPREFIX=");
            assert(vs[i as int] == environ@[i as int]@);
        }
        if str_starts_with(var, "WINEPREFIX=") {
            let value = match strip_prefix_str(var, "WINEPREFIX=") {
                Some(v) => v,
                None => return None,
            };
            let is_compatdata = str_contains(value.as_str(), "/steamapps/compatdata/");
            let is_wanda = !wanda_base.is_empty() && str_contains(value.as_str(), wanda_base);
            if is_compatdata || is_wanda {
                return Some(value);
            }
            return None;
        }
        i = i + 1;
    }
    None
}

/// The process names killed by name after the prefix-based kill: WeMod's and Wine's own
/// programs, Windows executables that cannot name a native process.
pub open spec fn spec_pkill_patterns() -> Seq<Seq<char>> {
    seq![
        "WeMod"@,
        "WeModAuxiliary"@,
        "wineserver"@,
        "winedevice.exe"@,
        "services.exe"@,
        "plugplay.exe"@,
        "svchost.exe"@,
        "rpcss.exe"@,
        "tabtip.exe"@,
        "explorer.exe"@,
        "xalia.exe"@,
        "wineboot.exe"@,
        "conhost.exe"@,
        "start.exe"@,
        "steam.exe"@,
    ]
}

/// The process names killed by name (see `spec_pkill_patterns`), in order.
pub fn pkill_patterns() -> (r: Vec<String>)
    ensures
        r@.map_values(|s: String| s@) == spec_pkill_patterns(),
{
    let mut r: Vec<String> = Vec::new();
    r.push(string_of("WeMod"));
    r.push(string_of("WeModAuxiliary"));
    r.push(string_of("wineserver"));
    r.push(string_of("winedevice.exe"));
    r.push(string_of("services.exe"));
    r.push(string_of("plugplay.exe"));
    r.push(string_of("svchost.exe"));
    r.push(string_of("rpcss.exe"));
    r.push(string_of("tabtip.exe"));
    r.push(string_of("explorer.exe"));
    r.push(string_of("xalia.exe"));
    r.push(string_of("wineboot.exe"));
    r.push(string_of("conhost.exe"));
    r.push(string_of("start.exe"));
    r.push(string_of("steam.exe"));
    assert(r@.map_values(|s: String| s@) =~= spec_pkill_patterns());
    r
}

/// The arguments of the one `kill` that ends the chosen processes: `-9` and their IDs.
pub fn kill_args(pids: &Vec<u32>) -> (r: Vec<String>)
    ensures
        r@.len() == pids@.len() + 1,
        r@[0]@ == "-9"@,
        forall|i: int| 0 <= i < pids@.len() ==> #[trigger] r@[i + 1]@ == spec_decimal(
            pids@[i] as nat,
        ),
{
    let mut r: Vec<String> = Vec::new();
    r.push(string_of("-9"));
    for i in 0..pids.len()
        invariant
            r@.len() == i + 1,
            r@[0]@ == "-9"@,
            forall|j: int| 0 <= j < i ==> #[trigger] r@[j + 1]@ == spec_decimal(pids@[j] as nat),
    {
        r.push(decimal(pids[i] as u64));
    }
    r
}

} // verus!
