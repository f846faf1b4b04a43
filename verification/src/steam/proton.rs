//! Proton builds: recognising them, ranking them and choosing one for WeMod.

use vstd::prelude::*;
use crate::config::{WandaConfig, opt_view};
use crate::error::WandaError;
use crate::paths::{file_name, join, spec_file_name, spec_join};
use crate::steam::library::SteamInstallation;
use crate::text::{
    chars_of, parse_u32_chars, spec_contains, spec_lowercase, spec_parse_u32, str_contains,
    string_of, to_lowercase,
};

verus! {

/// How well a Proton build is known to work with WeMod.
#[derive(Debug, Clone, Copy, PartialEq, Eq, Structural)]
pub enum ProtonCompatibility {
    /// Known to work well.
    Recommended,
    /// Should work.
    Supported,
    /// May work; untested or with known problems.
    Experimental,
    /// Known not to work.
    Unsupported,
}

/// A Proton build found on disk.
#[derive(Debug)]
pub struct ProtonVersion {
    /// Directory name, e.g. `GE-Proton9-5` or `Proton 8.0`.
    pub name: String,
    /// The build's directory.
    pub path: String,
    /// Version numbers (major, minor, patch) read from the name.
    pub version: (u32, u32, u32),
    /// Whether this is a GE-Proton build.
    pub is_ge: bool,
    /// Whether this is Proton Experimental.
    pub is_experimental: bool,
    /// How well it works with WeMod.
    pub compatibility: ProtonCompatibility,
}

impl ProtonVersion {
    /// The build's `proton` script.
    pub fn proton_exe(&self) -> (r: String)
        ensures
            r@ == spec_join(self.path@, "proton"@),
    {
        join(self.path.as_str(), "proton")
    }

    /// The build's 64-bit Wine binary.
    pub fn wine_exe(&self) -> (r: String)
        ensures
            r@ == spec_join(self.path@, "files/bin/wine64"@),
    {
        join(self.path.as_str(), "files/bin/wine64")
    }
}

/// Version triples compared lexicographically: `a` comes before `b`.
pub open spec fn version_lt(a: (u32, u32, u32), b: (u32, u32, u32)) -> bool {
    a.0 < b.0 || (a.0 == b.0 && (a.1 < b.1 || (a.1 == b.1 && a.2 < b.2)))
}

/// `a` ranks below `b`: a GE-Proton build ranks above any other build, and among builds of
/// the same kind the higher version ranks above.
pub open spec fn ranks_below(a: ProtonVersion, b: ProtonVersion) -> bool {
    (!a.is_ge && b.is_ge) || (a.is_ge == b.is_ge && version_lt(a.version, b.version))
}

impl ProtonVersion {
    /// Whether this build ranks below `other` (GE-Proton first, then higher versions).
    pub fn ranks_below(&self, other: &ProtonVersion) -> (r: bool)
        ensures
            r == ranks_below(*self, *other),
    {
        let a = self.version;
        let b = other.version;
        (!self.is_ge && other.is_ge) || (self.is_ge == other.is_ge && (a.0 < b.0 || (a.0 == b.0
            && (a.1 < b.1 || (a.1 == b.1 && a.2 < b.2)))))
    }
}

/// The first position in `sorted` holding a build that ranks below `x`, or the end.
pub open spec fn insert_pos(sorted: Seq<ProtonVersion>, x: ProtonVersion) -> int
    decreases sorted.len(),
{
    if sorted.len() == 0 {
        0
    } else if ranks_below(sorted[0], x) {
        0
    } else {
        1 + insert_pos(sorted.drop_first(), x)
    }
}

/// Builds ordered from highest to lowest rank, builds of equal rank keeping their order
/// (what a stable `sort_by(|a, b| b.cmp(a))` gives).
pub open spec fn spec_sort(s: Seq<ProtonVersion>) -> Seq<ProtonVersion>
    decreases s.len(),
{
    if s.len() == 0 {
        Seq::empty()
    } else {
        let sorted = spec_sort(s.drop_last());
        sorted.insert(insert_pos(sorted, s.last()), s.last())
    }
}

/// No build ranks below a later one.
pub open spec fn sorted_desc(s: Seq<ProtonVersion>) -> bool {
    forall|i: int, j: int| 0 <= i < j < s.len() ==> !ranks_below(s[i], s[j])
}

proof fn lemma_insert_pos(sorted: Seq<ProtonVersion>, x: ProtonVersion)
    ensures
        0 <= insert_pos(sorted, x) <= sorted.len(),
        forall|j: int| 0 <= j < insert_pos(sorted, x) ==> !ranks_below(#[trigger] sorted[j], x),
        insert_pos(sorted, x) < sorted.len() ==> ranks_below(sorted[insert_pos(sorted, x)], x),
    decreases sorted.len(),
{
    if sorted.len() > 0 && !ranks_below(sorted[0], x) {
        lemma_insert_pos(sorted.drop_first(), x);
        assert forall|j: int| 0 <= j < insert_pos(sorted, x) implies !ranks_below(#[trigger] sorted[j], x) by {
            if j > 0 {
                assert(sorted[j] == sorted.drop_first()[j - 1]);
            }
        }
    }
}

/// Sorting puts the builds from highest to lowest rank and keeps every build, each as often
/// as it occurs.
pub proof fn lemma_sort_sorted(s: Seq<ProtonVersion>)
    ensures
        sorted_desc(spec_sort(s)),
        spec_sort(s).to_multiset() == s.to_multiset(),
    decreases s.len(),
{
    broadcast use vstd::seq_lib::group_seq_properties;
    broadcast use vstd::multiset::group_multiset_axioms;
    if s.len() > 0 {
        let sorted = spec_sort(s.drop_last());
        lemma_sort_sorted(s.drop_last());
        let x = s.last();
        let p = insert_pos(sorted, x);
        lemma_insert_pos(sorted, x);
        let r = sorted.insert(p, x);
        assert forall|i: int, j: int| 0 <= i < j < r.len() implies !ranks_below(r[i], r[j]) by {
            if j < p {
                assert(r[i] == sorted[i] && r[j] == sorted[j]);
            } else if j == p {
                assert(r[i] == sorted[i]);
            } else if i < p {
                assert(r[i] == sorted[i] && r[j] == sorted[j - 1]);
                assert(ranks_below(sorted[p], x));
                if p <= j - 1 {
                    assert(!ranks_below(sorted[p], sorted[j - 1]) || p == j - 1);
                }
                assert(!ranks_below(r[i], x));
            } else if i == p {
                assert(r[j] == sorted[j - 1]);
                assert(ranks_below(sorted[p], x));
                if p < j - 1 {
                    assert(!ranks_below(sorted[p], sorted[j - 1]));
                }
            } else {
                assert(r[i] == sorted[i - 1] && r[j] == sorted[j - 1]);
            }
        }
        assert(s =~= s.drop_last().push(x));
        assert(r.to_multiset() == sorted.to_multiset().insert(x));
    }
}

/// After sorting, GE-Proton builds come first: no other build stands before a GE-Proton
/// build; and among builds of the same kind the versions do not increase (major, then
/// minor, then patch).
pub proof fn lemma_sort_ge_first_then_newest(s: Seq<ProtonVersion>)
    ensures
        forall|i: int, j: int|
            0 <= i < j < spec_sort(s).len() ==> #[trigger] spec_sort(s)[i].is_ge || !(
            #[trigger] spec_sort(s)[j]).is_ge,
        forall|i: int, j: int|
            0 <= i < j < spec_sort(s).len() && (#[trigger] spec_sort(s)[i]).is_ge == (
            #[trigger] spec_sort(s)[j]).is_ge ==> {
                let a = spec_sort(s)[i].version;
                let b = spec_sort(s)[j].version;
                a.0 > b.0 || (a.0 == b.0 && (a.1 > b.1 || (a.1 == b.1 && a.2 >= b.2)))
            },
{
    lemma_sort_sorted(s);
    let r = spec_sort(s);
    assert forall|i: int, j: int| 0 <= i < j < r.len() implies #[trigger] r[i].is_ge || !(
    #[trigger] r[j]).is_ge by {
        assert(!ranks_below(r[i], r[j]));
    }
    assert forall|i: int, j: int|
        0 <= i < j < r.len() && (#[trigger] r[i]).is_ge == (#[trigger] r[j]).is_ge implies {
            let a = r[i].version;
            let b = r[j].version;
            a.0 > b.0 || (a.0 == b.0 && (a.1 > b.1 || (a.1 == b.1 && a.2 >= b.2)))
        } by {
        assert(!ranks_below(r[i], r[j]));
    }
}

/// A character that takes part in a version number: an ASCII digit, `.` or `-`.
pub open spec fn keeps_version_char(c: char) -> bool {
    ('0' <= c && c <= '9') || c == '.' || c == '-'
}

/// The digit runs of a name once every character other than digits, `.` and `-` is dropped,
/// split at every `.` and `-` (empty runs included).
pub open spec fn version_pieces(s: Seq<char>) -> Seq<Seq<char>>
    decreases s.len(),
{
    if s.len() == 0 {
        seq![Seq::empty()]
    } else {
        let ps = version_pieces(s.drop_last());
        let c = s.last();
        if !keeps_version_char(c) {
            ps
        } else if c == '.' || c == '-' {
            ps.push(Seq::empty())
        } else {
            ps.update(ps.len() - 1, ps.last().push(c))
        }
    }
}

/// The pieces that parse as `u32` numbers, as numbers, in order.
pub open spec fn piece_numbers(ps: Seq<Seq<char>>) -> Seq<u32>
    decreases ps.len(),
{
    if ps.len() == 0 {
        Seq::empty()
    } else {
        let rest = piece_numbers(ps.drop_last());
        match spec_parse_u32(ps.last()) {
            Some(n) => rest.push(n),
            None => rest,
        }
    }
}

/// The first three numbers of a name as (major, minor, patch), missing ones being 0.
pub open spec fn spec_extract_version(s: Seq<char>) -> (u32, u32, u32) {
    let n = piece_numbers(version_pieces(s));
    if n.len() >= 3 {
        (n[0], n[1], n[2])
    } else if n.len() == 2 {
        (n[0], n[1], 0)
    } else if n.len() == 1 {
        (n[0], 0, 0)
    } else {
        (0, 0, 0)
    }
}

/// Version, GE flag and Experimental flag read from a build's name. Proton Experimental gets
/// version (999, 0, 0) so that it ranks high.
pub open spec fn spec_parse_version_from_name(name: Seq<char>) -> ((u32, u32, u32), bool, bool) {
    let is_ge = spec_contains(name, "GE-Proton"@) || spec_contains(name, "Proton-GE"@);
    let is_exp = spec_contains(name, "Experimental"@);
    if is_exp {
        ((999, 0, 0), is_ge, is_exp)
    } else {
        (spec_extract_version(name), is_ge, is_exp)
    }
}

/// How well a build works with WeMod: Experimental is recommended; GE-Proton 8 and 9 are
/// supported, GE-Proton 10 and later experimental (wow64 problems), GE-Proton 7 supported;
/// other builds from 8 on are supported; Wine-GE and builds before 7 are unsupported; the
/// rest experimental.
pub open spec fn spec_determine_compatibility(
    name: Seq<char>,
    version: (u32, u32, u32),
    is_ge: bool,
    is_experimental: bool,
) -> ProtonCompatibility {
    if is_experimental {
        ProtonCompatibility::Recommended
    } else if is_ge && version.0 >= 8 && version.0 <= 9 {
        ProtonCompatibility::Supported
    } else if is_ge && version.0 >= 10 {
        ProtonCompatibility::Experimental
    } else if is_ge && version.0 >= 7 {
        ProtonCompatibility::Supported
    } else if version.0 >= 8 {
        ProtonCompatibility::Supported
    } else if spec_contains(name, "Wine-GE"@) {
        ProtonCompatibility::Unsupported
    } else if version.0 < 7 {
        ProtonCompatibility::Unsupported
    } else {
        ProtonCompatibility::Experimental
    }
}

/// `v` is what detecting a build at directory `path` gives.
pub open spec fn detected_at(v: ProtonVersion, path: Seq<char>) -> bool {
    let parsed = spec_parse_version_from_name(v.name@);
    &&& spec_file_name(path) == Some(v.name@)
    &&& v.path@ == path
    &&& v.version == parsed.0
    &&& v.is_ge == parsed.1
    &&& v.is_experimental == parsed.2
    &&& v.compatibility == spec_determine_compatibility(
        v.name@,
        v.version,
        v.is_ge,
        v.is_experimental,
    )
}

/// `d` lists, in order, the builds detected among `dirs`, each a directory and whether it
/// holds a `proton` script: one build for every directory that holds the script and has a
/// final path component.
pub open spec fn detected_list(d: Seq<ProtonVersion>, dirs: Seq<(Seq<char>, bool)>) -> bool
    decreases dirs.len(),
{
    if dirs.len() == 0 {
        d.len() == 0
    } else if !dirs.last().1 || spec_file_name(dirs.last().0) is None {
        detected_list(d, dirs.drop_last())
    } else {
        &&& d.len() > 0
        &&& detected_at(d.last(), dirs.last().0)
        &&& detected_list(d.drop_last(), dirs.drop_last())
    }
}

/// The first build from position `i` on with the given compatibility.
pub open spec fn first_with_compat(vs: Seq<ProtonVersion>, c: ProtonCompatibility, i: int) -> Option<
    int,
>
    decreases vs.len() - i,
{
    if i < 0 || i >= vs.len() {
        None
    } else if vs[i].compatibility == c {
        Some(i)
    } else {
        first_with_compat(vs, c, i + 1)
    }
}

proof fn lemma_first_with_compat(vs: Seq<ProtonVersion>, c: ProtonCompatibility, i: int)
    ensures
        first_with_compat(vs, c, i) matches Some(k) ==> i <= k < vs.len() && 0 <= k
            && vs[k].compatibility == c,
    decreases vs.len() - i,
{
    if 0 <= i < vs.len() && vs[i].compatibility != c {
        lemma_first_with_compat(vs, c, i + 1);
    }
}

proof fn lemma_first_named(vs: Seq<ProtonVersion>, search: Seq<char>, i: int)
    ensures
        first_named(vs, search, i) matches Some(k) ==> i <= k < vs.len() && 0 <= k,
    decreases vs.len() - i,
{
    if 0 <= i < vs.len() && !spec_contains(spec_lowercase(vs[i].name@), spec_lowercase(search)) {
        lemma_first_named(vs, search, i + 1);
    }
}

/// The build recommended for WeMod: the first Recommended one, else the first Supported
/// one, else the first Experimental one.
pub open spec fn spec_recommended(vs: Seq<ProtonVersion>) -> Option<int> {
    match first_with_compat(vs, ProtonCompatibility::Recommended, 0) {
        Some(i) => Some(i),
        None => match first_with_compat(vs, ProtonCompatibility::Supported, 0) {
            Some(i) => Some(i),
            None => first_with_compat(vs, ProtonCompatibility::Experimental, 0),
        },
    }
}

/// The first build from position `i` on whose lower-cased name contains the lower-cased
/// search text.
pub open spec fn first_named(vs: Seq<ProtonVersion>, search: Seq<char>, i: int) -> Option<int>
    decreases vs.len() - i,
{
    if i < 0 || i >= vs.len() {
        None
    } else if spec_contains(spec_lowercase(vs[i].name@), spec_lowercase(search)) {
        Some(i)
    } else {
        first_named(vs, search, i + 1)
    }
}

/// The recommended build is never one known not to work with WeMod.
pub proof fn lemma_recommended_works(vs: Seq<ProtonVersion>)
    ensures
        spec_recommended(vs) matches Some(i) ==> 0 <= i < vs.len() && vs[i].compatibility
            != ProtonCompatibility::Unsupported,
{
    lemma_first_with_compat(vs, ProtonCompatibility::Recommended, 0);
    lemma_first_with_compat(vs, ProtonCompatibility::Supported, 0);
    lemma_first_with_compat(vs, ProtonCompatibility::Experimental, 0);
}

/// A build of the highest compatibility present is recommended: when any build is
/// Recommended the recommended build is Recommended, and when none is but one is Supported,
/// it is Supported.
pub proof fn lemma_recommended_is_best(vs: Seq<ProtonVersion>, k: int)
    requires
        0 <= k < vs.len(),
    ensures
        vs[k].compatibility == ProtonCompatibility::Recommended ==> (spec_recommended(vs) matches Some(
            i,
        ) && vs[i].compatibility == ProtonCompatibility::Recommended),
        vs[k].compatibility == ProtonCompatibility::Supported ==> (spec_recommended(vs) matches Some(
            i,
        ) && (vs[i].compatibility == ProtonCompatibility::Recommended || vs[i].compatibility
            == ProtonCompatibility::Supported)),
{
    lemma_first_with_compat(vs, ProtonCompatibility::Recommended, 0);
    lemma_first_with_compat(vs, ProtonCompatibility::Supported, 0);
    lemma_first_with_compat_finds(vs, vs[k].compatibility, 0, k);
}

proof fn lemma_first_with_compat_finds(vs: Seq<ProtonVersion>, c: ProtonCompatibility, i: int, k: int)
    requires
        0 <= i <= k < vs.len(),
        vs[k].compatibility == c,
    ensures
        first_with_compat(vs, c, i) is Some,
    decreases k - i,
{
    if vs[i].compatibility != c {
        lemma_first_with_compat_finds(vs, c, i + 1, k);
    }
}

/// The build to use under a configuration: the first one matching the preferred name when
/// one is configured and matches, else the recommended one.
pub open spec fn spec_preferred(vs: Seq<ProtonVersion>, preferred: Option<Seq<char>>) -> Option<
    int,
> {
    match preferred {
        Some(p) => match first_named(vs, p, 0) {
            Some(i) => Some(i),
            None => spec_recommended(vs),
        },
        None => spec_recommended(vs),
    }
}

/// The views of a list of directories, each with whether it holds a `proton` script.
pub open spec fn dirs_view(v: Seq<(String, bool)>) -> Seq<(Seq<char>, bool)> {
    v.map_values(|e: (String, bool)| (e.0@, e.1))
}

/// The build `wanda init` uses (see `ProtonManager::select_for_init`).
pub open spec fn spec_init_choice(
    vs: Seq<ProtonVersion>,
    requested: Option<Seq<char>>,
    preferred: Option<Seq<char>>,
) -> Option<int> {
    match requested {
        Some(n) => first_named(vs, n, 0),
        None => match preferred {
            Some(p) => match first_named(vs, p, 0) {
                Some(i) => if vs[i].compatibility == ProtonCompatibility::Experimental
                    || vs[i].compatibility == ProtonCompatibility::Unsupported {
                    spec_recommended(vs)
                } else {
                    Some(i)
                },
                None => spec_recommended(vs),
            },
            None => spec_recommended(vs),
        },
    }
}

/// The known Proton builds, highest ranked first.
pub struct ProtonManager {
    pub versions: Vec<ProtonVersion>,
}

/// The position at which `x` is inserted into `sorted`: before the first build that ranks
/// below it.
fn insert_index(sorted: &Vec<ProtonVersion>, x: &ProtonVersion) -> (p: usize)
    ensures
        p == insert_pos(sorted@, *x),
{
    proof {
        lemma_insert_pos(sorted@, *x);
    }
    let ghost q = insert_pos(sorted@, *x);
    let mut i: usize = 0;
    while i < sorted.len()
        invariant
            i <= sorted.len(),
            q == insert_pos(sorted@, *x),
            0 <= q <= sorted@.len(),
            forall|j: int| 0 <= j < q ==> !ranks_below(#[trigger] sorted@[j], *x),
            q < sorted@.len() ==> ranks_below(sorted@[q], *x),
            forall|j: int| 0 <= j < i ==> !ranks_below(#[trigger] sorted@[j], *x),
        decreases sorted.len() - i,
    {
        if sorted[i].ranks_below(x) {
            assert(!(i < q)) by {
                if i < q {
                    assert(!ranks_below(sorted@[i as int], *x));
                }
            }
            assert(!(q < i)) by {
                if q < i {
                    assert(!ranks_below(sorted@[q], *x));
                }
            }
            return i;
        }
        i = i + 1;
    }
    assert(!(q < i)) by {
        if q < i {
            assert(!ranks_below(sorted@[q], *x));
        }
    }
    i
}

/// Orders builds from highest to lowest rank, keeping builds of equal rank in their order.
pub fn sort_versions(vs: Vec<ProtonVersion>) -> (r: Vec<ProtonVersion>)
    ensures
        r@ == spec_sort(vs@),
{
    let ghost orig = vs@;
    let mut sorted: Vec<ProtonVersion> = Vec::new();
    let mut rest = vs;
    let ghost mut k: int = 0;
    while rest.len() > 0
        invariant
            0 <= k <= orig.len(),
            rest@ == orig.skip(k),
            sorted@ == spec_sort(orig.take(k)),
        decreases rest.len(),
    {
        let x = rest.remove(0);
        proof {
            assert(orig.take(k + 1).drop_last() =~= orig.take(k));
            assert(orig.take(k + 1).last() == x);
            assert(rest@ =~= orig.skip(k + 1));
            k = k + 1;
            lemma_insert_pos(sorted@, x);
        }
        let p = insert_index(&sorted, &x);
        sorted.insert(p, x);
    }
    proof {
        assert(orig.take(k) =~= orig);
    }
    sorted
}

impl ProtonManager {
    /// Reads version numbers from a name: its first three numbers once every character other
    /// than digits, `.` and `-` is dropped and the rest split at `.` and `-`.
    pub fn extract_version_numbers(s: &str) -> (r: (u32, u32, u32))
        ensures
            r == spec_extract_version(s@),
    {
        let cs = chars_of(s);
        let mut numbers: Vec<u32> = Vec::new();
        let mut cur: Vec<char> = Vec::new();
        let ghost mut done: Seq<Seq<char>> = Seq::empty();
        let mut i: usize = 0;
        proof {
            assert(cs@.take(0) =~= Seq::<char>::empty());
            assert(done.push(cur@) =~= seq![Seq::<char>::empty()]);
        }
        while i < cs.len()
            invariant
                i <= cs.len(),
                cs@ == s@,
                version_pieces(cs@.take(i as int)) == done.push(cur@),
                numbers@ == piece_numbers(done),
            decreases cs.len() - i,
        {
            let c = cs[i];
            proof {
                assert(cs@.take(i + 1).drop_last() =~= cs@.take(i as int));
                assert(cs@.take(i + 1).last() == c);
            }
            if c == '.' || c == '-' {
                let p = parse_u32_chars(&cur);
                proof {
                    assert(done.push(cur@).drop_last() =~= done);
                    done = done.push(cur@);
                }
                match p {
                    Some(n) => numbers.push(n),
                    None => {},
                }
                cur = Vec::new();
                proof {
                    assert(numbers@ =~= piece_numbers(done));
                }
            } else if '0' <= c && c <= '9' {
                let ghost before = cur@;
                cur.push(c);
                proof {
                    assert(done.push(before).update(done.len() as int, before.push(c)) =~= done.push(
                        cur@,
                    ));
                }
            }
            i = i + 1;
        }
        let p = parse_u32_chars(&cur);
        proof {
            assert(cs@.take(cs.len() as int) =~= cs@);
            assert(done.push(cur@).drop_last() =~= done);
        }
        match p {
            Some(n) => numbers.push(n),
            None => {},
        }
        assert(numbers@ =~= piece_numbers(version_pieces(s@)));
        let n = numbers.len();
        if n >= 3 {
            (numbers[0], numbers[1], numbers[2])
        } else if n == 2 {
            (numbers[0], numbers[1], 0)
        } else if n == 1 {
            (numbers[0], 0, 0)
        } else {
            (0, 0, 0)
        }
    }

    /// Version, GE flag and Experimental flag read from a build's name.
    pub fn parse_version_from_name(name: &str) -> (r: ((u32, u32, u32), bool, bool))
        ensures
            r == spec_parse_version_from_name(name@),
    {
        let is_ge = str_contains(name, "GE-Proton") || str_contains(name, "Proton-GE");
        let is_experimental = str_contains(name, "Experimental");
        if is_experimental {
            return ((999, 0, 0), is_ge, is_experimental);
        }
        let version = Self::extract_version_numbers(name);
        (version, is_ge, is_experimental)
    }

    /// How well a build works with WeMod, from its name, version and kind.
    pub fn determine_compatibility(
        name: &str,
        version: (u32, u32, u32),
        is_ge: bool,
        is_experimental: bool,
    ) -> (r: ProtonCompatibility)
        ensures
            r == spec_determine_compatibility(name@, version, is_ge, is_experimental),
    {
        if is_experimental {
            return ProtonCompatibility::Recommended;
        }
        if is_ge && version.0 >= 8 && version.0 <= 9 {
            return ProtonCompatibility::Supported;
        }
        if is_ge && version.0 >= 10 {
            return ProtonCompatibility::Experimental;
        }
        if is_ge && version.0 >= 7 {
            return ProtonCompatibility::Supported;
        }
        if version.0 >= 8 {
            return ProtonCompatibility::Supported;
        }
        if str_contains(name, "Wine-GE") {
            return ProtonCompatibility::Unsupported;
        }
        if version.0 < 7 {
            return ProtonCompatibility::Unsupported;
        }
        ProtonCompatibility::Experimental
    }

    /// The build in directory `path`, if the directory holds a `proton` script and has a
    /// final path component to name the build.
    pub fn detect_proton(path: &str, has_proton_script: bool) -> (r: Option<ProtonVersion>)
        ensures
            r is None <==> (!has_proton_script || spec_file_name(path@) is None),
            r matches Some(v) ==> detected_at(v, path@),
    {
        if !has_proton_script {
            return None;
        }
        let name = match file_name(path) {
            Some(n) => n,
            None => return None,
        };
        let (version, is_ge, is_experimental) = Self::parse_version_from_name(name.as_str());
        let compatibility = Self::determine_compatibility(
            name.as_str(),
            version,
            is_ge,
            is_experimental,
        );
        Some(
            ProtonVersion {
                name,
                path: string_of(path),
                version,
                is_ge,
                is_experimental,
                compatibility,
            },
        )
    }

    /// The directories searched for builds, in order: Steam's `steamapps/common`, Steam's
    /// `compatibilitytools.d`, the system-wide `compatibilitytools.d`, then the configured
    /// search paths.
    pub fn search_dirs(steam: &SteamInstallation, config: &WandaConfig) -> (r: Vec<String>)
        ensures
            r@.len() == 3 + config.proton.search_paths@.len(),
            r@[0]@ == spec_join(steam.root_path@, "steamapps/common"@),
            r@[1]@ == spec_join(steam.root_path@, "compatibilitytools.d"@),
            r@[2]@ == "/usr/share/steam/compatibilitytools.d"@,
            forall|i: int|
                0 <= i < config.proton.search_paths@.len() ==> #[trigger] r@[3 + i]@
                    == config.proton.search_paths@[i]@,
    {
        let mut r: Vec<String> = Vec::new();
        r.push(join(steam.root_path.as_str(), "steamapps/common"));
        r.push(join(steam.root_path.as_str(), "compatibilitytools.d"));
        r.push(string_of("/usr/share/steam/compatibilitytools.d"));
        let paths = &config.proton.search_paths;
        for i in 0..paths.len()
            invariant
                r@.len() == 3 + i,
                paths == &config.proton.search_paths,
                r@[0]@ == spec_join(steam.root_path@, "steamapps/common"@),
                r@[1]@ == spec_join(steam.root_path@, "compatibilitytools.d"@),
                r@[2]@ == "/usr/share/steam/compatibilitytools.d"@,
                forall|j: int| 0 <= j < i ==> #[trigger] r@[3 + j]@ == paths@[j]@,
        {
            r.push(string_of(paths[i].as_str()));
        }
        r
    }

    /// The builds found in `dirs` (each a directory and whether it holds a `proton` script),
    /// ordered from highest to lowest rank.
    pub fn discover(dirs: &Vec<(String, bool)>) -> (r: ProtonManager)
        ensures
            exists|d: Seq<ProtonVersion>|
                detected_list(d, dirs_view(dirs@)) && #[trigger] spec_sort(d) == r.versions@,
    {
        let mut found: Vec<ProtonVersion> = Vec::new();
        for i in 0..dirs.len()
            invariant
                detected_list(found@, dirs_view(dirs@.take(i as int))),
        {
            let path = &dirs[i].0;
            let has = dirs[i].1;
            proof {
                assert(dirs_view(dirs@.take(i + 1)).drop_last() =~= dirs_view(
                    dirs@.take(i as int),
                ));
                assert(dirs_view(dirs@.take(i + 1)).last() == (path@, has));
            }
            let ghost before = found@;
            match Self::detect_proton(path.as_str(), has) {
                Some(v) => {
                    found.push(v);
                    assert(found@.drop_last() =~= before);
                },
                None => {},
            }
        }
        proof {
            assert(dirs@.take(dirs@.len() as int) =~= dirs@);
        }
        let ghost d = found@;
        let versions = sort_versions(found);
        ProtonManager { versions }
    }

    /// The position of the first build with the given compatibility.
    fn position_with(&self, c: ProtonCompatibility) -> (r: Option<usize>)
        ensures
            match r {
                Some(k) => first_with_compat(self.versions@, c, 0) == Some(k as int) && k
                    < self.versions@.len(),
                None => first_with_compat(self.versions@, c, 0) is None,
            },
    {
        let mut i: usize = 0;
        while i < self.versions.len()
            invariant
                i <= self.versions@.len(),
                first_with_compat(self.versions@, c, 0) == first_with_compat(
                    self.versions@,
                    c,
                    i as int,
                ),
            decreases self.versions.len() - i,
        {
            if self.versions[i].compatibility == c {
                return Some(i);
            }
            i = i + 1;
        }
        None
    }

    /// The build recommended for WeMod: the first Recommended one, else the first Supported
    /// one, else the first Experimental one.
    pub fn get_recommended(&self) -> (r: Option<&ProtonVersion>)
        ensures
            match spec_recommended(self.versions@) {
                Some(i) => r == Some(&self.versions@[i]) && 0 <= i < self.versions@.len(),
                None => r is None,
            },
    {
        proof {
            lemma_first_with_compat(self.versions@, ProtonCompatibility::Recommended, 0);
            lemma_first_with_compat(self.versions@, ProtonCompatibility::Supported, 0);
            lemma_first_with_compat(self.versions@, ProtonCompatibility::Experimental, 0);
        }
        if let Some(i) = self.position_with(ProtonCompatibility::Recommended) {
            return Some(&self.versions[i]);
        }
        if let Some(i) = self.position_with(ProtonCompatibility::Supported) {
            return Some(&self.versions[i]);
        }
        match self.position_with(ProtonCompatibility::Experimental) {
            Some(i) => Some(&self.versions[i]),
            None => None,
        }
    }

    /// The first build whose name contains `name`, ignoring case.
    pub fn find_by_name(&self, name: &str) -> (r: Option<&ProtonVersion>)
        ensures
            match first_named(self.versions@, name@, 0) {
                Some(i) => r == Some(&self.versions@[i]) && 0 <= i < self.versions@.len(),
                None => r is None,
            },
    {
        proof {
            lemma_first_named(self.versions@, name@, 0);
        }
        let name_lower = to_lowercase(name);
        let mut i: usize = 0;
        while i < self.versions.len()
            invariant
                i <= self.versions@.len(),
                name_lower@ == spec_lowercase(name@),
                first_named(self.versions@, name@, 0) == first_named(
                    self.versions@,
                    name@,
                    i as int,
                ),
            decreases self.versions.len() - i,
        {
            let v = &self.versions[i];
            let lower = to_lowercase(v.name.as_str());
            if str_contains(lower.as_str(), name_lower.as_str()) {
                return Some(v);
            }
            i = i + 1;
        }
        None
    }

    /// The build to use: the first one matching the configured preferred name, if one is
    /// configured and matches, else the recommended one; `ProtonNotFound` when there is none.
    pub fn get_preferred(&self, config: &WandaConfig) -> (r: Result<&ProtonVersion, WandaError>)
        ensures
            match spec_preferred(self.versions@, opt_view(config.proton.preferred_version)) {
                Some(i) => r == Ok::<&ProtonVersion, WandaError>(&self.versions@[i]) && 0 <= i
                    < self.versions@.len(),
                None => r matches Err(WandaError::ProtonNotFound),
            },
    {
        proof {
            lemma_first_with_compat(self.versions@, ProtonCompatibility::Recommended, 0);
            lemma_first_with_compat(self.versions@, ProtonCompatibility::Supported, 0);
            lemma_first_with_compat(self.versions@, ProtonCompatibility::Experimental, 0);
            if let Some(p) = opt_view(config.proton.preferred_version) {
                lemma_first_named(self.versions@, p, 0);
            }
        }
        if let Some(preferred) = &config.proton.preferred_version {
            if let Some(v) = self.find_by_name(preferred.as_str()) {
                return Ok(v);
            }
        }
        match self.get_recommended() {
            Some(v) => Ok(v),
            None => Err(WandaError::ProtonNotFound),
        }
    }
    /// The build `wanda init` uses: the one named on the command line (`ProtonNotFound` if
    /// none matches); else the configured one, unless it is Experimental or Unsupported (then
    /// the recommended one is used instead) or missing; else the recommended one.
    pub fn select_for_init(&self, requested: Option<&str>, preferred: Option<&str>) -> (r: Result<
        &ProtonVersion,
        WandaError,
    >)
        ensures
            match spec_init_choice(
                self.versions@,
                match requested {
                    Some(n) => Some(n@),
                    None => None,
                },
                match preferred {
                    Some(n) => Some(n@),
                    None => None,
                },
            ) {
                Some(i) => r == Ok::<&ProtonVersion, WandaError>(&self.versions@[i]) && 0 <= i
                    < self.versions@.len(),
                None => r matches Err(WandaError::ProtonNotFound),
            },
    {
        proof {
            lemma_first_with_compat(self.versions@, ProtonCompatibility::Recommended, 0);
            lemma_first_with_compat(self.versions@, ProtonCompatibility::Supported, 0);
            lemma_first_with_compat(self.versions@, ProtonCompatibility::Experimental, 0);
            if let Some(n) = requested {
                lemma_first_named(self.versions@, n@, 0);
            }
            if let Some(n) = preferred {
                lemma_first_named(self.versions@, n@, 0);
            }
        }
        if let Some(name) = requested {
            return match self.find_by_name(name) {
                Some(v) => Ok(v),
                None => Err(WandaError::ProtonNotFound),
            };
        }
        if let Some(p) = preferred {
            if let Some(v) = self.find_by_name(p) {
                let poor = match v.compatibility {
                    ProtonCompatibility::Experimental => true,
                    ProtonCompatibility::Unsupported => true,
                    _ => false,
                };
                if !poor {
                    return Ok(v);
                }
            }
        }
        match self.get_recommended() {
            Some(v) => Ok(v),
            None => Err(WandaError::ProtonNotFound),
        }
    }

    /// The build `wanda launch` uses: the one named on the command line (`LaunchFailed` if
    /// none matches), else the preferred one under the configuration.
    pub fn select_for_launch(&self, requested: Option<&str>, config: &WandaConfig) -> (r: Result<
        &ProtonVersion,
        WandaError,
    >)
        ensures
            match requested {
                Some(n) => match first_named(self.versions@, n@, 0) {
                    Some(i) => r == Ok::<&ProtonVersion, WandaError>(&self.versions@[i]),
                    None => r matches Err(WandaError::LaunchFailed { reason }) && reason@
                        == "Proton version '"@ + n@ + "' not found"@,
                },
                None => match spec_preferred(
                    self.versions@,
                    opt_view(config.proton.preferred_version),
                ) {
                    Some(i) => r == Ok::<&ProtonVersion, WandaError>(&self.versions@[i]),
                    None => r matches Err(WandaError::ProtonNotFound),
                },
            },
    {
        match requested {
            Some(name) => match self.find_by_name(name) {
                Some(v) => Ok(v),
                None => {
                    let mut m: Vec<char> = Vec::new();
                    crate::text::push_str(&mut m, "Proton version '");
                    crate::text::push_str(&mut m, name);
                    crate::text::push_str(&mut m, "' not found");
                    assert(m@ =~= "Proton version '"@ + name@ + "' not found"@);
                    Err(WandaError::LaunchFailed { reason: crate::text::string_from_chars(m.as_slice()) })
                },
            },
            None => self.get_preferred(config),
        }
    }
}

} // verus!