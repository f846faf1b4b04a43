//! Which WeMod release to download and where its installer is cached.

use vstd::prelude::*;
use crate::config::{WandaConfig, dir_or_current, opt_view};
use crate::paths::{join, spec_join};
use crate::text::{
    after_last, parse_u64, push_str, spec_after_last, spec_parse_u64, spec_strip_prefix_str,
    spec_strip_suffix_str, string_from_chars, string_of, strip_prefix_str, strip_suffix_str,
};

verus! {

/// A WeMod release to install.
#[derive(Debug, Clone)]
pub struct WemodRelease {
    /// Where the installer is downloaded from.
    pub url: String,
    /// The version, when known.
    pub version: Option<String>,
    /// The installer's size in bytes, when known.
    pub size: Option<u64>,
}

/// The WeMod version known to work under Wine and Proton (12.x shows a black window or
/// crashes its renderer).
pub open spec fn linux_compatible_version() -> Seq<char> {
    "11.5.0"@
}

/// Where that version's installer is downloaded from.
pub open spec fn linux_compatible_url() -> Seq<char> {
    "https://storage-cdn.wemod.com/app/releases/stable/WeMod-11.5.0.exe"@
}

/// WeMod's download endpoint for its newest release (which may not work under Wine).
pub open spec fn upstream_download_url() -> Seq<char> {
    "https://api.wemod.com/client/download"@
}

/// The version in an installer URL `.../WeMod-X.Y.Z.exe`: the last path segment without
/// the `WeMod-` prefix and `.exe` suffix.
pub open spec fn spec_version_from_url(url: Seq<char>) -> Option<Seq<char>> {
    match spec_strip_prefix_str(spec_after_last(url, '/'), "WeMod-"@) {
        Some(v) => spec_strip_suffix_str(v, ".exe"@),
        None => None,
    }
}

/// The version in an installer URL `.../WeMod-X.Y.Z.exe`.
pub fn version_from_url(url: &str) -> (r: Option<String>)
    ensures
        opt_view(r) == spec_version_from_url(url@),
{
    let file = after_last(url, '/');
    match strip_prefix_str(file.as_str(), "WeMod-") {
        Some(v) => strip_suffix_str(v.as_str(), ".exe"),
        None => None,
    }
}

proof fn lemma_last_index_of(s: Seq<char>, c: char, k: int, i: int)
    requires
        0 <= k <= i < s.len(),
        s[k] == c,
        forall|j: int| k < j <= i ==> s[j] != c,
    ensures
        crate::text::last_index_of(s, c, i) == Some(k),
    decreases i - k,
{
    if i > k {
        lemma_last_index_of(s, c, k, i - 1);
    }
}

/// The version of a release is read back from the URL of its installer: for a version
/// without `/`, an installer URL ending in `/WeMod-<version>.exe` gives that version.
pub proof fn lemma_version_url_roundtrip(base: Seq<char>, v: Seq<char>)
    requires
        forall|j: int| 0 <= j < v.len() ==> v[j] != '/',
    ensures
        spec_version_from_url(base + "/"@ + spec_installer_name(Some(v))) == Some(v),
{
    reveal_strlit("/");
    reveal_strlit("WeMod-");
    reveal_strlit(".exe");
    let name = spec_installer_name(Some(v));
    let url = base + "/"@ + name;
    assert(name =~= "WeMod-"@ + v + ".exe"@);
    assert forall|j: int| 0 <= j < name.len() implies name[j] != '/' by {
        if j < 6 {
            assert(name[j] == "WeMod-"@[j]);
        } else if j < 6 + v.len() {
            assert(name[j] == v[j - 6]);
        } else {
            assert(name[j] == ".exe"@[j - 6 - v.len()]);
        }
    }
    assert(url[base.len() as int] == '/');
    assert forall|j: int| base.len() < j <= url.len() - 1 implies url[j] != '/' by {
        assert(url[j] == name[j - base.len() - 1]);
    }
    lemma_last_index_of(url, '/', base.len() as int, url.len() - 1);
    assert(spec_after_last(url, '/') =~= name);
    assert(name.take(6) =~= "WeMod-"@);
    assert(name.skip(6) =~= v + ".exe"@);
    let rest = v + ".exe"@;
    assert(rest.skip(rest.len() - 4) =~= ".exe"@);
    assert(rest.take(rest.len() - 4) =~= v);
}

/// The installer's size from a `Content-Length` header value, when it is a number.
pub open spec fn spec_content_length(header: Option<Seq<char>>) -> Option<u64> {
    match header {
        Some(h) => spec_parse_u64(h),
        None => None,
    }
}

fn content_length(header: &Option<String>) -> (r: Option<u64>)
    ensures
        r == spec_content_length(opt_view(*header)),
{
    match header {
        Some(h) => parse_u64(h.as_str()),
        None => None,
    }
}

/// The release to install: WeMod 11.5.0, pinned for Linux, with the size the server gave
/// for it (`content_length` is the `Content-Length` header of a HEAD request, if any).
pub fn get_latest(content_length_header: &Option<String>) -> (r: WemodRelease)
    ensures
        r.url@ == linux_compatible_url(),
        opt_view(r.version) == Some(linux_compatible_version()),
        r.size == spec_content_length(opt_view(*content_length_header)),
{
    WemodRelease {
        url: string_of("https://storage-cdn.wemod.com/app/releases/stable/WeMod-11.5.0.exe"),
        version: Some(string_of("11.5.0")),
        size: content_length(content_length_header),
    }
}

/// WeMod's download endpoint for its newest release.
pub fn upstream_url() -> (r: String)
    ensures
        r@ == upstream_download_url(),
{
    string_of("https://api.wemod.com/client/download")
}

/// The newest upstream release, from where the download endpoint redirected to and the
/// `Content-Length` it gave: the version is read from the URL.
pub fn get_latest_upstream(final_url: &str, content_length_header: &Option<String>) -> (r:
    WemodRelease)
    ensures
        r.url@ == final_url@,
        opt_view(r.version) == spec_version_from_url(final_url@),
        r.size == spec_content_length(opt_view(*content_length_header)),
{
    WemodRelease {
        url: string_of(final_url),
        version: version_from_url(final_url),
        size: content_length(content_length_header),
    }
}

/// The installer's file name: `WeMod-{version}.exe`, or `WeMod-latest.exe` when the
/// version is not known.
pub open spec fn spec_installer_name(version: Option<Seq<char>>) -> Seq<char> {
    match version {
        Some(v) => "WeMod-"@ + v + ".exe"@,
        None => "WeMod-latest.exe"@,
    }
}

/// The installer's file name for a release.
pub fn installer_filename(release: &WemodRelease) -> (r: String)
    ensures
        r@ == spec_installer_name(opt_view(release.version)),
{
    match &release.version {
        Some(v) => {
            let mut out: Vec<char> = Vec::new();
            push_str(&mut out, "WeMod-");
            push_str(&mut out, v.as_str());
            push_str(&mut out, ".exe");
            assert(out@ =~= "WeMod-"@ + v@ + ".exe"@);
            string_from_chars(out.as_slice())
        },
        None => string_of("WeMod-latest.exe"),
    }
}

/// Where WeMod installers are cached.
pub struct WemodDownloader {
    /// The cache directory.
    pub cache_dir: String,
}

/// Whether a cached installer can be used instead of downloading: it exists and has the
/// size the server announced.
pub open spec fn spec_cache_usable(exists: bool, expected: Option<u64>, actual: Option<u64>) -> bool {
    exists && expected is Some && actual == expected
}

impl WemodDownloader {
    /// A downloader caching into `downloads` of the default cache directory.
    pub fn new(_config: &WandaConfig) -> (r: WemodDownloader)
        ensures
            exists|d: Option<Seq<char>>| r.cache_dir@ == spec_join(
                spec_join(dir_or_current(d), "wanda"@),
                "downloads"@,
            ),
    {
        let base = WandaConfig::default_cache_dir();
        let r = WemodDownloader { cache_dir: join(base.as_str(), "downloads") };
        proof {
            let d = choose|d: Option<Seq<char>>| base@ == spec_join(dir_or_current(d), "wanda"@);
            assert(r.cache_dir@ == spec_join(spec_join(dir_or_current(d), "wanda"@), "downloads"@));
        }
        r
    }

    /// Where the installer of a release is saved.
    pub fn destination(&self, release: &WemodRelease) -> (r: String)
        ensures
            r@ == spec_join(self.cache_dir@, spec_installer_name(opt_view(release.version))),
    {
        join(self.cache_dir.as_str(), installer_filename(release).as_str())
    }

    /// Whether the installer already at the destination can be used: it exists and has the
    /// size the release announces (`actual_size` is its size on disk, if known).
    pub fn cache_usable(release: &WemodRelease, exists: bool, actual_size: Option<u64>) -> (r:
        bool)
        ensures
            r == spec_cache_usable(exists, release.size, actual_size),
    {
        if !exists {
            return false;
        }
        match (release.size, actual_size) {
            (Some(e), Some(a)) => e == a,
            _ => false,
        }
    }

    /// Where a cached installer of the release would be: only releases with a known version
    /// are looked up.
    pub fn get_cached(&self, release: &WemodRelease) -> (r: Option<String>)
        ensures
            match release.version {
                Some(v) => r matches Some(p) && p@ == spec_join(
                    self.cache_dir@,
                    "WeMod-"@ + v@ + ".exe"@,
                ),
                None => r is None,
            },
    {
        match &release.version {
            Some(_) => Some(self.destination(release)),
            None => None,
        }
    }
}

} // verus!
