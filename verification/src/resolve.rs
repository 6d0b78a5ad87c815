//! Turning a requested version into a concrete downloadable artifact: the
//! lockfile short-circuit, the explicit URL override, the
//! version-candidate trial order, and asset selection within a release.

use vstd::prelude::*;
use crate::backend::{
    ci_lookup_at, opt_string_chars, templated, template_string, ForgeError, ForgejoBackend,
};
use crate::glob::{glob_match, glob_matches};
use crate::options::{StrMap, ToolVersionOptions};
use crate::picker::{best_pick_at, eligible};
use crate::release::{
    asset_names, AssetView, ForgejoAsset, ForgejoRelease, PlatformInfo, ReleaseAsset,
    ReleaseAssetView,
};
use crate::text::{after_last, join_all, join_with, suffix_after_last};
use crate::version::{opt_chars, toggled_version, version_candidates};

verus! {

/// One tool version being installed: the requested version string, its
/// options, its persistent platform lock record, and its filesystem roots.
pub struct ToolVersion {
    pub version: String,
    pub options: ToolVersionOptions,
    pub lock_platforms: StrMap<PlatformInfo>,
    pub install_path: String,
    pub download_path: String,
}

impl ToolVersion {
    /// A tool version with an empty lock record.
    pub fn new(version: String, options: ToolVersionOptions, install_path: String,
        download_path: String) -> (r: Self)
        ensures
            r.version == version,
            r.options == options,
            r.install_path == install_path,
            r.download_path == download_path,
            forall|k: Seq<char>| r.lock_platforms.spec_get(k) is None,
    {
        ToolVersion {
            version,
            options,
            lock_platforms: StrMap::new(),
            install_path,
            download_path,
        }
    }
}

/// The characters of an optional string, or none at all.
pub open spec fn or_empty(o: Option<String>) -> Seq<char> {
    match o {
        Some(s) => s@,
        None => Seq::empty(),
    }
}

/// The artifact a Platform Lock Entry reproduces: stored URL and API URL
/// (empty when absent), and the stored name, falling back to the last path
/// segment of the stored URL.
pub open spec fn locked_asset_view(info: PlatformInfo) -> ReleaseAssetView {
    ReleaseAssetView {
        name: match info.name {
            Some(n) => n@,
            None => suffix_after_last(or_empty(info.url), '/'),
        },
        url: or_empty(info.url),
        url_api: or_empty(info.url_api),
    }
}

/// The artifact an explicit `url` option resolves to: both URL fields set
/// to the option verbatim, the name derived from its last path segment.
pub open spec fn direct_asset_view(u: Seq<char>) -> ReleaseAssetView {
    ReleaseAssetView { name: suffix_after_last(u, '/'), url: u, url_api: u }
}

/// The canonical descriptor of one upstream asset: its name, its download
/// URL, and its API URL (empty when the forge exposes none).
pub open spec fn resolved_from_asset(a: AssetView) -> ReleaseAssetView {
    ReleaseAssetView {
        name: a.name,
        url: a.download_url,
        url_api: match a.api_url {
            Some(u) => u,
            None => Seq::empty(),
        },
    }
}

/// The filename convention for URLs: everything after the last `/`.
pub fn get_filename_from_url(url: &str) -> (r: String)
    ensures
        r@ == suffix_after_last(url@, '/'),
{
    after_last(url, '/')
}

/// Builds the artifact a Platform Lock Entry reproduces.
pub fn locked_asset(info: &PlatformInfo) -> (r: ReleaseAsset)
    ensures
        r@ == locked_asset_view(*info),
{
    let url = match &info.url {
        Some(u) => u.clone(),
        None => String::new(),
    };
    let name = match &info.name {
        Some(n) => n.clone(),
        None => get_filename_from_url(url.as_str()),
    };
    let url_api = match &info.url_api {
        Some(u) => u.clone(),
        None => String::new(),
    };
    ReleaseAsset { name, url, url_api }
}

/// Builds the artifact an explicit `url` option resolves to.
pub fn direct_asset(u: &String) -> (r: ReleaseAsset)
    ensures
        r@ == direct_asset_view(u@),
{
    ReleaseAsset { name: get_filename_from_url(u.as_str()), url: u.clone(), url_api: u.clone() }
}

/// Builds the canonical descriptor of one upstream asset.
pub fn resolved_of(a: &ForgejoAsset) -> (r: ReleaseAsset)
    ensures
        r@ == resolved_from_asset(a@),
{
    let url_api = match &a.url {
        Some(u) => u.clone(),
        None => String::new(),
    };
    ReleaseAsset { name: a.name.clone(), url: a.browser_download_url.clone(), url_api }
}

/// True when `a` describes the first asset of `assets` whose name the
/// templated pattern `tp` matches.
pub open spec fn pattern_pick_ok(assets: Seq<AssetView>, tp: Seq<char>, a: ReleaseAssetView)
    -> bool {
    exists|i: int|
        0 <= i < assets.len() && #[trigger] glob_match(tp, asset_names(assets)[i]) && (forall|
            j: int,
        | 0 <= j < i ==> !glob_match(tp, asset_names(assets)[j])) && a == resolved_from_asset(
            assets[i],
        )
}

/// True when `a` describes the asset the platform picker chooses from
/// `assets`, after the case-insensitive lookup of the picked name.
pub open spec fn picker_pick_ok(os: Seq<char>, arch: Seq<char>, assets: Seq<AssetView>,
    a: ReleaseAssetView) -> bool {
    exists|pi: int, ai: int|
        #[trigger] best_pick_at(os, arch, asset_names(assets), pi) && #[trigger] ci_lookup_at(
            asset_names(assets),
            asset_names(assets)[pi],
            ai,
        ) && 0 <= ai < assets.len() && a == resolved_from_asset(assets[ai])
}

/// What an install attempt does before any network access: replay the
/// locked artifact, take the explicit URL override, or go on to try the
/// candidate tag spellings in order.
pub enum Resolution {
    /// A Platform Lock Entry exists: its artifact is trusted as-is.
    UseLocked(ReleaseAsset),
    /// A `url` option is set: resolution is skipped entirely.
    UseDirect(ReleaseAsset),
    /// The candidate tags to try against the forge, in order.
    TryCandidates(Vec<String>),
}

impl ForgejoBackend {
    /// The network-free part of resolution. A Platform Lock Entry for the
    /// platform key wins over everything; an explicit `url` option
    /// (platform layer first, then global) wins over the candidate trial.
    pub fn resolve_precheck(&self, tv: &ToolVersion, platform_key: &str) -> (r: Resolution)
        ensures
            ({
                let got = tv.lock_platforms.spec_get(platform_key@);
                let url_opt = tv.options.spec_effective("url"@);
                match r {
                    Resolution::UseLocked(a) => got matches Some(info) && a@ == locked_asset_view(
                        info,
                    ),
                    Resolution::UseDirect(a) => got is None && (url_opt matches Some(u) && a@
                        == direct_asset_view(u@)),
                    Resolution::TryCandidates(c) => got is None && url_opt is None && c@.len() == 2
                        && c@[0]@ == tv.version@ && c@[1]@ == toggled_version(
                        tv.version@,
                        opt_string_chars(tv.options.spec_global("version_prefix"@)),
                    ),
                }
            }),
    {
        match tv.lock_platforms.get(platform_key) {
            Some(info) => Resolution::UseLocked(locked_asset(info)),
            None => match tv.options.platform_or_global("url") {
                Some(u) => Resolution::UseDirect(direct_asset(u)),
                None => {
                    let prefix = tv.options.get("version_prefix");
                    let c = version_candidates(tv.version.as_str(), prefix);
                    proof {
                        assert(opt_chars(prefix) == opt_string_chars(
                            tv.options.spec_global("version_prefix"@),
                        ));
                    }
                    Resolution::TryCandidates(c)
                },
            },
        }
    }

    /// Chooses the asset of a fetched release: by the configured
    /// glob-style `asset_pattern` when one is set, otherwise by the
    /// platform picker followed by a case-insensitive lookup. Failure
    /// reports the names on offer.
    #[verifier::rlimit(60)]
    pub fn select_asset_in_release(&self, release: &ForgejoRelease, tv: &ToolVersion, os: &str,
        arch: &str) -> (r: Result<ReleaseAsset, ForgeError>)
        ensures
            ({
                let assets = release@.assets;
                let names = asset_names(assets);
                let pat = tv.options.spec_effective("asset_pattern"@);
                match r {
                    Ok(a) => match pat {
                        Some(p) => pattern_pick_ok(
                            assets,
                            templated(p@, tv.version@, os@, arch@),
                            a@,
                        ),
                        None => picker_pick_ok(os@, arch@, assets, a@),
                    },
                    Err(e) => match pat {
                        Some(p) => ({
                            let tp = templated(p@, tv.version@, os@, arch@);
                            (forall|i: int| 0 <= i < names.len() ==> !glob_match(tp, names[i])) && (
                            e matches ForgeError::NoMatchingAsset { pattern, available } && pattern@
                                == tp && available@ == join_with(names, ", "@))
                        }),
                        None => (forall|i: int|
                            0 <= i < names.len() ==> !eligible(os@, arch@, names[i])) && (
                        e matches ForgeError::NoAssetForPlatform { os: o, arch: ar, available: av }
                            && o@ == os@ && ar@ == arch@ && av@ == join_with(names, ", "@)),
                    },
                }
            }),
    {
        let ghost names = asset_names(release@.assets);
        let n = release.assets.len();
        let mut available: Vec<String> = Vec::new();
        let mut i: usize = 0;
        while i < n
            invariant
                i <= n,
                n == release.assets@.len(),
                names == asset_names(release@.assets),
                names.len() == n,
                available.deep_view() =~= names.take(i as int),
            decreases n - i,
        {
            available.push(release.assets[i].name.clone());
            proof {
                assert(names.take(i as int).push(names[i as int]) =~= names.take(i as int + 1));
                assert(available.deep_view() =~= names.take(i as int + 1));
            }
            i = i + 1;
        }
        proof {
            assert(available.deep_view() =~= names);
        }
        if let Some(pattern) = tv.options.platform_or_global("asset_pattern") {
            proof {
                assert(tv.options.spec_effective("asset_pattern"@) == Some(*pattern));
            }
            let tp = template_string(pattern.as_str(), tv.version.as_str(), os, arch);
            let mut found: Option<usize> = None;
            let mut k: usize = 0;
            while k < n
                invariant
                    k <= n,
                    n == release.assets@.len(),
                    names == asset_names(release@.assets),
                    names.len() == n,
                    tp@ == templated(pattern@, tv.version@, os@, arch@),
                    match found {
                        None => forall|j: int| 0 <= j < k ==> !glob_match(tp@, names[j]),
                        Some(f) => f < k && glob_match(tp@, names[f as int]) && forall|j: int|
                            0 <= j < f ==> !glob_match(tp@, names[j]),
                    },
                decreases n - k,
            {
                let hit = match found {
                    None => glob_matches(release.assets[k].name.as_str(), tp.as_str()),
                    Some(_) => false,
                };
                proof {
                    assert(names[k as int] == release@.assets[k as int].name);
                }
                if hit {
                    found = Some(k);
                }
                k = k + 1;
            }
            match found {
                Some(f) => {
                    let picked = resolved_of(&release.assets[f]);
                    proof {
                        assert(release@.assets[f as int] == release.assets@[f as int]@);
                        assert(picked@ == resolved_from_asset(release@.assets[f as int]));
                        assert(pattern_pick_ok(release@.assets, tp@, picked@));
                    }
                    return Ok(picked);
                },
                None => {
                    return Err(
                        ForgeError::NoMatchingAsset {
                            pattern: tp,
                            available: join_all(&available, ", "),
                        },
                    );
                },
            }
        }
        match self.auto_detect_asset(os, arch, &available) {
            Ok(picked) => {
                match self.find_asset_case_insensitive(&available, picked.as_str()) {
                    Some(idx) => {
                        let result = resolved_of(&release.assets[idx]);
                        proof {
                            let pi = choose|pi: int|
                                #[trigger] best_pick_at(os@, arch@, available.deep_view(), pi)
                                    && picked@ == available.deep_view()[pi];
                            assert(best_pick_at(os@, arch@, names, pi));
                            assert(ci_lookup_at(names, names[pi], idx as int));
                            assert(release@.assets[idx as int] == release.assets@[idx as int]@);
                            assert(result@ == resolved_from_asset(release@.assets[idx as int]));
                            assert(picker_pick_ok(os@, arch@, release@.assets, result@));
                        }
                        Ok(result)
                    },
                    None => {
                        // The picker only returns one of the offered
                        // names, so the lookup cannot miss; the error
                        // path stays as a guard.
                        proof {
                            let pi = choose|pi: int|
                                best_pick_at(os@, arch@, available.deep_view(), pi) && picked@
                                    == available.deep_view()[pi];
                            assert(available.deep_view()[pi] != picked@);
                            assert(false);
                        }
                        Err(
                            ForgeError::AssetNotFound {
                                name: picked,
                                available: join_all(&available, ", "),
                            },
                        )
                    },
                }
            },
            Err(e) => Err(e),
        }
    }
}

/// Law: a Platform Lock Entry determines the reproduced artifact by
/// itself: the stored URL and API URL come back verbatim (empty when
/// absent), and the stored name comes back, falling back to the last path
/// segment of the stored URL. Together with `resolve_precheck`, whose
/// result carries no candidate tags to fetch when an entry exists, a
/// repeat install for a locked platform reproduces the same artifact
/// without a release query.
pub proof fn lemma_lock_short_circuit(info: PlatformInfo)
    ensures
        locked_asset_view(info).url == or_empty(info.url),
        locked_asset_view(info).url_api == or_empty(info.url_api),
        locked_asset_view(info).name == (match info.name {
            Some(n) => n@,
            None => suffix_after_last(or_empty(info.url), '/'),
        }),
{
}

} // verus!
