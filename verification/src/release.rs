//! The data surfaced by a forge's release API, and the resolved artifact
//! descriptor the install pipeline consumes. Each type carries a view that
//! abstracts its strings to character sequences; contracts speak over those.

use vstd::prelude::*;

verus! {

/// One downloadable file attached to a release. `url` is the per-asset API
/// endpoint, present only on forges that expose one.
pub struct ForgejoAsset {
    pub name: String,
    pub browser_download_url: String,
    pub url: Option<String>,
}

/// The mathematical model of an asset.
pub ghost struct AssetView {
    pub name: Seq<char>,
    pub download_url: Seq<char>,
    pub api_url: Option<Seq<char>>,
}

impl View for ForgejoAsset {
    type V = AssetView;

    open spec fn view(&self) -> AssetView {
        AssetView {
            name: self.name@,
            download_url: self.browser_download_url@,
            api_url: match self.url {
                Some(u) => Some(u@),
                None => None,
            },
        }
    }
}

/// A named, tagged publication of a tool version.
pub struct ForgejoRelease {
    pub tag_name: String,
    pub draft: bool,
    pub prerelease: bool,
    pub assets: Vec<ForgejoAsset>,
}

/// The mathematical model of a release.
pub ghost struct ReleaseView {
    pub tag_name: Seq<char>,
    pub draft: bool,
    pub prerelease: bool,
    pub assets: Seq<AssetView>,
}

impl View for ForgejoRelease {
    type V = ReleaseView;

    open spec fn view(&self) -> ReleaseView {
        ReleaseView {
            tag_name: self.tag_name@,
            draft: self.draft,
            prerelease: self.prerelease,
            assets: self.assets@.map_values(|a: ForgejoAsset| a@),
        }
    }
}

/// One tag name from the tags endpoint.
pub struct ForgejoTag {
    pub name: String,
}

/// The canonical artifact descriptor: independent of the upstream schema so
/// a resolution can be replayed from the lockfile without re-querying.
pub struct ReleaseAsset {
    pub name: String,
    pub url: String,
    pub url_api: String,
}

/// The mathematical model of a resolved artifact.
pub ghost struct ReleaseAssetView {
    pub name: Seq<char>,
    pub url: Seq<char>,
    pub url_api: Seq<char>,
}

impl View for ReleaseAsset {
    type V = ReleaseAssetView;

    open spec fn view(&self) -> ReleaseAssetView {
        ReleaseAssetView { name: self.name@, url: self.url@, url_api: self.url_api@ }
    }
}

/// The artifact recorded for one platform key on a previous install.
pub struct PlatformInfo {
    pub name: Option<String>,
    pub url: Option<String>,
    pub url_api: Option<String>,
}

/// The views of the releases of `s`, in order.
pub open spec fn rel_views(s: Seq<ForgejoRelease>) -> Seq<ReleaseView> {
    s.map_values(|r: ForgejoRelease| r@)
}

/// The names of the assets of `s`, in order.
pub open spec fn asset_names(s: Seq<AssetView>) -> Seq<Seq<char>> {
    s.map_values(|a: AssetView| a.name)
}

/// True when a release from a list query may be surfaced to callers.
pub open spec fn installable(r: ReleaseView) -> bool {
    !r.draft && !r.prerelease
}

/// The releases of `rs` that are neither drafts nor prereleases, in order.
pub open spec fn installable_of(rs: Seq<ReleaseView>) -> Seq<ReleaseView>
    decreases rs.len(),
{
    if rs.len() == 0 {
        Seq::empty()
    } else if installable(rs.last()) {
        installable_of(rs.drop_last()).push(rs.last())
    } else {
        installable_of(rs.drop_last())
    }
}

/// An exact copy of `a`.
pub fn clone_asset(a: &ForgejoAsset) -> (r: ForgejoAsset)
    ensures
        r == *a,
{
    let url = match &a.url {
        Some(u) => Some(u.clone()),
        None => None,
    };
    ForgejoAsset { name: a.name.clone(), browser_download_url: a.browser_download_url.clone(), url }
}

/// A copy of `r` with the same model.
pub fn clone_release(r: &ForgejoRelease) -> (c: ForgejoRelease)
    ensures
        c@ == r@,
{
    let mut assets: Vec<ForgejoAsset> = Vec::new();
    let n = r.assets.len();
    let mut i: usize = 0;
    while i < n
        invariant
            i <= n,
            n == r.assets@.len(),
            assets@ =~= r.assets@.take(i as int),
        decreases n - i,
    {
        assets.push(clone_asset(&r.assets[i]));
        proof {
            assert(r.assets@.take(i as int).push(r.assets@[i as int]) =~= r.assets@.take(
                i as int + 1,
            ));
        }
        i = i + 1;
    }
    proof {
        assert(assets@ =~= r.assets@);
    }
    let c = ForgejoRelease {
        tag_name: r.tag_name.clone(),
        draft: r.draft,
        prerelease: r.prerelease,
        assets,
    };
    proof {
        assert(c@.assets =~= r@.assets);
    }
    c
}

/// An exact copy of `p`.
pub fn clone_platform_info(p: &PlatformInfo) -> (r: PlatformInfo)
    ensures
        r == *p,
{
    let name = match &p.name {
        Some(s) => Some(s.clone()),
        None => None,
    };
    let url = match &p.url {
        Some(s) => Some(s.clone()),
        None => None,
    };
    let url_api = match &p.url_api {
        Some(s) => Some(s.clone()),
        None => None,
    };
    PlatformInfo { name, url, url_api }
}

/// Removes drafts and prereleases from a fetched release list, keeping the
/// order of the remaining releases.
pub fn filter_installable(rs: &Vec<ForgejoRelease>) -> (out: Vec<ForgejoRelease>)
    ensures
        rel_views(out@) == installable_of(rel_views(rs@)),
{
    let mut out: Vec<ForgejoRelease> = Vec::new();
    let n = rs.len();
    let mut i: usize = 0;
    while i < n
        invariant
            i <= n,
            n == rs@.len(),
            rel_views(out@) == installable_of(rel_views(rs@.take(i as int))),
        decreases n - i,
    {
        proof {
            assert(rel_views(rs@.take(i as int + 1)).drop_last() =~= rel_views(
                rs@.take(i as int),
            ));
            assert(rel_views(rs@.take(i as int + 1)).last() == rs@[i as int]@);
        }
        let ghost prev = rel_views(out@);
        if !rs[i].draft && !rs[i].prerelease {
            let c = clone_release(&rs[i]);
            out.push(c);
            proof {
                assert(rel_views(out@) =~= prev.push(rs@[i as int]@));
            }
        }
        i = i + 1;
    }
    proof {
        assert(rel_views(rs@.take(n as int)) =~= rel_views(rs@));
    }
    out
}

} // verus!
