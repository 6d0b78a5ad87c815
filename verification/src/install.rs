//! The compute side of the install pipeline: progress-operation counting,
//! lock-entry recording, request headers, the download-URL fallback
//! decision, and executable-directory discovery rules. The network and
//! filesystem work around these runs outside the library and hands in
//! plain values.

use vstd::prelude::*;
use crate::backend::{templated, template_string, ForgejoBackend};
use crate::options::ToolVersionOptions;
use crate::picker::{is_archive_exec, is_archive_name};
use crate::release::{PlatformInfo, ReleaseAsset};
use crate::resolve::ToolVersion;
use crate::text::{concat_strs, contains_seq, contains_str, to_owned_string};
use crate::trusted::{parse_url_path, url_parses, url_path_of};
use crate::version::opt_chars;

verus! {

/// One request header handed to the transport.
pub struct Header {
    pub name: String,
    pub value: String,
}

/// The mathematical model of a header.
pub ghost struct HeaderView {
    pub name: Seq<char>,
    pub value: Seq<char>,
}

impl View for Header {
    type V = HeaderView;

    open spec fn view(&self) -> HeaderView {
        HeaderView { name: self.name@, value: self.value@ }
    }
}

/// The views of a header list, in order.
pub open spec fn header_views(hs: Seq<Header>) -> Seq<HeaderView> {
    hs.map_values(|h: Header| h@)
}

/// The headers of a forge request: the bearer token when one is
/// configured, and an octet-stream accept header exactly when the URL
/// path contains the asset-download segment.
pub open spec fn headers_spec(path: Option<Seq<char>>, token: Option<Seq<char>>) -> Seq<
    HeaderView,
> {
    (match token {
        Some(t) => seq![(HeaderView { name: "authorization"@, value: "token "@ + t })],
        None => Seq::empty(),
    }) + (match path {
        Some(p) => if contains_seq(p, "/releases/assets/"@) {
            seq![(HeaderView { name: "accept"@, value: "application/octet-stream"@ })]
        } else {
            Seq::empty()
        },
        None => Seq::empty(),
    })
}

/// Builds the request headers from an already-extracted URL path.
pub fn get_headers(path: Option<&String>, token: Option<&String>) -> (r: Vec<Header>)
    ensures
        header_views(r@) == headers_spec(opt_chars(path), opt_chars(token)),
{
    let mut out: Vec<Header> = Vec::new();
    if let Some(t) = token {
        let value = concat_strs("token ", t.as_str());
        out.push(Header { name: to_owned_string("authorization"), value });
    }
    let accept = match path {
        Some(p) => contains_str(p.as_str(), "/releases/assets/"),
        None => false,
    };
    if accept {
        out.push(
            Header {
                name: to_owned_string("accept"),
                value: to_owned_string("application/octet-stream"),
            },
        );
    }
    proof {
        assert(header_views(out@) =~= headers_spec(opt_chars(path), opt_chars(token)));
    }
    out
}

/// Builds the request headers for a URL: its path is extracted first, and
/// when the URL does not parse the accept header is simply left off.
pub fn headers_for_url(url: &str, token: Option<&String>) -> (r: Vec<Header>)
    ensures
        url_parses(url@) ==> header_views(r@) == headers_spec(
            Some(url_path_of(url@)),
            opt_chars(token),
        ),
        !url_parses(url@) ==> header_views(r@) == headers_spec(None, opt_chars(token)),
{
    let path = parse_url_path(url);
    match &path {
        Some(p) => {
            let r = get_headers(Some(p), token);
            proof {
                assert(headers_spec(Some(p@), opt_chars(token)) == header_views(r@));
                assert(p@ == url_path_of(url@));
            }
            r
        },
        None => get_headers(None, token),
    }
}

/// The number of discrete operations an install reports before starting:
/// the download, the checksum verification when one is configured, and
/// the extraction when the filename names a known archive format.
pub open spec fn op_count_spec(filename: Seq<char>, has_checksum: bool) -> int {
    1 + (if has_checksum {
        1int
    } else {
        0int
    }) + (if is_archive_name(filename) {
        1int
    } else {
        0int
    })
}

/// True when a checksum is configured, on the platform layer or globally.
pub fn has_checksum_configured(opts: &ToolVersionOptions) -> (r: bool)
    ensures
        r == (opts.spec_effective("checksum"@) is Some),
{
    match opts.platform_or_global("checksum") {
        Some(_) => true,
        None => false,
    }
}

/// Counts the operations to report for a download of `filename`.
pub fn compute_op_count(filename: &str, has_checksum: bool) -> (r: u32)
    ensures
        r == op_count_spec(filename@, has_checksum),
{
    let mut count: u32 = 1;
    if has_checksum {
        count = count + 1;
    }
    if is_archive_exec(filename) {
        count = count + 1;
    }
    count
}

/// The local destination for a downloaded asset.
pub fn dest_file_path(download_path: &str, filename: &str) -> (r: String)
    ensures
        r@ == download_path@ + "/"@ + filename@,
{
    let mut out = to_owned_string(download_path);
    out.append("/");
    out.append(filename);
    out
}

/// Persists the chosen artifact into the Platform Lock Entry for the
/// platform key — before any download is attempted, so a resolved but not
/// yet downloaded state is still reproducible on retry. Everything else
/// about the tool version stays unchanged.
pub fn record_platform_choice(tv: &mut ToolVersion, platform_key: &String, asset: &ReleaseAsset)
    ensures
        final(tv).lock_platforms.spec_get(platform_key@) == Some(
            (PlatformInfo {
                name: Some(asset.name),
                url: Some(asset.url),
                url_api: Some(asset.url_api),
            }),
        ),
        forall|k: Seq<char>|
            k != platform_key@ ==> final(tv).lock_platforms.spec_get(k) == old(
                tv,
            ).lock_platforms.spec_get(k),
        final(tv).version == old(tv).version,
        final(tv).options == old(tv).options,
        final(tv).install_path == old(tv).install_path,
        final(tv).download_path == old(tv).download_path,
{
    let info = PlatformInfo {
        name: Some(asset.name.clone()),
        url: Some(asset.url.clone()),
        url_api: Some(asset.url_api.clone()),
    };
    tv.lock_platforms.insert(platform_key.clone(), info);
}

/// The URL the download uses: the public download URL when the lightweight
/// existence probe succeeded, else the API URL — the fallback for forges
/// whose public URL needs a different path or auth scope.
pub fn choose_download_url(probe_ok: bool, asset: &ReleaseAsset) -> (r: String)
    ensures
        probe_ok ==> r@ == asset.url@,
        !probe_ok ==> r@ == asset.url_api@,
{
    if probe_ok {
        asset.url.clone()
    } else {
        asset.url_api.clone()
    }
}

/// A path under a base directory.
pub open spec fn joined_path(base: Seq<char>, sub: Seq<char>) -> Seq<char> {
    base + "/"@ + sub
}

impl ForgejoBackend {
    /// The executable directories of an installed tool version. A
    /// `bin_path` template wins; otherwise the install root's `bin` when
    /// it exists, else every immediate subdirectory's `bin` that exists,
    /// else the install root itself. The caller probes the filesystem and
    /// hands in what it found.
    pub fn list_bin_paths(&self, tv: &ToolVersion, os: &str, arch: &str, has_root_bin: bool,
        sub_bins: &Vec<String>) -> (r: Vec<String>)
        ensures
            ({
                match tv.options.spec_global("bin_path"@) {
                    Some(tpl) => r.deep_view() == seq![
                        joined_path(tv.install_path@, templated(tpl@, tv.version@, os@, arch@)),
                    ],
                    None => {
                        &&& has_root_bin ==> r.deep_view() == seq![
                            joined_path(tv.install_path@, "bin"@),
                        ]
                        &&& !has_root_bin && sub_bins@.len() > 0 ==> r.deep_view()
                            == sub_bins.deep_view()
                        &&& !has_root_bin && sub_bins@.len() == 0 ==> r.deep_view() == seq![
                            tv.install_path@,
                        ]
                    },
                }
            }),
    {
        if let Some(tpl) = tv.options.get("bin_path") {
            let sub = template_string(tpl.as_str(), tv.version.as_str(), os, arch);
            let mut path = to_owned_string(tv.install_path.as_str());
            path.append("/");
            path.append(sub.as_str());
            let mut out: Vec<String> = Vec::new();
            out.push(path);
            proof {
                assert(out.deep_view() =~= seq![
                    joined_path(tv.install_path@, templated(tpl@, tv.version@, os@, arch@)),
                ]);
            }
            return out;
        }
        if has_root_bin {
            let mut path = to_owned_string(tv.install_path.as_str());
            path.append("/");
            path.append("bin");
            let mut out: Vec<String> = Vec::new();
            out.push(path);
            proof {
                assert(out.deep_view() =~= seq![joined_path(tv.install_path@, "bin"@)]);
            }
            return out;
        }
        if sub_bins.len() > 0 {
            let mut out: Vec<String> = Vec::new();
            let n = sub_bins.len();
            let mut i: usize = 0;
            while i < n
                invariant
                    i <= n,
                    n == sub_bins@.len(),
                    out@.len() == i,
                    forall|j: int| 0 <= j < i ==> out@[j]@ == sub_bins@[j]@,
                decreases n - i,
            {
                let x = sub_bins[i].clone();
                out.push(x);
                i = i + 1;
            }
            proof {
                assert forall|j: int| 0 <= j < n implies out.deep_view()[j]
                    == sub_bins.deep_view()[j] by {
                    assert(out@[j]@ == sub_bins@[j]@);
                }
                assert(out.deep_view() =~= sub_bins.deep_view());
            }
            out
        } else {
            let mut out: Vec<String> = Vec::new();
            out.push(to_owned_string(tv.install_path.as_str()));
            proof {
                assert(out.deep_view() =~= seq![tv.install_path@]);
            }
            out
        }
    }
}

} // verus!
