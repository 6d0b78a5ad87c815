//! The forge-release backend: the repository identity it is configured
//! with, tag normalization, asset lookup and selection helpers, and the
//! listing operation over fetched releases.

use vstd::prelude::*;
use crate::glob::{glob_match, glob_matches};
use crate::options::ToolVersionOptions;
use crate::picker::{best_pick_at, eligible, AssetPicker};
use crate::release::{rel_views, ForgejoRelease, ReleaseView};
use crate::text::{
    concat_strs, before_first, is_prefix_of, join_all, join_with, prefix_before_first, str_eq,
    suffix_after_first, to_owned_string, replace_all, replace_all_spec,
};
use crate::trusted::{lower_of, lowercase, normalize_url, url_normalized, url_parses};
use crate::version::{opt_chars, strip_tag, strip_tag_spec};

verus! {

/// A resolution or selection failure, carrying enough context to
/// self-diagnose: the pattern or name tried, the names on offer, and the
/// platform attempted.
#[derive(Debug)]
pub enum ForgeError {
    /// No asset name matched the configured pattern.
    NoMatchingAsset { pattern: String, available: String },
    /// The picker found nothing suitable for the current platform.
    NoAssetForPlatform { os: String, arch: String, available: String },
    /// The picked name was not found among the release's assets after all.
    AssetNotFound { name: String, available: String },
    /// The host part of the repository identifier is not a valid URL host.
    InvalidApiHost { host: String },
}

impl ForgeError {
    /// The user-facing text of this error.
    pub open spec fn message_spec(&self) -> Seq<char> {
        match self {
            ForgeError::NoMatchingAsset { pattern, available } =>
                "No matching asset found for pattern: "@ + pattern@
                + "\nAvailable assets: "@ + available@,
            ForgeError::NoAssetForPlatform { os, arch, available } =>
                "No suitable asset found for current platform ("@ + os@ + "-"@ + arch@
                + ")\nAvailable assets: "@ + available@,
            ForgeError::AssetNotFound { name, available } =>
                "Auto-detected asset not found: "@ + name@
                + "\nAvailable assets: "@ + available@,
            ForgeError::InvalidApiHost { host } =>
                "Invalid forge host: "@ + host@,
        }
    }

    /// Renders the user-facing text of this error.
    pub fn message(&self) -> (r: String)
        ensures
            r@ == self.message_spec(),
    {
        match self {
            ForgeError::NoMatchingAsset { pattern, available } => {
                let mut out = String::from_str("No matching asset found for pattern: ");
                out.append(pattern.as_str());
                out.append("\nAvailable assets: ");
                out.append(available.as_str());
                out
            },
            ForgeError::NoAssetForPlatform { os, arch, available } => {
                let mut out = String::from_str("No suitable asset found for current platform (");
                out.append(os.as_str());
                out.append("-");
                out.append(arch.as_str());
                out.append(")\nAvailable assets: ");
                out.append(available.as_str());
                out
            },
            ForgeError::AssetNotFound { name, available } => {
                let mut out = String::from_str("Auto-detected asset not found: ");
                out.append(name.as_str());
                out.append("\nAvailable assets: ");
                out.append(available.as_str());
                out
            },
            ForgeError::InvalidApiHost { host } => {
                let mut out = String::from_str("Invalid forge host: ");
                out.append(host.as_str());
                out
            },
        }
    }
}

/// The tool name carried by a backend argument: the part of the full
/// specifier after the backend prefix, or the whole specifier when it
/// carries none.
pub open spec fn tool_name_of(full: Seq<char>) -> Seq<char> {
    if exists|i: int| 0 <= i < full.len() && full[i] == ':' {
        suffix_after_first(full, ':')
    } else {
        full
    }
}

/// Derives the tool name from a full specifier such as
/// `forgejo:host/owner/repo`.
fn derive_tool_name(full: &str) -> (r: String)
    ensures
        r@ == tool_name_of(full@),
{
    match crate::text::first_index_of(full, ':') {
        Some(i) => {
            assert(0 <= i < full@.len() && full@[i as int] == ':');
            crate::text::after_first(full, ':')
        },
        None => to_owned_string(full),
    }
}

/// How a backend was named on the command line or in configuration: the
/// short name, the full specifier, and the options that travel with it.
pub struct BackendArg {
    pub short: String,
    pub full: Option<String>,
    pub name: String,
    pub tool_name: String,
    pub opts: ToolVersionOptions,
}

impl BackendArg {
    /// A backend argument with empty options; the tool name is derived
    /// from the full specifier, or from the short name when none is given.
    pub fn new(short: String, full: Option<String>) -> (r: Self)
        ensures
            r.short == short,
            r.full == full,
            r.tool_name@ == tool_name_of(
                match full {
                    Some(f) => f@,
                    None => short@,
                },
            ),
            forall|k: Seq<char>| r.opts.spec_global(k) is None,
            forall|k: Seq<char>| r.opts.spec_platform(k) is None,
    {
        let tool_name = match &full {
            Some(f) => derive_tool_name(f.as_str()),
            None => derive_tool_name(short.as_str()),
        };
        let name = short.clone();
        BackendArg { short, full, name, tool_name, opts: ToolVersionOptions::new() }
    }

    /// A backend argument with every part given, including options.
    pub fn new_raw(short: String, full: Option<String>, name: String, opts: Option<
        ToolVersionOptions,
    >) -> (r: Self)
        ensures
            r.short == short,
            r.full == full,
            r.name == name,
            r.tool_name@ == tool_name_of(
                match full {
                    Some(f) => f@,
                    None => short@,
                },
            ),
            match opts {
                Some(o) => r.opts == o,
                None => (forall|k: Seq<char>| r.opts.spec_global(k) is None) && (forall|
                    k: Seq<char>,
                | r.opts.spec_platform(k) is None),
            },
    {
        let tool_name = match &full {
            Some(f) => derive_tool_name(f.as_str()),
            None => derive_tool_name(short.as_str()),
        };
        let opts = match opts {
            Some(o) => o,
            None => ToolVersionOptions::new(),
        };
        BackendArg { short, full, name, tool_name, opts }
    }

    /// The derived tool name.
    pub fn tool_name(&self) -> (r: String)
        ensures
            r@ == self.tool_name@,
    {
        self.tool_name.clone()
    }

    /// The options carried with the argument.
    pub fn opts(&self) -> (r: &ToolVersionOptions)
        ensures
            *r == self.opts,
    {
        &self.opts
    }
}

/// True when the tag is kept by the listing operation: it must carry the
/// configured prefix, or there must be none.
pub open spec fn keeps_tag(tag: Seq<char>, prefix: Option<Seq<char>>) -> bool {
    match prefix {
        Some(p) => is_prefix_of(p, tag),
        None => true,
    }
}

/// The user-facing version strings of the kept releases, in fetch order.
pub open spec fn kept_versions(rs: Seq<ReleaseView>, prefix: Option<Seq<char>>) -> Seq<Seq<char>>
    decreases rs.len(),
{
    if rs.len() == 0 {
        Seq::empty()
    } else {
        let rest = kept_versions(rs.skip(1), prefix);
        if keeps_tag(rs[0].tag_name, prefix) {
            seq![strip_tag_spec(rs[0].tag_name, prefix)] + rest
        } else {
            rest
        }
    }
}

/// The view of an optional owned string.
pub open spec fn opt_string_chars(o: Option<String>) -> Option<Seq<char>> {
    match o {
        Some(s) => Some(s@),
        None => None,
    }
}

/// True when `names[i]` is what a case-insensitive lookup of `target`
/// returns: the first exact match when one exists, otherwise the first
/// name equal to `target` after lowercasing.
pub open spec fn ci_lookup_at(names: Seq<Seq<char>>, target: Seq<char>, i: int) -> bool {
    ||| (0 <= i < names.len() && names[i] == target && forall|j: int|
        0 <= j < i ==> names[j] != target)
    ||| ((forall|j: int| 0 <= j < names.len() ==> names[j] != target) && 0 <= i < names.len()
        && lower_of(names[i]) == lower_of(target) && forall|j: int|
        0 <= j < i ==> lower_of(names[j]) != lower_of(target))
}

/// The template `tpl` with `{version}`, `{os}` and `{arch}` placeholders
/// substituted, in that order.
pub open spec fn templated(tpl: Seq<char>, version: Seq<char>, os: Seq<char>, arch: Seq<char>)
    -> Seq<char> {
    replace_all_spec(
        replace_all_spec(replace_all_spec(tpl, "{version}"@, version), "{os}"@, os),
        "{arch}"@,
        arch,
    )
}

/// Substitutes the tool-version context into an option template.
pub fn template_string(tpl: &str, version: &str, os: &str, arch: &str) -> (r: String)
    ensures
        r@ == templated(tpl@, version@, os@, arch@),
{
    proof {
        reveal_strlit("{version}");
        reveal_strlit("{os}");
        reveal_strlit("{arch}");
    }
    let a = replace_all(tpl, "{version}", version);
    let b = replace_all(a.as_str(), "{os}", os);
    replace_all(b.as_str(), "{arch}", arch)
}

proof fn lemma_reverse_cons(x: Seq<char>, rest: Seq<Seq<char>>)
    ensures
        (seq![x] + rest).reverse() == rest.reverse().push(x),
{
    assert((seq![x] + rest).reverse() =~= rest.reverse().push(x));
}

/// The kind of installable backend a plugin implements; this library
/// covers the forge-release kind.
#[derive(PartialEq, Eq, Structural, Clone, Copy, Debug)]
pub enum BackendType {
    Forgejo,
}

/// The forge-release backend for one configured tool.
pub struct ForgejoBackend {
    pub ba: BackendArg,
}

impl ForgejoBackend {
    /// A backend over the given argument.
    pub fn from_arg(ba: BackendArg) -> (r: Self)
        ensures
            r.ba == ba,
    {
        ForgejoBackend { ba }
    }

    /// The kind of backend this is.
    pub fn get_type(&self) -> (r: BackendType)
        ensures
            r == BackendType::Forgejo,
    {
        BackendType::Forgejo
    }

    /// The argument this backend was built from.
    pub fn ba(&self) -> (r: &BackendArg)
        ensures
            *r == self.ba,
    {
        &self.ba
    }

    /// The `owner/repo` part of the tool name: everything after the host.
    pub fn repo(&self) -> (r: String)
        ensures
            r@ == suffix_after_first(self.ba.tool_name@, '/'),
    {
        crate::text::after_first(self.ba.tool_name.as_str(), '/')
    }

    /// One readable line listing asset names.
    pub fn format_asset_list(assets: &Vec<String>) -> (r: String)
        ensures
            r@ == join_with(assets.deep_view(), ", "@),
    {
        join_all(assets, ", ")
    }

    /// The API base for the configured forge: an `api_url` option verbatim
    /// when given, otherwise `https://` ahead of the host part of the tool
    /// name, normalized as a URL, with `api/v1` appended.
    pub fn get_api_url(&self, opts: &ToolVersionOptions) -> (r: Result<String, ForgeError>)
        ensures
            opts.spec_global("api_url"@) is Some ==> r is Ok,
            opts.spec_global("api_url"@) is None ==> (r is Ok <==> url_parses(
                "https://"@ + prefix_before_first(self.ba.tool_name@, '/'),
            )),
            ({
                let configured = opts.spec_global("api_url"@);
                let host = prefix_before_first(self.ba.tool_name@, '/');
                match r {
                    Ok(u) => (configured matches Some(v) && u@ == v@) || (configured is None && u@
                        == url_normalized("https://"@ + host) + "api/v1"@),
                    Err(e) => configured is None && (e matches ForgeError::InvalidApiHost {
                        host: h,
                    } && h@ == host),
                }
            }),
    {
        if let Some(u) = opts.get("api_url") {
            return Ok(u.clone());
        }
        let host = before_first(self.ba.tool_name.as_str(), '/');
        let base = concat_strs("https://", host.as_str());
        match normalize_url(base.as_str()) {
            Some(n) => Ok(n.concat("api/v1")),
            None => Err(ForgeError::InvalidApiHost { host }),
        }
    }

    /// Decides whether an asset name matches a glob-style pattern.
    pub fn matches_pattern(&self, asset_name: &str, pattern: &str) -> (r: bool)
        ensures
            r == glob_match(pattern@, asset_name@),
    {
        glob_matches(asset_name, pattern)
    }

    /// Normalizes one upstream tag to a user-facing version string, under
    /// the backend's configured `version_prefix`.
    pub fn strip_version_prefix(&self, tag_name: &str) -> (r: String)
        ensures
            r@ == strip_tag_spec(
                tag_name@,
                opt_string_chars(self.ba.opts.spec_global("version_prefix"@)),
            ),
    {
        let prefix = self.ba.opts.get("version_prefix");
        let r = strip_tag(tag_name, prefix);
        proof {
            assert(opt_chars(prefix) == opt_string_chars(
                self.ba.opts.spec_global("version_prefix"@),
            ));
        }
        r
    }

    /// Looks `target` up among `names`, case-sensitively first and then
    /// case-insensitively, returning the index of the entry found.
    pub fn find_asset_case_insensitive(&self, names: &Vec<String>, target: &str) -> (r: Option<
        usize,
    >)
        ensures
            match r {
                Some(i) => i < names@.len() && ci_lookup_at(names.deep_view(), target@, i as int),
                None => forall|j: int|
                    0 <= j < names@.len() ==> names.deep_view()[j] != target@ && lower_of(
                        names.deep_view()[j],
                    ) != lower_of(target@),
            },
    {
        let n = names.len();
        proof {
            assert(names.deep_view().len() == names@.len());
        }
        let mut i: usize = 0;
        while i < n
            invariant
                i <= n,
                n == names@.len(),
                names.deep_view().len() == names@.len(),
                forall|j: int| 0 <= j < n ==> names.deep_view()[j] == names@[j]@,
                forall|j: int| 0 <= j < i ==> names.deep_view()[j] != target@,
            decreases n - i,
        {
            if str_eq(names[i].as_str(), target) {
                return Some(i);
            }
            i = i + 1;
        }
        let target_lower = lowercase(target);
        let mut k: usize = 0;
        while k < n
            invariant
                k <= n,
                n == names@.len(),
                names.deep_view().len() == names@.len(),
                forall|j: int| 0 <= j < n ==> names.deep_view()[j] == names@[j]@,
                forall|j: int| 0 <= j < n ==> names.deep_view()[j] != target@,
                target_lower@ == lower_of(target@),
                forall|j: int| 0 <= j < k ==> lower_of(names.deep_view()[j]) != lower_of(target@),
            decreases n - k,
        {
            let name_lower = lowercase(names[k].as_str());
            if str_eq(name_lower.as_str(), target_lower.as_str()) {
                return Some(k);
            }
            k = k + 1;
        }
        None
    }

    /// Picks the best asset name for the platform, or reports the platform
    /// and the names on offer when none is suitable.
    pub fn auto_detect_asset(&self, os: &str, arch: &str, available_assets: &Vec<String>) -> (r:
        Result<String, ForgeError>)
        ensures
            match r {
                Ok(n) => exists|i: int|
                    #[trigger] best_pick_at(os@, arch@, available_assets.deep_view(), i) && n@
                        == available_assets.deep_view()[i],
                Err(e) => (forall|i: int|
                    0 <= i < available_assets.deep_view().len() ==> !eligible(
                        os@,
                        arch@,
                        available_assets.deep_view()[i],
                    )) && (e matches ForgeError::NoAssetForPlatform { os: o, arch: a, available: av }
                    && o@ == os@ && a@ == arch@ && av@ == join_with(
                    available_assets.deep_view(),
                    ", "@,
                )),
            },
    {
        let picker = AssetPicker::new(to_owned_string(os), to_owned_string(arch));
        match picker.pick_best_asset(available_assets) {
            Some(n) => Ok(n),
            None => Err(
                ForgeError::NoAssetForPlatform {
                    os: to_owned_string(os),
                    arch: to_owned_string(arch),
                    available: join_all(available_assets, ", "),
                },
            ),
        }
    }

    /// The listing operation over fetched releases: keep the tags that
    /// match the configured prefix, strip it from each, and return them
    /// oldest-first — the reverse of upstream's newest-first fetch order.
    pub fn list_remote_versions(&self, releases: &Vec<ForgejoRelease>) -> (r: Vec<String>)
        ensures
            r.deep_view() == kept_versions(
                rel_views(releases@),
                opt_string_chars(self.ba.opts.spec_global("version_prefix"@)),
            ).reverse(),
    {
        let ghost pfx = opt_string_chars(self.ba.opts.spec_global("version_prefix"@));
        let prefix = self.ba.opts.get("version_prefix");
        proof {
            assert(opt_chars(prefix) == pfx);
        }
        let mut out: Vec<String> = Vec::new();
        let n = releases.len();
        let mut i: usize = n;
        proof {
            assert(rel_views(releases@).skip(n as int) =~= Seq::<ReleaseView>::empty());
            assert(out.deep_view() =~= kept_versions(
                rel_views(releases@).skip(n as int),
                pfx,
            ).reverse());
        }
        while i > 0
            invariant
                i <= n,
                n == releases@.len(),
                opt_chars(prefix) == pfx,
                out.deep_view() == kept_versions(rel_views(releases@).skip(i as int), pfx).reverse(),
            decreases i,
        {
            i = i - 1;
            let ghost vs = rel_views(releases@);
            let ghost before = out.deep_view();
            proof {
                assert(vs.skip(i as int)[0] == vs[i as int]);
                assert(vs.skip(i as int).skip(1) =~= vs.skip(i as int + 1));
            }
            let keep = match prefix {
                Some(p) => crate::text::starts_with(releases[i].tag_name.as_str(), p.as_str()),
                None => true,
            };
            if keep {
                let stripped = strip_tag(releases[i].tag_name.as_str(), prefix);
                out.push(stripped);
                proof {
                    let x = strip_tag_spec(vs[i as int].tag_name, pfx);
                    let rest = kept_versions(vs.skip(i as int + 1), pfx);
                    let kept = kept_versions(vs.skip(i as int), pfx);
                    assert(kept =~= seq![x] + rest);
                    lemma_reverse_cons(x, rest);
                    assert(out.deep_view() =~= rest.reverse().push(x));
                }
            } else {
                proof {
                    assert(kept_versions(vs.skip(i as int), pfx) == kept_versions(
                        vs.skip(i as int + 1),
                        pfx,
                    ));
                }
            }
        }
        proof {
            assert(rel_views(releases@).skip(0) =~= rel_views(releases@));
        }
        out
    }
}

} // verus!
