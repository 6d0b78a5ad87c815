use forgejo_backend::backend::{template_string, BackendArg, ForgejoBackend};
use forgejo_backend::cache::{
    cache_dir, cache_key, cache_key_with_tag, release_cache_file, releases_cache_file,
    tags_cache_file,
};
use forgejo_backend::install::{
    choose_download_url, compute_op_count, dest_file_path, get_headers, has_checksum_configured,
    headers_for_url, record_platform_choice,
};
use forgejo_backend::options::{StrMap, ToolVersionOptions};
use forgejo_backend::pagination::{next_page, release_tag_url, releases_url, tags_url};
use forgejo_backend::picker::AssetPicker;
use forgejo_backend::release::{
    filter_installable, ForgejoAsset, ForgejoRelease, PlatformInfo, ReleaseAsset,
};
use forgejo_backend::resolve::{get_filename_from_url, Resolution, ToolVersion};
use forgejo_backend::version::version_candidates;

fn plain_release(tag: &str, draft: bool, prerelease: bool) -> ForgejoRelease {
    ForgejoRelease {
        tag_name: tag.to_string(),
        draft,
        prerelease,
        assets: vec![],
    }
}

#[test]
fn picker_prefers_matching_platform() {
    let picker = AssetPicker::new("linux".to_string(), "amd64".to_string());
    let candidates = vec![
        "tool-linux-amd64.tar.gz".to_string(),
        "tool-darwin-amd64.tar.gz".to_string(),
        "tool-windows-amd64.zip".to_string(),
        "tool.sha256".to_string(),
    ];
    assert_eq!(
        picker.pick_best_asset(&candidates),
        Some("tool-linux-amd64.tar.gz".to_string())
    );
}

#[test]
fn picker_needs_an_architecture_signal() {
    let picker = AssetPicker::new("linux".to_string(), "amd64".to_string());
    let candidates = vec!["tool-linux.tar.gz".to_string(), "tool.sha256".to_string()];
    assert_eq!(picker.pick_best_asset(&candidates), None);
}

#[test]
fn picker_prefers_the_exact_architecture_spelling() {
    let picker = AssetPicker::new("linux".to_string(), "amd64".to_string());
    let candidates = vec![
        "tool-linux-x64.tar.gz".to_string(),
        "tool-linux-amd64.tar.gz".to_string(),
    ];
    assert_eq!(
        picker.pick_best_asset(&candidates),
        Some("tool-linux-amd64.tar.gz".to_string())
    );
}

#[test]
fn picker_handles_alias_spellings() {
    let picker = AssetPicker::new("macos".to_string(), "aarch64".to_string());
    let candidates = vec![
        "tool-Darwin-arm64.tar.gz".to_string(),
        "tool-Linux-x86_64.tar.gz".to_string(),
    ];
    assert_eq!(
        picker.pick_best_asset(&candidates),
        Some("tool-Darwin-arm64.tar.gz".to_string())
    );
}

#[test]
fn cached_key_is_fetched_once() {
    let mut group: StrMap<u64> = StrMap::new();
    let key = "api-repo".to_string();
    let first = *group.get_or_insert(&key, 41);
    assert_eq!(first, 41);
    let second = *group.get_or_insert(&key, 99);
    assert_eq!(second, 41);
    let other = *group.get_or_insert(&"api-other".to_string(), 7);
    assert_eq!(other, 7);
}

#[test]
fn cache_names_are_normalized() {
    assert_eq!(cache_key("Api", "Repo"), "api-repo");
    assert_eq!(
        cache_key("https://codeberg.org/api/v1", "mergiraf/mergiraf"),
        "https-codeberg-org-api-v1-mergiraf-mergiraf"
    );
    assert_eq!(
        cache_key_with_tag("Api", "Repo", "V1"),
        "api-repo-v1"
    );
    assert_eq!(releases_cache_file("k"), "k-releases.msgpack.z");
    assert_eq!(tags_cache_file("k"), "k-tags.msgpack.z");
    assert_eq!(release_cache_file("k"), "k.msgpack.z");
    assert_eq!(cache_dir("/home/u/.cache/tool"), "/home/u/.cache/tool/forgejo");
}

#[test]
fn endpoints_are_built_from_parts() {
    assert_eq!(
        releases_url("https://h/api/v1", "o/r"),
        "https://h/api/v1/repos/o/r/releases"
    );
    assert_eq!(tags_url("https://h/api/v1", "o/r"), "https://h/api/v1/repos/o/r/tags");
    assert_eq!(
        release_tag_url("https://h/api/v1", "o/r", "v1.0"),
        "https://h/api/v1/repos/o/r/releases/tags/v1.0"
    );
}

#[test]
fn next_page_finds_the_next_relation() {
    let header = "<https://h/api/v1/repos/o/r/releases?page=2>; rel=\"next\"";
    assert_eq!(
        next_page(header),
        Some("https://h/api/v1/repos/o/r/releases?page=2".to_string())
    );
}

#[test]
fn next_page_skips_other_relations() {
    let header = "<https://h/prev?page=1>; rel=\"prev\", <https://h/next?page=3>; rel=\"next\"";
    assert_eq!(next_page(header), Some("https://h/next?page=3".to_string()));
}

#[test]
fn next_page_absent() {
    assert_eq!(next_page(""), None);
    assert_eq!(next_page("<https://h/last?page=9>; rel=\"last\""), None);
    assert_eq!(next_page("no brackets at all"), None);
}

#[test]
fn drafts_and_prereleases_are_filtered() {
    let fetched = vec![
        plain_release("v3", false, false),
        plain_release("v3-rc1", false, true),
        plain_release("v2-wip", true, false),
        plain_release("v2", false, false),
    ];
    let kept = filter_installable(&fetched);
    let tags: Vec<String> = kept.iter().map(|r| r.tag_name.clone()).collect();
    assert_eq!(tags, vec!["v3".to_string(), "v2".to_string()]);
}

#[test]
fn op_count_follows_configuration() {
    assert_eq!(compute_op_count("tool.tar.gz", true), 3);
    assert_eq!(compute_op_count("tool.tar.gz", false), 2);
    assert_eq!(compute_op_count("tool.zip", false), 2);
    assert_eq!(compute_op_count("tool.tbz2", false), 2);
    assert_eq!(compute_op_count("tool.bin", false), 1);
    assert_eq!(compute_op_count("tool.bin", true), 2);
}

#[test]
fn checksum_configuration_is_layered() {
    let mut opts = ToolVersionOptions::default();
    assert!(!has_checksum_configured(&opts));
    opts.opts
        .insert("checksum".to_string(), "sha256:abc".to_string());
    assert!(has_checksum_configured(&opts));
    let mut platform_only = ToolVersionOptions::default();
    platform_only
        .platform_opts
        .insert("checksum".to_string(), "sha256:def".to_string());
    assert!(has_checksum_configured(&platform_only));
}

#[test]
fn recorded_choice_is_replayed() {
    let backend = ForgejoBackend::from_arg(BackendArg::new(
        "forgejo".to_string(),
        Some("forgejo:codeberg.org/mergiraf/mergiraf".to_string()),
    ));
    let mut tv = ToolVersion::new(
        "1.0.0".to_string(),
        ToolVersionOptions::default(),
        "/opt/tool/1.0.0".to_string(),
        "/tmp/downloads".to_string(),
    );
    let asset = ReleaseAsset {
        name: "tool-linux-amd64.tar.gz".to_string(),
        url: "https://dl.example/tool-linux-amd64.tar.gz".to_string(),
        url_api: "https://api.example/assets/3".to_string(),
    };
    record_platform_choice(&mut tv, &"linux-x64".to_string(), &asset);
    match backend.resolve_precheck(&tv, "linux-x64") {
        Resolution::UseLocked(replayed) => {
            assert_eq!(replayed.name, asset.name);
            assert_eq!(replayed.url, asset.url);
            assert_eq!(replayed.url_api, asset.url_api);
        }
        _ => panic!("expected the recorded artifact"),
    }
}

#[test]
fn headers_carry_token_and_accept() {
    let token = "abc123".to_string();
    let asset_url = "https://h/api/v1/repos/o/r/releases/assets/3";
    let headers = headers_for_url(asset_url, Some(&token));
    assert_eq!(headers.len(), 2);
    assert_eq!(headers[0].name, "authorization");
    assert_eq!(headers[0].value, format!("token {}", token));
    assert_eq!(headers[1].name, "accept");
    assert_eq!(headers[1].value, "application/octet-stream");
}

#[test]
fn accept_header_follows_the_path_not_the_query() {
    let tricky = "https://h/download?redirect=/releases/assets/9";
    let headers = headers_for_url(tricky, None);
    assert_eq!(headers.len(), 0);
    let metadata_url = "https://h/api/v1/repos/o/r/releases";
    let headers = headers_for_url(metadata_url, None);
    assert_eq!(headers.len(), 0);
}

#[test]
fn header_list_from_plain_path() {
    let path = "/api/v1/repos/o/r/releases/assets/3".to_string();
    let headers = get_headers(Some(&path), None);
    assert_eq!(headers.len(), 1);
    assert_eq!(headers[0].name, "accept");
}

#[test]
fn download_url_falls_back_to_api() {
    let asset = ReleaseAsset {
        name: "a.zip".to_string(),
        url: "https://dl.example/a.zip".to_string(),
        url_api: "https://api.example/assets/1".to_string(),
    };
    assert_eq!(choose_download_url(true, &asset), "https://dl.example/a.zip");
    assert_eq!(choose_download_url(false, &asset), "https://api.example/assets/1");
}

#[test]
fn destination_and_filenames() {
    assert_eq!(
        dest_file_path("/tmp/downloads", "tool.tar.gz"),
        "/tmp/downloads/tool.tar.gz"
    );
    assert_eq!(get_filename_from_url("https://h/a/b/tool.zip"), "tool.zip");
    assert_eq!(get_filename_from_url("plain"), "plain");
    assert_eq!(get_filename_from_url(""), "");
}

#[test]
fn template_substitutes_context() {
    assert_eq!(
        template_string("tool-{version}-{os}-{arch}.tar.gz", "1.2.3", "linux", "amd64"),
        "tool-1.2.3-linux-amd64.tar.gz"
    );
    assert_eq!(template_string("static", "1", "l", "a"), "static");
}

#[test]
fn bin_paths_follow_the_discovery_rules() {
    let backend = ForgejoBackend::from_arg(BackendArg::new(
        "forgejo".to_string(),
        Some("forgejo:codeberg.org/mergiraf/mergiraf".to_string()),
    ));
    let mut opts = ToolVersionOptions::default();
    opts.opts
        .insert("bin_path".to_string(), "cmd-{version}".to_string());
    let tv = ToolVersion::new(
        "1.0.0".to_string(),
        opts,
        "/opt/tool/1.0.0".to_string(),
        "/tmp/downloads".to_string(),
    );
    let none: Vec<String> = vec![];
    assert_eq!(
        backend.list_bin_paths(&tv, "linux", "amd64", false, &none),
        vec!["/opt/tool/1.0.0/cmd-1.0.0".to_string()]
    );

    let plain = ToolVersion::new(
        "1.0.0".to_string(),
        ToolVersionOptions::default(),
        "/opt/tool/1.0.0".to_string(),
        "/tmp/downloads".to_string(),
    );
    assert_eq!(
        backend.list_bin_paths(&plain, "linux", "amd64", true, &none),
        vec!["/opt/tool/1.0.0/bin".to_string()]
    );
    let subs = vec![
        "/opt/tool/1.0.0/one/bin".to_string(),
        "/opt/tool/1.0.0/two/bin".to_string(),
    ];
    assert_eq!(
        backend.list_bin_paths(&plain, "linux", "amd64", false, &subs),
        subs
    );
    assert_eq!(
        backend.list_bin_paths(&plain, "linux", "amd64", false, &none),
        vec!["/opt/tool/1.0.0".to_string()]
    );
}

#[test]
fn candidates_toggle_the_prefix() {
    assert_eq!(
        version_candidates("1.2.3", None),
        vec!["1.2.3".to_string(), "v1.2.3".to_string()]
    );
    assert_eq!(
        version_candidates("v1.2.3", None),
        vec!["v1.2.3".to_string(), "1.2.3".to_string()]
    );
    let prefix = "release-".to_string();
    assert_eq!(
        version_candidates("1.2.3", Some(&prefix)),
        vec!["1.2.3".to_string(), "release-1.2.3".to_string()]
    );
    assert_eq!(
        version_candidates("release-1.2.3", Some(&prefix)),
        vec!["release-1.2.3".to_string(), "1.2.3".to_string()]
    );
}

#[test]
fn glob_edges() {
    let backend = ForgejoBackend::from_arg(BackendArg::new(
        "forgejo".to_string(),
        Some("forgejo:codeberg.org/mergiraf/mergiraf".to_string()),
    ));
    assert!(backend.matches_pattern("", ""));
    assert!(backend.matches_pattern("anything", "*"));
    assert!(backend.matches_pattern("a", "?"));
    assert!(!backend.matches_pattern("ab", "?"));
    assert!(backend.matches_pattern("a.b", "a.b"));
    assert!(!backend.matches_pattern("axb", "a.b"));
    assert!(backend.matches_pattern("tool-v1.zip", "tool-*.zip"));
    assert!(!backend.matches_pattern("tool-v1.zip2", "tool-*.zip"));
}

#[test]
fn platform_layer_overrides_global() {
    let mut opts = ToolVersionOptions::default();
    opts.opts.insert("url".to_string(), "https://global".to_string());
    opts.platform_opts
        .insert("url".to_string(), "https://platform".to_string());
    assert_eq!(opts.platform_or_global("url").unwrap(), "https://platform");
    assert_eq!(opts.get("url").unwrap(), "https://global");
    assert_eq!(opts.lookup_platform_key("url").unwrap(), "https://platform");
    assert!(opts.lookup_platform_key("other").is_none());
}

#[test]
fn later_insert_shadows_earlier() {
    let mut opts = ToolVersionOptions::default();
    opts.opts.insert("version_prefix".to_string(), "v".to_string());
    opts.opts
        .insert("version_prefix".to_string(), "release-".to_string());
    assert_eq!(opts.get("version_prefix").unwrap(), "release-");
    assert!(opts.get("missing").is_none());
}

#[test]
fn locked_platform_info_roundtrip() {
    let info = PlatformInfo {
        name: Some("n".to_string()),
        url: Some("u".to_string()),
        url_api: Some("a".to_string()),
    };
    let copy = forgejo_backend::release::clone_platform_info(&info);
    assert_eq!(copy.name, info.name);
    assert_eq!(copy.url, info.url);
    assert_eq!(copy.url_api, info.url_api);
}

#[test]
fn asset_with_api_url_is_carried_over() {
    let backend = ForgejoBackend::from_arg(BackendArg::new(
        "forgejo".to_string(),
        Some("forgejo:codeberg.org/mergiraf/mergiraf".to_string()),
    ));
    let release = ForgejoRelease {
        tag_name: "v1".to_string(),
        draft: false,
        prerelease: false,
        assets: vec![ForgejoAsset {
            name: "tool-linux-amd64.tar.gz".to_string(),
            browser_download_url: "https://dl.example/t.tar.gz".to_string(),
            url: Some("https://api.example/assets/5".to_string()),
        }],
    };
    let tv = ToolVersion::new(
        "1".to_string(),
        ToolVersionOptions::default(),
        "/opt/t/1".to_string(),
        "/tmp/d".to_string(),
    );
    let asset = backend
        .select_asset_in_release(&release, &tv, "linux", "amd64")
        .unwrap();
    assert_eq!(asset.url_api, "https://api.example/assets/5");
}
