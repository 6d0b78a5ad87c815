use forgejo_backend::backend::{BackendArg, BackendType, ForgeError, ForgejoBackend};
use forgejo_backend::options::ToolVersionOptions;
use forgejo_backend::release::{ForgejoAsset, ForgejoRelease, PlatformInfo};
use forgejo_backend::resolve::{Resolution, ToolVersion};

fn create_test_backend() -> ForgejoBackend {
    ForgejoBackend::from_arg(BackendArg::new(
        "forgejo".to_string(),
        Some("forgejo:codeberg.org/mergiraf/mergiraf".to_string()),
    ))
}

fn make_release(tag: &str, assets: Vec<ForgejoAsset>) -> ForgejoRelease {
    ForgejoRelease {
        tag_name: tag.to_string(),
        draft: false,
        prerelease: false,
        assets,
    }
}

fn make_asset(name: &str, url: &str) -> ForgejoAsset {
    ForgejoAsset {
        name: name.to_string(),
        browser_download_url: url.to_string(),
        url: None,
    }
}

#[test]
fn test_pattern_matching() {
    let backend = create_test_backend();
    assert!(backend.matches_pattern("test-v1.0.0.zip", "test-*"));
    assert!(!backend.matches_pattern("other-v1.0.0.zip", "test-*"));
}

#[test]
fn test_version_prefix_functionality() {
    let mut backend = create_test_backend();

    assert_eq!(backend.strip_version_prefix("v1.0.0"), "1.0.0");
    assert_eq!(backend.strip_version_prefix("1.0.0"), "1.0.0");

    let mut opts = ToolVersionOptions::default();
    opts.opts
        .insert("version_prefix".to_string(), "release-".to_string());
    backend.ba = BackendArg::new_raw(
        "test".to_string(),
        Some("forgejo:codeberg.org/mergiraf/mergiraf".to_string()),
        "test".to_string(),
        Some(opts),
    );

    assert_eq!(backend.strip_version_prefix("release-1.0.0"), "1.0.0");
    assert_eq!(backend.strip_version_prefix("1.0.0"), "1.0.0");
}

#[test]
fn test_find_asset_case_insensitive() {
    let backend = create_test_backend();

    let assets = vec![
        "tool-1.0.0-linux-x86_64.tar.gz".to_string(),
        "tool-1.0.0-Darwin-x86_64.tar.gz".to_string(),
        "tool-1.0.0-Windows-x86_64.zip".to_string(),
    ];

    let result = backend.find_asset_case_insensitive(&assets, "tool-1.0.0-linux-x86_64.tar.gz");
    assert!(result.is_some());
    assert_eq!(assets[result.unwrap()], "tool-1.0.0-linux-x86_64.tar.gz");

    let result = backend.find_asset_case_insensitive(
        &assets,
        "tool-1.0.0-darwin-x86_64.tar.gz", // lowercase 'd'
    );
    assert!(result.is_some());
    assert_eq!(assets[result.unwrap()], "tool-1.0.0-Darwin-x86_64.tar.gz");

    let result = backend.find_asset_case_insensitive(
        &assets,
        "tool-1.0.0-windows-x86_64.zip", // lowercase 'w'
    );
    assert!(result.is_some());
    assert_eq!(assets[result.unwrap()], "tool-1.0.0-Windows-x86_64.zip");

    let result = backend.find_asset_case_insensitive(&assets, "nonexistent-asset.tar.gz");
    assert!(result.is_none());
}

#[test]
fn strip_then_reapply_reconstructs_tag() {
    let mut opts = ToolVersionOptions::default();
    opts.opts
        .insert("version_prefix".to_string(), "release-".to_string());
    let backend = ForgejoBackend::from_arg(BackendArg::new_raw(
        "test".to_string(),
        Some("forgejo:codeberg.org/mergiraf/mergiraf".to_string()),
        "test".to_string(),
        Some(opts),
    ));
    let stripped = backend.strip_version_prefix("release-1.2.3");
    assert_eq!(stripped, "1.2.3");
    let reapplied = format!("release-{}", stripped);
    assert_eq!(reapplied, "release-1.2.3");
}

#[test]
fn backend_identity() {
    let backend = create_test_backend();
    assert!(backend.get_type() == BackendType::Forgejo);
    assert_eq!(backend.ba().tool_name(), "codeberg.org/mergiraf/mergiraf");
    assert_eq!(backend.repo(), "mergiraf/mergiraf");
}

#[test]
fn api_url_from_host() {
    let backend = create_test_backend();
    let opts = ToolVersionOptions::default();
    let url = backend.get_api_url(&opts).unwrap();
    assert_eq!(url, "https://codeberg.org/api/v1");
}

#[test]
fn api_url_override_wins() {
    let backend = create_test_backend();
    let mut opts = ToolVersionOptions::default();
    opts.opts
        .insert("api_url".to_string(), "https://example.test/api/v1".to_string());
    let url = backend.get_api_url(&opts).unwrap();
    assert_eq!(url, "https://example.test/api/v1");
}

#[test]
fn api_url_invalid_host() {
    let backend = ForgejoBackend::from_arg(BackendArg::new(
        "forgejo".to_string(),
        Some("forgejo:bad host/owner/repo".to_string()),
    ));
    let opts = ToolVersionOptions::default();
    match backend.get_api_url(&opts) {
        Err(ForgeError::InvalidApiHost { host }) => assert_eq!(host, "bad host"),
        _ => panic!("expected an invalid-host error"),
    }
}

#[test]
fn listing_is_oldest_first() {
    let backend = create_test_backend();
    let releases = vec![
        make_release("v3", vec![]),
        make_release("v2", vec![]),
        make_release("v1", vec![]),
    ];
    let versions = backend.list_remote_versions(&releases);
    assert_eq!(
        versions,
        vec!["1".to_string(), "2".to_string(), "3".to_string()]
    );
}

#[test]
fn listing_filters_by_prefix() {
    let mut opts = ToolVersionOptions::default();
    opts.opts
        .insert("version_prefix".to_string(), "release-".to_string());
    let backend = ForgejoBackend::from_arg(BackendArg::new_raw(
        "test".to_string(),
        Some("forgejo:codeberg.org/mergiraf/mergiraf".to_string()),
        "test".to_string(),
        Some(opts),
    ));
    let releases = vec![
        make_release("release-2.0", vec![]),
        make_release("unrelated-9", vec![]),
        make_release("release-1.0", vec![]),
    ];
    let versions = backend.list_remote_versions(&releases);
    assert_eq!(versions, vec!["1.0".to_string(), "2.0".to_string()]);
}

#[test]
fn lock_entry_short_circuits_resolution() {
    let backend = create_test_backend();
    let mut tv = ToolVersion::new(
        "1.0.0".to_string(),
        ToolVersionOptions::default(),
        "/opt/tool/1.0.0".to_string(),
        "/tmp/downloads".to_string(),
    );
    tv.lock_platforms.insert(
        "linux-x64".to_string(),
        PlatformInfo {
            name: Some("tool.tar.gz".to_string()),
            url: Some("https://dl.example/tool.tar.gz".to_string()),
            url_api: Some("https://api.example/assets/7".to_string()),
        },
    );
    for _ in 0..2 {
        match backend.resolve_precheck(&tv, "linux-x64") {
            Resolution::UseLocked(a) => {
                assert_eq!(a.name, "tool.tar.gz");
                assert_eq!(a.url, "https://dl.example/tool.tar.gz");
                assert_eq!(a.url_api, "https://api.example/assets/7");
            }
            _ => panic!("expected the locked artifact"),
        }
    }
}

#[test]
fn lock_entry_name_falls_back_to_url_segment() {
    let backend = create_test_backend();
    let mut tv = ToolVersion::new(
        "1.0.0".to_string(),
        ToolVersionOptions::default(),
        "/opt/tool/1.0.0".to_string(),
        "/tmp/downloads".to_string(),
    );
    tv.lock_platforms.insert(
        "linux-x64".to_string(),
        PlatformInfo {
            name: None,
            url: Some("https://dl.example/path/to/artifact.zip".to_string()),
            url_api: None,
        },
    );
    match backend.resolve_precheck(&tv, "linux-x64") {
        Resolution::UseLocked(a) => {
            assert_eq!(a.name, "artifact.zip");
            assert_eq!(a.url, "https://dl.example/path/to/artifact.zip");
            assert_eq!(a.url_api, "");
        }
        _ => panic!("expected the locked artifact"),
    }
}

#[test]
fn url_option_skips_resolution() {
    let backend = create_test_backend();
    let mut opts = ToolVersionOptions::default();
    opts.opts.insert(
        "url".to_string(),
        "https://dl.example/fixed/tool-9.zip".to_string(),
    );
    let tv = ToolVersion::new(
        "9".to_string(),
        opts,
        "/opt/tool/9".to_string(),
        "/tmp/downloads".to_string(),
    );
    match backend.resolve_precheck(&tv, "linux-x64") {
        Resolution::UseDirect(a) => {
            assert_eq!(a.name, "tool-9.zip");
            assert_eq!(a.url, "https://dl.example/fixed/tool-9.zip");
            assert_eq!(a.url_api, "https://dl.example/fixed/tool-9.zip");
        }
        _ => panic!("expected the direct artifact"),
    }
}

#[test]
fn prefix_toggle_reaches_upstream_tag() {
    let backend = create_test_backend();
    let tv = ToolVersion::new(
        "2.0.0".to_string(),
        ToolVersionOptions::default(),
        "/opt/tool/2.0.0".to_string(),
        "/tmp/downloads".to_string(),
    );
    let upstream = vec![make_release(
        "v2.0.0",
        vec![make_asset(
            "tool-linux-amd64.tar.gz",
            "https://dl.example/v2.0.0/tool-linux-amd64.tar.gz",
        )],
    )];
    match backend.resolve_precheck(&tv, "linux-x64") {
        Resolution::TryCandidates(candidates) => {
            assert_eq!(
                candidates,
                vec!["2.0.0".to_string(), "v2.0.0".to_string()]
            );
            let mut found = None;
            for candidate in &candidates {
                if found.is_none() {
                    found = upstream.iter().find(|r| &r.tag_name == candidate);
                }
            }
            let release = found.expect("one candidate must match the upstream tag");
            assert_eq!(release.tag_name, "v2.0.0");
            let asset = backend
                .select_asset_in_release(release, &tv, "linux", "amd64")
                .unwrap();
            assert_eq!(asset.name, "tool-linux-amd64.tar.gz");
            assert_eq!(asset.url, "https://dl.example/v2.0.0/tool-linux-amd64.tar.gz");
            assert_eq!(asset.url_api, "");
        }
        _ => panic!("expected candidate tags"),
    }
}

#[test]
fn asset_pattern_selects_first_match() {
    let backend = create_test_backend();
    let mut opts = ToolVersionOptions::default();
    opts.opts.insert(
        "asset_pattern".to_string(),
        "tool-{version}-*.tar.gz".to_string(),
    );
    let tv = ToolVersion::new(
        "1.0.0".to_string(),
        opts,
        "/opt/tool/1.0.0".to_string(),
        "/tmp/downloads".to_string(),
    );
    let release = make_release(
        "v1.0.0",
        vec![
            make_asset("tool-1.0.0.sha256", "https://dl.example/s"),
            make_asset("tool-1.0.0-linux.tar.gz", "https://dl.example/l"),
            make_asset("tool-1.0.0-mac.tar.gz", "https://dl.example/m"),
        ],
    );
    let asset = backend
        .select_asset_in_release(&release, &tv, "linux", "amd64")
        .unwrap();
    assert_eq!(asset.name, "tool-1.0.0-linux.tar.gz");
    assert_eq!(asset.url, "https://dl.example/l");
}

#[test]
fn asset_pattern_reports_candidates_on_miss() {
    let backend = create_test_backend();
    let mut opts = ToolVersionOptions::default();
    opts.opts
        .insert("asset_pattern".to_string(), "nope-*".to_string());
    let tv = ToolVersion::new(
        "1.0.0".to_string(),
        opts,
        "/opt/tool/1.0.0".to_string(),
        "/tmp/downloads".to_string(),
    );
    let release = make_release(
        "v1.0.0",
        vec![
            make_asset("a.tar.gz", "https://dl.example/a"),
            make_asset("b.zip", "https://dl.example/b"),
        ],
    );
    match backend.select_asset_in_release(&release, &tv, "linux", "amd64") {
        Err(e) => {
            assert_eq!(
                e.message(),
                "No matching asset found for pattern: nope-*\nAvailable assets: a.tar.gz, b.zip"
            );
        }
        Ok(_) => panic!("expected no matching asset"),
    }
}

#[test]
fn picker_error_reports_platform() {
    let backend = create_test_backend();
    let assets = vec!["tool.txt".to_string(), "README.md".to_string()];
    match backend.auto_detect_asset("linux", "amd64", &assets) {
        Err(e) => {
            assert_eq!(
                e.message(),
                "No suitable asset found for current platform (linux-amd64)\nAvailable assets: tool.txt, README.md"
            );
        }
        Ok(_) => panic!("expected no suitable asset"),
    }
}

#[test]
fn format_asset_list_joins_names() {
    let names = vec!["a".to_string(), "b".to_string(), "c".to_string()];
    assert_eq!(ForgejoBackend::format_asset_list(&names), "a, b, c");
    let empty: Vec<String> = vec![];
    assert_eq!(ForgejoBackend::format_asset_list(&empty), "");
}
