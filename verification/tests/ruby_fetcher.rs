use rv::ruby_fetcher::{archive_from_captures, max_age_from_captures, version_and_arch_from_captures};
use rv::ruby_fetcher::{
    asset_version_and_arch, cache_ttl, combine_rubyinstaller2_releases, empty_release,
    expiry_after, fresh_entry, parse_max_age, plan_fetch, response_step, revalidated_entry,
    stale_cache_fallback, Asset, CachedRelease, FetchPlan, Release, ResponseStep, Timestamp,
};

fn make_asset(name: &str) -> Asset {
    Asset {
        name: name.to_string(),
        browser_download_url: format!("https://github.com/download/{name}"),
    }
}

fn make_release(name: &str, asset_names: &[&str]) -> Release {
    Release {
        name: name.to_string(),
        assets: asset_names.iter().map(|n| make_asset(n)).collect(),
    }
}

#[test]
fn test_parse_cache_header() {
    let input_header = "Cache-Control: max-age=3600, must-revalidate";
    let actual = parse_max_age(input_header).unwrap();
    let expected = std::time::Duration::from_secs(3600);
    assert_eq!(std::time::Duration::from_secs(actual), expected);
}

#[test]
fn max_age_edge_cases() {
    assert_eq!(parse_max_age("max-age=0"), Some(0));
    assert_eq!(parse_max_age("no-cache"), None);
    assert_eq!(parse_max_age("max-age=99999999999999999999999"), None);
    assert_eq!(parse_max_age("max-age=10, max-age=20"), Some(10));
}

#[test]
fn test_combine_rubyinstaller2_releases_basic() {
    let releases = vec![make_release(
        "RubyInstaller-3.4.4-1",
        &[
            "rubyinstaller-3.4.4-1-x64.7z",
            "rubyinstaller-3.4.4-1-arm.7z",
            "rubyinstaller-3.4.4-1-x64.exe",
            "rubyinstaller-3.4.4-1-x64.7z.asc",
            "rubyinstaller-3.4.4-1-x86.7z",
            "rubyinstaller-devkit-3.4.4-1-x64.exe",
        ],
    )];

    let result = combine_rubyinstaller2_releases(releases);
    assert_eq!(result.assets.len(), 2);
    let names: Vec<&str> = result.assets.iter().map(|a| a.name.as_str()).collect();
    assert!(names.contains(&"ruby-3.4.4.x64.7z"));
    assert!(names.contains(&"ruby-3.4.4.arm.7z"));
}

#[test]
fn test_combine_rubyinstaller2_releases_dedup_highest_revision() {
    let releases = vec![
        make_release("RubyInstaller-3.3.0-2", &["rubyinstaller-3.3.0-2-x64.7z"]),
        make_release("RubyInstaller-3.3.0-1", &["rubyinstaller-3.3.0-1-x64.7z"]),
    ];

    let result = combine_rubyinstaller2_releases(releases);
    assert_eq!(result.assets.len(), 1);
    assert!(
        result.assets[0]
            .browser_download_url
            .contains("rubyinstaller-3.3.0-2-x64.7z")
    );
}

#[test]
fn a_later_higher_revision_replaces_an_earlier_one() {
    let releases = vec![
        make_release("RubyInstaller-3.3.0-1", &["rubyinstaller-3.3.0-1-x64.7z"]),
        make_release("RubyInstaller-3.3.0-10", &["rubyinstaller-3.3.0-10-x64.7z"]),
        make_release("RubyInstaller-3.3.0-2", &["rubyinstaller-3.3.0-2-x64.7z"]),
    ];
    let result = combine_rubyinstaller2_releases(releases);
    assert_eq!(result.assets.len(), 1);
    assert_eq!(result.assets[0].name, "ruby-3.3.0.x64.7z");
    assert!(result.assets[0].browser_download_url.ends_with("rubyinstaller-3.3.0-10-x64.7z"));
}

#[test]
fn test_combine_rubyinstaller2_releases_multiple_versions() {
    let releases = vec![
        make_release(
            "RubyInstaller-3.4.4-1",
            &[
                "rubyinstaller-3.4.4-1-x64.7z",
                "rubyinstaller-3.4.4-1-arm.7z",
            ],
        ),
        make_release("RubyInstaller-3.3.7-1", &["rubyinstaller-3.3.7-1-x64.7z"]),
        make_release("RubyInstaller-3.2.8-1", &["rubyinstaller-3.2.8-1-x64.7z"]),
    ];

    let result = combine_rubyinstaller2_releases(releases);
    assert_eq!(result.assets.len(), 4);
    let names: Vec<&str> = result.assets.iter().map(|a| a.name.as_str()).collect();
    assert_eq!(
        names,
        [
            "ruby-3.2.8.x64.7z",
            "ruby-3.3.7.x64.7z",
            "ruby-3.4.4.arm.7z",
            "ruby-3.4.4.x64.7z",
        ]
    );
}

#[test]
fn test_combine_rubyinstaller2_releases_skips_devkit() {
    let releases = vec![make_release(
        "RubyInstaller-3.4.4-1",
        &[
            "rubyinstaller-devkit-3.4.4-1-x64.7z",
            "rubyinstaller-3.4.4-1-x64.7z",
        ],
    )];

    let result = combine_rubyinstaller2_releases(releases);
    assert_eq!(result.assets.len(), 1);
    assert_eq!(result.assets[0].name, "ruby-3.4.4.x64.7z");
}

#[test]
fn normalized_rubyinstaller_assets_split_into_version_and_arch() {
    let releases = vec![make_release(
        "RubyInstaller-3.4.8-1",
        &[
            "rubyinstaller-3.4.8-1-x64.7z",
            "rubyinstaller-3.4.8-1-arm.7z",
        ],
    )];
    let combined = combine_rubyinstaller2_releases(releases);
    assert_eq!(combined.assets.len(), 2);
    let x64 = combined.assets.iter().find(|a| a.name == "ruby-3.4.8.x64.7z").unwrap();
    assert_eq!(
        asset_version_and_arch(&x64.name),
        ("ruby-3.4.8".to_string(), "x64".to_string())
    );
    let arm = combined.assets.iter().find(|a| a.name == "ruby-3.4.8.arm.7z").unwrap();
    assert_eq!(
        asset_version_and_arch(&arm.name),
        ("ruby-3.4.8".to_string(), "arm".to_string())
    );
}

#[test]
fn test_combine_rubyinstaller2_releases_empty() {
    let result = combine_rubyinstaller2_releases(vec![]);
    assert_eq!(result.assets.len(), 0);
    assert_eq!(result.name, "rubyinstaller2-combined");
}

#[test]
fn asset_names_split_into_version_and_arch() {
    for (name, version, arch) in [
        ("ruby-3.3.0.arm64_sonoma.tar.gz", "ruby-3.3.0", "arm64_sonoma"),
        ("ruby-3.3.0.ventura.tar.gz", "ruby-3.3.0", "ventura"),
        ("ruby-3.3.0.x86_64_linux.tar.gz", "ruby-3.3.0", "x86_64_linux"),
        ("ruby-3.3.0.sparc_solaris.tar.gz", "ruby-3.3.0", "sparc_solaris"),
        ("ruby-3.4.8.arm.7z", "ruby-3.4.8", "arm"),
        ("something-else.zip", "something-else.zip", "unknown"),
    ] {
        assert_eq!(
            asset_version_and_arch(name),
            (version.to_string(), arch.to_string()),
            "{name}"
        );
    }
}

#[test]
fn test_ruby_list_without_updating_versions() {
    // With the list URL set to `-`, no request is made and the release is empty.
    let plan = plan_fetch("-", &None, Timestamp { secs: 0, nanos: 0 });
    assert_eq!(plan, FetchPlan::EmptyRelease);
    let release = empty_release();
    assert!(release.assets.is_empty());
    assert_eq!(release.name, "Empty release");
}

fn cached(expires_at: Timestamp, etag: Option<&str>) -> CachedRelease {
    CachedRelease {
        expires_at,
        etag: etag.map(|e| e.to_string()),
        release: make_release("latest", &["ruby-3.4.1.x86_64_linux.tar.gz"]),
    }
}

#[test]
fn fresh_caches_are_used_and_stale_ones_revalidated() {
    let now = Timestamp { secs: 1_000, nanos: 5 };
    let url = "https://api.github.com/repos/spinel-coop/rv-ruby/releases/latest";
    let fresh = Some(cached(Timestamp { secs: 1_000, nanos: 6 }, Some("\"abc\"")));
    assert_eq!(plan_fetch(url, &fresh, now), FetchPlan::UseCached);
    let stale = Some(cached(Timestamp { secs: 1_000, nanos: 5 }, Some("\"abc\"")));
    assert_eq!(
        plan_fetch(url, &stale, now),
        FetchPlan::Request { if_none_match: Some("\"abc\"".to_string()) }
    );
    let stale_without_etag = Some(cached(Timestamp { secs: 10, nanos: 0 }, None));
    assert_eq!(
        plan_fetch(url, &stale_without_etag, now),
        FetchPlan::Request { if_none_match: None }
    );
    assert_eq!(plan_fetch(url, &None, now), FetchPlan::Request { if_none_match: None });
}

#[test]
fn responses_lead_to_their_steps() {
    assert_eq!(response_step(304, true), ResponseStep::Revalidated);
    assert_eq!(response_step(304, false), ResponseStep::MissingCache);
    assert_eq!(response_step(200, false), ResponseStep::Fresh);
    assert_eq!(response_step(500, true), ResponseStep::Failed);
    assert_eq!(response_step(404, false), ResponseStep::Failed);
}

#[test]
fn cache_lifetimes_are_at_least_a_minute() {
    assert_eq!(cache_ttl(Some("max-age=3600")), 3600);
    assert_eq!(cache_ttl(Some("max-age=5")), 60);
    assert_eq!(cache_ttl(Some("private")), 60);
    assert_eq!(cache_ttl(None), 60);
    assert_eq!(
        expiry_after(Timestamp { secs: 100, nanos: 7 }, 60),
        Timestamp { secs: 160, nanos: 7 }
    );
}

#[test]
fn cache_entries_keep_or_replace_their_release() {
    let now = Timestamp { secs: 2_000, nanos: 0 };
    let old = cached(Timestamp { secs: 10, nanos: 0 }, Some("\"e1\""));
    let renewed = revalidated_entry(old.clone(), 600, now);
    assert_eq!(renewed.release, old.release);
    assert_eq!(renewed.etag, old.etag);
    assert_eq!(renewed.expires_at, Timestamp { secs: 2_600, nanos: 0 });

    let release = make_release("latest", &[]);
    let entry = fresh_entry(release.clone(), Some("\"e2\"".to_string()), 60, now);
    assert_eq!(entry.release, release);
    assert_eq!(entry.etag.as_deref(), Some("\"e2\""));
    assert_eq!(entry.expires_at.secs, 2_060);
}

#[test]
fn failed_fetches_fall_back_to_the_stale_cache() {
    let old = cached(Timestamp { secs: 10, nanos: 0 }, None);
    assert_eq!(stale_cache_fallback(Some(old.clone())), old.release);
    let empty = stale_cache_fallback(None);
    assert_eq!(empty.name, "Empty");
    assert!(empty.assets.is_empty());
}

#[test]
fn release_sources_by_host() {
    let windows = rv::ruby_fetcher::release_source(true);
    assert_eq!(windows.cache_file, "rubyinstaller2.json");
    assert_eq!(windows.env_var, "RV_WINDOWS_LIST_URL");
    assert!(windows.default_url.contains("oneclick/rubyinstaller2"));
    let other = rv::ruby_fetcher::release_source(false);
    assert_eq!(other.cache_file, "available_rubies.json");
    assert_eq!(other.env_var, "RV_LIST_URL");
    assert!(other.default_url.ends_with("spinel-coop/rv-ruby/releases/latest"));
}

fn captures(groups: &[Option<(&str, &str)>]) -> Option<Vec<Option<(String, String)>>> {
    Some(
        groups
            .iter()
            .map(|g| g.map(|(b, t)| (b.to_string(), t.to_string())))
            .collect(),
    )
}

#[test]
fn capture_groups_are_read_after_the_match() {
    let g = captures(&[Some(("", "max-age=120")), Some(("max-age=", "120"))]);
    assert_eq!(max_age_from_captures(&g), Some(120));
    assert_eq!(max_age_from_captures(&None), None);
    let g = captures(&[Some(("", "max-age=1")), None]);
    assert_eq!(max_age_from_captures(&g), None);

    let g = captures(&[Some(("", "ruby-3.3.0.x64.7z")), Some(("ruby-3.3.0.", "x64"))]);
    assert_eq!(
        version_and_arch_from_captures("ruby-3.3.0.x64.7z", &g),
        ("ruby-3.3.0".to_string(), "x64".to_string())
    );
    assert_eq!(
        version_and_arch_from_captures("other", &None),
        ("other".to_string(), "unknown".to_string())
    );

    let asset = make_asset("rubyinstaller-3.4.8-2-arm.7z");
    let g = captures(&[
        Some(("", "rubyinstaller-3.4.8-2-arm.7z")),
        Some(("rubyinstaller-", "3.4.8")),
        Some(("rubyinstaller-3.4.8-", "2")),
        Some(("rubyinstaller-3.4.8-2-", "arm")),
    ]);
    let archive = archive_from_captures(&asset, &g).unwrap();
    assert_eq!(archive.revision, 2);
    assert_eq!(archive.asset.name, "ruby-3.4.8.arm.7z");
    let g = captures(&[
        Some(("", "x")),
        Some(("", "3.4.8")),
        Some(("", "2")),
        Some(("", "x86")),
    ]);
    assert!(archive_from_captures(&asset, &g).is_none());
    assert!(archive_from_captures(&asset, &None).is_none());
}
