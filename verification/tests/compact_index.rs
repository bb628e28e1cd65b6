use rv::compact_index::DependencyWalk;
use rv::compact_index::{index_fetch, is_empty_response, IndexFetch};
use rv::storage::{Blob, StorageError};
use rv::compact_index::{
    info_key, parse_release_from_body, transitive_dependency_names, GemRelease, GemReleaseParse,
    ProjectDependencyError, RequestLog,
};
use rv::gem_types::{Platform, Version};
use rv::GemNameError;

#[test]
fn test_parser() {
    for (expected_version, input) in [
        (
            Version::from_text("0").unwrap(),
            "0 activemodel-globalid:>= 0,activesupport:>= 4.1.0|checksum:76c450d211f74a575fd4d32d08e5578d829a419058126fbb3b89ad5bf3621c94,ruby:>= 1.9.3",
        ),
        (
            Version::from_text("0.0.0").unwrap(),
            "0.0.0 |checksum:505c6770a5ec896244d31d7eac08663696d22140493ddb820f66d12670b669d2",
        ),
        (
            Version::from_text("8.1.2").unwrap(),
            "8.1.2 activesupport:= 8.1.2,globalid:>= 0.3.6|checksum:908dab3713b101859536375819f4156b07bdf4c232cc645e7538adb9e302f825,ruby:>= 3.2.0",
        ),
        (
            Version::from_text("0.5.1").unwrap(),
            "0.5.1 |checksum:f8eb8f78342e3366509d2acb6ee87afec77e49c1545c7e7a76bdaab0f820db46,ruby:>= 1.8.1,rubygems:",
        ),
    ] {
        let actual = GemRelease::parse(input).unwrap();
        assert_eq!(&expected_version, actual.version());
    }
}

#[test]
fn test_body_parser() {
    let resp = "---
2.2.2 actionmailer:= 2.2.2,actionpack:= 2.2.2,activerecord:= 2.2.2,activeresource:= 2.2.2,activesupport:= 2.2.2,rake:>= 0.8.3|checksum:84fd0ee92f92088cff81d1a4bcb61306bd4b7440b8634d7ac3d1396571a2133f
2.3.2 actionmailer:= 2.3.2,actionpack:= 2.3.2,activerecord:= 2.3.2,activeresource:= 2.3.2,activesupport:= 2.3.2,rake:>= 0.8.3|checksum:ac61e0356987df34dbbafb803b98f153a663d3878a31f1db7333b7cd987fd044";
    let actual_parsed_response = parse_release_from_body(resp, &[]).unwrap();
    assert_eq!(actual_parsed_response.len(), 2);
    assert_eq!(actual_parsed_response[0].full_name(), "2.2.2");
    assert_eq!(actual_parsed_response[0].deps.len(), 6);
    assert_eq!(actual_parsed_response[0].deps[5].name, "rake");
    assert_eq!(actual_parsed_response[1].full_name(), "2.3.2");
    assert_eq!(actual_parsed_response[1].metadata.checksum.len(), 32);
    assert_eq!(actual_parsed_response[1].metadata.checksum[0], 0xac);
}

const NOKOGIRI_BODY: &str = "---
1.19.0-aarch64-linux-gnu racc:~> 1.4|checksum:11a97ecc3c0e7e5edcf395720b10860ef493b768f6aa80c539573530bc933767,ruby:< 4.1.dev&>= 3.2,rubygems:>= 3.3.22
1.19.0-aarch64-linux-musl racc:~> 1.4|checksum:eb70507f5e01bc23dad9b8dbec2b36ad0e61d227b42d292835020ff754fb7ba9,ruby:< 4.1.dev&>= 3.2,rubygems:>= 3.3.22
1.19.0-arm-linux-gnu racc:~> 1.4|checksum:572a259026b2c8b7c161fdb6469fa2d0edd2b61cd599db4bbda93289abefbfe5,ruby:< 4.1.dev&>= 3.2,rubygems:>= 3.3.22
1.19.0-arm-linux-musl racc:~> 1.4|checksum:23ed90922f1a38aed555d3de4d058e90850c731c5b756d191b3dc8055948e73c,ruby:< 4.1.dev&>= 3.2,rubygems:>= 3.3.22
1.19.0-arm64-darwin racc:~> 1.4|checksum:0811dfd936d5f6dd3f6d32ef790568bf29b2b7bead9ba68866847b33c9cf5810,ruby:< 4.1.dev&>= 3.2
1.19.0-java racc:~> 1.4|checksum:5f3a70e252be641d8a4099f7fb4cc25c81c632cb594eec9b4b8f2ca8be4374f3,ruby:>= 3.2
1.19.0-aarch64-mingw-ucrt racc:~> 1.4|checksum:aaaaaaaaaaaaaaaaaaaaaaaaaaaaaaaaaaaaaaaaaaaaaaaaaaaaaaaaaaaaaaaa,ruby:< 4.1.dev&>= 3.2
1.19.0-x64-mingw-ucrt racc:~> 1.4|checksum:05d7ed2d95731edc9bef2811522dc396df3e476ef0d9c76793a9fca81cab056b,ruby:< 4.1.dev&>= 3.2
1.19.0-x86_64-darwin racc:~> 1.4|checksum:1dad56220b603a8edb9750cd95798bffa2b8dd9dd9aa47f664009ee5b43e3067,ruby:< 4.1.dev&>= 3.2
1.19.0-x86_64-linux-gnu racc:~> 1.4|checksum:f482b95c713d60031d48c44ce14562f8d2ce31e3a9e8dd0ccb131e9e5a68b58c,ruby:< 4.1.dev&>= 3.2,rubygems:>= 3.3.22
1.19.0-x86_64-linux-musl racc:~> 1.4|checksum:1c4ca6b381622420073ce6043443af1d321e8ed93cc18b08e2666e5bd02ffae4,ruby:< 4.1.dev&>= 3.2,rubygems:>= 3.3.22
1.19.0 mini_portile2:~> 2.8.2,racc:~> 1.4|checksum:e304d21865f62518e04f2bf59f93bd3a97ca7b07e7f03952946d8e1c05f45695,ruby:>= 3.2";

#[test]
fn test_sort_version_available() {
    // The platform of 64-bit x86 Linux with glibc: releases for other
    // platforms are left out.
    let local = [Platform::from_parts("x86_64", Some("linux-gnu"))];
    let actual_parsed_response = parse_release_from_body(NOKOGIRI_BODY, &local).unwrap();
    assert_eq!(actual_parsed_response.len(), 2);
    let expected_release = "1.19.0-x86_64-linux-gnu";
    let names: Vec<String> = actual_parsed_response.iter().map(|r| r.full_name()).collect();
    assert!(names.contains(&expected_release.to_string()));
    assert!(names.contains(&"1.19.0".to_string()));
}

#[test]
fn only_pure_ruby_releases_without_local_platforms() {
    let releases = parse_release_from_body(NOKOGIRI_BODY, &[]).unwrap();
    assert_eq!(releases.len(), 1);
    assert!(releases[0].platform().is_ruby());
    assert_eq!(releases[0].deps.len(), 2);
}

#[test]
fn test_unknown_and_created_at_metadata() {
    let input = "1.0.0 |checksum:505c6770a5ec896244d31d7eac08663696d22140493ddb820f66d12670b669d2,created_at:2011-08-15T18:41:56Z,unknown_key_to_ignore:foo";
    let actual = GemRelease::parse(input).unwrap();
    assert_eq!(
        actual.metadata.created_at,
        Some("2011-08-15T18:41:56Z".to_string())
    );
}

#[test]
fn test_parser_rejects_path_like_dependency_names() {
    let result = GemRelease::parse("1.0.0 ../../owned:>= 0|");
    assert!(matches!(
        result.unwrap_err(),
        GemReleaseParse::InvalidDependency(_)
    ));
}

#[test]
fn release_line_errors() {
    assert_eq!(GemRelease::parse("1.0.0").unwrap_err(), GemReleaseParse::MissingSpace);
    assert_eq!(GemRelease::parse("1.0.0 rack:>= 1").unwrap_err(), GemReleaseParse::MissingPipe);
    assert_eq!(GemRelease::parse("1.0.0 rack|").unwrap_err(), GemReleaseParse::MissingColon);
    assert_eq!(
        GemRelease::parse("1.0.0 rack:>=1|").unwrap_err(),
        GemReleaseParse::MissingSpace
    );
    assert_eq!(
        GemRelease::parse("1.0.0 rack:>> 1|").unwrap_err(),
        GemReleaseParse::UnknownSemverType(">>".to_string())
    );
    assert!(matches!(
        GemRelease::parse("1.0.0 rack:>= x|").unwrap_err(),
        GemReleaseParse::InvalidVersion(e) if e.version == "x"
    ));
    assert_eq!(
        GemRelease::parse("1.0.0 |created_at").unwrap_err(),
        GemReleaseParse::MissingMetadataColon("created_at".to_string())
    );
    assert_eq!(
        GemRelease::parse("?? |").unwrap_err(),
        GemReleaseParse::InvalidRelease("??".to_string())
    );
    assert!(matches!(
        GemRelease::parse("1.0.0 |checksum:abc").unwrap_err(),
        GemReleaseParse::InvalidChecksum { metadata, .. } if metadata == "checksum:abc"
    ));
    assert!(matches!(
        GemRelease::parse("1.0.0 |ruby:~ 1").unwrap_err(),
        GemReleaseParse::MetadataConstraintParse { metadata, .. } if metadata == "ruby:~ 1"
    ));
    assert_eq!(
        GemRelease::parse("1.0.0 ..:>= 0|").unwrap_err(),
        GemReleaseParse::InvalidDependency(ProjectDependencyError::InvalidName {
            name: "..".to_string(),
            error: GemNameError::InvalidPathComponent,
        })
    );
}

#[test]
fn dependency_requirements_and_metadata_are_read() {
    let release = GemRelease::parse(
        "1.2.3-x86_64-linux rack:>= 2.0&< 4,rake:|ruby:>= 3.0,rubygems:>= 3.3.22,checksum:00ff",
    )
    .unwrap();
    assert_eq!(release.full_name(), "1.2.3-x86_64-linux");
    assert_eq!(release.deps.len(), 2);
    assert_eq!(release.deps[0].requirement.constraints.len(), 2);
    assert_eq!(release.deps[1].requirement.constraints.len(), 1);
    assert_eq!(release.deps[1].requirement.constraints[0].version.version, "0");
    assert_eq!(release.metadata.ruby.constraints.len(), 1);
    assert_eq!(release.metadata.rubygems.constraints[0].version.version, "3.3.22");
    assert_eq!(release.metadata.checksum, vec![0x00, 0xff]);
    assert_eq!(release.platform().cpu, "x86_64");
}

#[test]
fn info_keys_need_valid_gem_names() {
    assert_eq!(info_key("rack").unwrap(), "info/rack");
    assert_eq!(info_key("..").unwrap_err(), GemNameError::InvalidPathComponent);
    assert_eq!(info_key("").unwrap_err(), GemNameError::Empty);
}

#[test]
fn each_gem_is_requested_once() {
    let mut log = RequestLog::new();
    let first = log.queue_new(vec!["rack".to_string(), "rake".to_string(), "rack".to_string()]);
    assert_eq!(first, vec!["rack".to_string(), "rake".to_string()]);
    let second = log.queue_new(vec!["rake".to_string(), "thor".to_string()]);
    assert_eq!(second, vec!["thor".to_string()]);
    assert!(log.contains("rack") && log.contains("thor"));
    assert!(!log.contains("json"));
}

#[test]
fn transitive_names_come_release_by_release() {
    let releases = parse_release_from_body(
        "1.0 a:>= 0,b:>= 0|\n2.0 b:>= 1,c:|\n",
        &[],
    )
    .unwrap();
    let names = transitive_dependency_names(&releases);
    assert_eq!(names, vec!["a", "b", "b", "c"]);
}

#[test]
fn the_walk_asks_for_each_found_gem_once() {
    // root -> a, b; a -> b, c; b -> a; c -> (none)
    let deps = |n: &str| -> Vec<String> {
        match n {
            "a" => vec!["b".to_string(), "c".to_string()],
            "b" => vec!["a".to_string()],
            _ => vec![],
        }
    };
    let mut walk = DependencyWalk::new(vec!["a".to_string(), "b".to_string()]);
    let mut fetched = Vec::new();
    while let Some(name) = walk.next_request() {
        walk.record(deps(&name));
        fetched.push(name);
    }
    // The root's own dependencies come first; `a` and `b` are found again
    // among dependencies and asked for once more; `c` once.
    assert_eq!(fetched, vec!["a", "b", "b", "c", "a"]);
    assert!(walk.next_request().is_none());
}

#[test]
fn index_files_are_updated_when_stored() {
    assert!(matches!(index_fetch(Ok(Blob::new(vec![1]))), IndexFetch::Update(b) if b.content == vec![1]));
    assert!(matches!(index_fetch(Err(StorageError::InvalidKey)), IndexFetch::Fetch));
    assert!(is_empty_response(&StorageError::EmptyContent));
    assert!(!is_empty_response(&StorageError::InvalidKey));
}
