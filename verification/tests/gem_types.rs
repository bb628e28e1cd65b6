use rv::compact_index::Metadata;
use rv::gem_types::{ComparisonOperator, Platform, Version, VersionPlatform};

#[test]
fn version_platforms_are_written_back_as_read() {
    for text in ["1.19.0-x86_64-linux-gnu", "1.19.0", "2.3a.4B-java", "0.5.11725-universal-darwin"] {
        let vp = VersionPlatform::from_text(text).unwrap();
        assert_eq!(vp.to_text(), text);
    }
    let vp = VersionPlatform::from_text("1.0-ruby").unwrap();
    assert!(vp.platform.is_ruby());
    assert_eq!(vp.to_text(), "1.0");
}

#[test]
fn version_platform_parts() {
    let vp = VersionPlatform::from_text("1.19.0-x86_64-linux-gnu").unwrap();
    assert_eq!(vp.version.version, "1.19.0");
    assert_eq!(vp.version.segments.len(), 3);
    assert!(vp.platform.same_as(&Platform::from_parts("x86_64", Some("linux-gnu"))));
    assert_eq!(vp.platform.to_text(), "x86_64-linux-gnu");
    assert!(VersionPlatform::from_text("1.0-").is_none());
    assert!(VersionPlatform::from_text("-java").is_none());
}

#[test]
fn versions_must_be_whole() {
    assert!(Version::from_text("1.2.3").is_ok());
    assert_eq!(Version::from_text("1.2 ").unwrap_err().version, "1.2 ");
    assert!(Version::from_text("").is_err());
}

#[test]
fn operators_by_name() {
    assert_eq!(ComparisonOperator::from_text("~>"), Some(ComparisonOperator::Pessimistic));
    assert_eq!(ComparisonOperator::from_text(">="), Some(ComparisonOperator::GreaterThanOrEqual));
    assert_eq!(ComparisonOperator::from_text("=>"), None);
}

#[test]
fn default_metadata_is_empty() {
    let m = Metadata::default();
    assert!(m.checksum.is_empty());
    assert!(m.ruby.constraints.is_empty());
    assert!(m.rubygems.constraints.is_empty());
    assert_eq!(m.created_at, None);
}
