use rv::{validate_gem_name, GemNameError};

#[test]
fn accepts_normal_gem_names() {
    for name in ["rack", "foo.bar_baz-1", "JSON"] {
        assert!(validate_gem_name(name).is_ok(), "{name} should be valid");
    }
}

#[test]
fn rejects_path_like_gem_names() {
    for name in [
        "",
        ".",
        "..",
        "../../owned",
        r"..\..\owned",
        "/owned",
        r"C:\owned",
    ] {
        assert!(
            validate_gem_name(name).is_err(),
            "{name} should be rejected"
        );
    }
}

#[test]
fn gem_name_errors_follow_the_order_of_checks() {
    assert_eq!(validate_gem_name(""), Err(GemNameError::Empty));
    assert_eq!(validate_gem_name("."), Err(GemNameError::InvalidPathComponent));
    assert_eq!(validate_gem_name(".."), Err(GemNameError::InvalidPathComponent));
    assert_eq!(validate_gem_name("..."), Ok(()));
    assert_eq!(validate_gem_name("a/b"), Err(GemNameError::InvalidCharacters));
    assert_eq!(validate_gem_name("caf\u{e9}"), Err(GemNameError::InvalidCharacters));
    assert_eq!(validate_gem_name("rack "), Err(GemNameError::InvalidCharacters));
}

#[test]
fn gem_name_error_messages() {
    assert_eq!(GemNameError::Empty.message(), "Gem name cannot be empty");
    assert_eq!(
        GemNameError::InvalidCharacters.message(),
        "Gem name contains invalid characters"
    );
    assert_eq!(
        GemNameError::InvalidPathComponent.message(),
        "Gem name cannot be `.` or `..`"
    );
}
