use rv::lockfile::datatypes::{ChecksumAlgorithm, LockfileIndentation};
use rv::lockfile::parser::{
    parse, parse_gem, parse_git_section, parse_path, parse_ruby_version_inner,
    parse_section_header, parse_spec_dep, parse_version, spec_dep_semver,
};

#[test]
fn basic_gem() {
    let input = "\
GEM
  remote: https://rubygems.org/
  specs:
    erubi (1.13.1)
    netrc (0.11.0)
    parallel (1.26.3)
    prism (1.3.0)
    rbi (0.2.2)
      prism (~> 1.0)
      sorbet-runtime (>= 0.5.9204)
    sorbet (0.5.11725)
      sorbet-static (= 0.5.11725)
    sorbet-runtime (0.5.11725)
    sorbet-static (0.5.11725-aarch64-linux)
    sorbet-static (0.5.11725-universal-darwin)
    sorbet-static (0.5.11725-x86_64-linux)
    sorbet-static-and-runtime (0.5.11725)
      sorbet (= 0.5.11725)
      sorbet-runtime (= 0.5.11725)
    spoom (1.5.0)
      erubi (>= 1.10.0)
      prism (>= 0.28.0)
      sorbet-static-and-runtime (>= 0.5.10187)
      thor (>= 0.19.2)
    tapioca (0.16.6)
      bundler (>= 2.2.25)
      netrc (>= 0.11.0)
      parallel (>= 1.21.0)
      rbi (~> 0.2)
      sorbet-static-and-runtime (>= 0.5.11087)
      spoom (>= 1.2.0)
      thor (>= 1.2.0)
      yard-sorbet
    thor (1.4.0)
    yard (0.9.37)
    yard-sorbet (0.9.0)
      sorbet-runtime
      yard
";
    let (out, end) = parse_gem(input).unwrap();
    assert_eq!(out.specs.len(), 16);
    assert_eq!(out.specs[15].deps.len(), 2);
    assert_eq!(end, input.chars().count());
}

#[test]
fn basic_spec_dep() {
    for input in [
        "      prism (~> 1.0)\n",
        "      sorbet-runtime\n",
        "      sorbet-runtime (>= 0.5.9204)\n",
    ] {
        let original_input = input;
        let (out, _) = parse_spec_dep(input).unwrap();
        assert_eq!(original_input.trim(), out.to_gemfile_lock());
    }
}

#[test]
fn rejects_invalid_gem_names() {
    for input in ["      \n", "      ..\n"] {
        assert!(parse_spec_dep(input).is_err());
    }
}

#[test]
fn test_ranges() {
    let input = " (>= 1.15.7, != 1.16.7, != 1.16.6, != 1.16.5, != 1.16.4, != 1.16.3, != 1.16.2, != 1.16.1, != 1.16.0.rc1, != 1.16.0)";
    let (out, end) = spec_dep_semver(input).unwrap();
    assert_eq!(end, input.chars().count());
    assert_eq!(out.len(), 10);
}

#[test]
fn test_parse_path() {
    let input = "\
PATH
  remote: pathgem
  specs:
    pathgem (0.1.0)
";
    let (_, end) = parse_path(input).unwrap();
    assert_eq!(end, input.chars().count());
}

#[test]
fn test_parse_ruby_version_inner() {
    let input = "\
  ruby 3.3.1p55
";
    let (version, _) = parse_ruby_version_inner(input).unwrap();
    assert_eq!(version.major, 3);
    assert_eq!(version.minor, 3);
    assert_eq!(version.patch, 1);
    assert_eq!(version.patchlevel, Some(55));
    assert_eq!(version.prerelease, None);
}

#[test]
fn test_parse_ruby_version_inner_without_patchlevel() {
    let input = "\
  ruby 4.0.0
";
    let (version, _) = parse_ruby_version_inner(input).unwrap();
    assert_eq!(version.major, 4);
    assert_eq!(version.minor, 0);
    assert_eq!(version.patch, 0);
    assert_eq!(version.patchlevel, None);
    assert_eq!(version.prerelease, None);
}

#[test]
fn test_parse_ruby_version_inner_with_p0() {
    let input = "\
  ruby 3.2.0p0
";
    let (version, _) = parse_ruby_version_inner(input).unwrap();
    assert_eq!(version.major, 3);
    assert_eq!(version.minor, 2);
    assert_eq!(version.patch, 0);
    assert_eq!(version.patchlevel, Some(0));
    assert_eq!(version.prerelease, None);
}

#[test]
fn test_parse_ruby_version_inner_preserves_preview() {
    let input = "\
  ruby 3.3.0.preview2
";
    let (version, _) = parse_ruby_version_inner(input).unwrap();
    assert_eq!(version.major, 3);
    assert_eq!(version.minor, 3);
    assert_eq!(version.patch, 0);
    assert_eq!(version.patchlevel, None);
    assert_eq!(version.prerelease, Some("preview2".to_string()));
}

#[test]
fn test_parse_ruby_version_inner_preserves_rc() {
    let input = "\
  ruby 3.3.0.rc1
";
    let (version, _) = parse_ruby_version_inner(input).unwrap();
    assert_eq!(version.major, 3);
    assert_eq!(version.minor, 3);
    assert_eq!(version.patch, 0);
    assert_eq!(version.patchlevel, None);
    assert_eq!(version.prerelease, Some("rc1".to_string()));
}

#[test]
fn test_parse_section_header() {
    let input = "\
PATH
  remote: pathgem
  specs:
    pathgem (0.1.0)
";
    let actual = parse_section_header(input).unwrap();
    assert_eq!(actual, "PATH");
}

#[test]
fn test_parse_version() {
    for input in [
        "1",
        "1.0",
        "2.3a.4B",
        "1.0.0.pre.beta",
        "1.2.3.pre.beta.2.pre.release.pre.1",
        "1.0.pre.rc.1",
    ] {
        let result = parse_version(input);
        assert!(result.is_ok(), "{:?}", result);
        assert_eq!(result.unwrap().1, input.chars().count());
    }
}

#[test]
fn test_git_section() {
    for input in [
        "GIT
  remote: git://github.com/libgit2/rugged.git
  revision: 34a492ec7c5165824f39d8027d73712b0346aac2
  submodules: true
  specs:
    rugged (0.26.0)
",
        "GIT
  remote: https://github.com/Driversnote-Dev/guard-erb_lint.git
  revision: 2ba3c5d21f5e891df97a3b7c03e56d7d19bf15a2
  specs:
    guard-erb_lint (1.0.0)
      activesupport
      erb_lint
      guard-compat (>= 1)
",
        "GIT
  remote: https://github.com/arthurnn/code-scanning-rubocop.git
  revision: 3077502361b66fd7e73b056a917649e40f87eb03
  specs:
    code-scanning-rubocop (0.6.1)
      rubocop (~> 1.0)
",
        "GIT
  remote: https://github.com/indirect/cloudflare.git
  revision: 82641303470f1de68d6b9ad25636e53e1e0325f9
  specs:
    cloudflare (4.4.0)
      async-rest (~> 0.18)
",
        "GIT
  remote: https://github.com/oldmoe/litestack.git
  revision: e598e1b1f0d46f45df1e2c6213ff9b136b63d9bf
  specs:
    litestack (0.4.5)
      erubi (~> 1)
      oj (~> 3)
      rack (~> 3)
      rackup (~> 2)
      nokogiri (>= 1.15.7, != 1.16.7, != 1.16.6, != 1.16.5, != 1.16.4, != 1.16.3, != 1.16.2, != 1.16.1, != 1.16.0.rc1, != 1.16.0)
      tilt (~> 2)
",
    ] {
        let (git_section, end) = parse_git_section(input).unwrap();
        assert_eq!(end, input.chars().count());
        assert_eq!(input, git_section.to_lock_text());
    }
}

#[test]
fn git_section_text_keeps_optional_fields_and_platforms() {
    let input = "GIT
  remote: https://github.com/rails/rails.git
  revision: 0123456789abcdef0123456789abcdef01234567
  branch: main
  ref: v8
  tag: v8.0.0
  submodules: false
  glob: *.gemspec
  specs:
    rails (8.1.0.alpha-x86_64-linux)
      actionpack (= 8.1.0.alpha)
";
    let (git, _) = parse_git_section(input).unwrap();
    assert_eq!(git.glob, Some("*.gemspec"));
    assert_eq!(input, git.to_lock_text());
}

#[test]
fn git_sections_parse_their_fields() {
    let input = "GIT
  remote: git://github.com/libgit2/rugged.git
  revision: 34a492ec7c5165824f39d8027d73712b0346aac2
  submodules: true
  specs:
    rugged (0.26.0)
";
    let (git, end) = parse_git_section(input).unwrap();
    assert_eq!(end, input.chars().count());
    assert_eq!(git.remote, "git://github.com/libgit2/rugged.git");
    assert_eq!(git.revision, "34a492ec7c5165824f39d8027d73712b0346aac2");
    assert_eq!(git.submodules, Some(true));
    assert_eq!(git.branch, None);
    assert_eq!(git.specs.len(), 1);
    assert_eq!(git.specs[0].release_tuple.name, "rugged");
    assert_eq!(git.specs[0].release_tuple.version.version, "0.26.0");

    let input = "GIT
  remote: https://github.com/oldmoe/litestack.git
  revision: e598e1b1f0d46f45df1e2c6213ff9b136b63d9bf
  specs:
    litestack (0.4.5)
      erubi (~> 1)
      oj (~> 3)
      rack (~> 3)
      rackup (~> 2)
      nokogiri (>= 1.15.7, != 1.16.7, != 1.16.6, != 1.16.5, != 1.16.4, != 1.16.3, != 1.16.2, != 1.16.1, != 1.16.0.rc1, != 1.16.0)
      tilt (~> 2)
";
    let (git, end) = parse_git_section(input).unwrap();
    assert_eq!(end, input.chars().count());
    assert_eq!(git.submodules, None);
    assert_eq!(git.specs[0].deps.len(), 6);
    assert_eq!(git.specs[0].deps[4].name, "nokogiri");
    assert_eq!(git.specs[0].deps[4].requirement.constraints.len(), 10);
}

#[test]
fn spec_dependency_without_requirement_means_any_version() {
    let (dep, end) = parse_spec_dep("      sorbet-runtime\n").unwrap();
    assert_eq!(end, 21);
    assert_eq!(dep.name, "sorbet-runtime");
    assert_eq!(dep.requirement.constraints.len(), 1);
    assert_eq!(dep.requirement.constraints[0].version.version, "0");

    let (dep, _) = parse_spec_dep("      prism (~> 1.0)\n").unwrap();
    assert_eq!(dep.name, "prism");
    assert_eq!(dep.requirement.constraints.len(), 1);
    assert_eq!(dep.requirement.constraints[0].version.version, "1.0");
}

const FULL_LOCKFILE: &str = "\
GIT
  remote: https://github.com/rails/rails.git
  revision: 0123456789abcdef0123456789abcdef01234567
  branch: main
  specs:
    rails (8.1.0.alpha)
      actionpack (= 8.1.0.alpha)

PATH
  remote: .
  specs:
    myapp (0.1.0)

GEM
  remote: https://rubygems.org/
  specs:
    actionpack (8.1.0.alpha)
    nokogiri (1.19.0-x86_64-linux-gnu)
      racc (~> 1.4)
    racc (1.8.1)

PLATFORMS
  ruby
  x86_64-linux

DEPENDENCIES
  myapp!
  nokogiri (>= 1.18)
  rails!

CHECKSUMS
  racc (1.8.1) sha256=4a7f6929691dbec8b5209a0b373bc2614882b55fc5d2e447a21aaa691303d62f

RUBY VERSION
  ruby 3.4.1p0

BUNDLED WITH
  2.6.2
";

#[test]
fn parses_a_whole_lockfile() {
    let lock = parse(FULL_LOCKFILE).unwrap();
    assert_eq!(lock.git.len(), 1);
    assert_eq!(lock.git[0].branch, Some("main"));
    assert_eq!(lock.path.len(), 1);
    assert_eq!(lock.path[0].remote, ".");
    assert_eq!(lock.gem.len(), 1);
    assert_eq!(lock.gem[0].specs.len(), 3);
    assert_eq!(lock.platforms.len(), 2);
    assert_eq!(lock.platforms[1].cpu, "x86_64");
    assert_eq!(lock.platforms[1].os.as_deref(), Some("linux"));
    assert_eq!(lock.dependencies.len(), 3);
    assert!(lock.dependencies[0].nonstandard);
    assert!(!lock.dependencies[1].nonstandard);
    let checksums = lock.checksums.unwrap();
    assert_eq!(checksums.len(), 1);
    assert_eq!(checksums[0].algorithm, ChecksumAlgorithm::SHA256);
    assert_eq!(checksums[0].value.len(), 32);
    let ruby = lock.ruby_version.unwrap();
    assert_eq!(ruby.indentation, LockfileIndentation::Standard);
    assert_eq!(ruby.cruby_version.major, 3);
    assert_eq!(ruby.cruby_version.patchlevel, Some(0));
    let bundled = lock.bundled_with.unwrap();
    assert_eq!(bundled.bundler_version.version, "2.6.2");
}

#[test]
fn an_empty_lockfile_has_no_sections() {
    let lock = parse("").unwrap();
    assert!(lock.git.is_empty() && lock.gem.is_empty() && lock.path.is_empty());
    assert!(lock.ruby_version.is_none() && lock.bundled_with.is_none() && lock.checksums.is_none());
}

#[test]
fn a_broken_section_is_reported_and_parsing_goes_on() {
    let input = "NOT A SECTION\n  junk\nPLATFORMS\n  ruby\n";
    let errors = parse(input).unwrap_err();
    assert_eq!(errors.lockfile_contents, input);
    assert_eq!(errors.others.len(), 1);
    assert_eq!(errors.others[0].char_offset.length, 1);
    assert_eq!(errors.others[0].char_offset.offset, 0);
}

#[test]
fn an_odd_checksum_ends_the_checksum_list() {
    let input = "CHECKSUMS\n  racc (1.8.1) sha256=abc\n";
    let errors = parse(input).unwrap_err();
    assert_eq!(errors.others.len(), 1);
    assert_eq!(errors.others[0].msg, "");
}
