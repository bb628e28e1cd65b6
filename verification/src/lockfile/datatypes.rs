//! The contents of a `Gemfile.lock`, and their models.

use vstd::prelude::*;
use crate::gem_types::{
    DependencyModel, PlatformModel, ProjectDependency, Platform, ReleaseTuple, ReleaseTupleModel,
    Requirement, RequirementModel, RubyVersion, RubyVersionModel, Version, VersionModel,
};

verus! {

/// How far the entries under a one-line section (`RUBY VERSION`,
/// `BUNDLED WITH`) are indented.
#[derive(Debug, Clone, Copy, PartialEq, Eq, Structural)]
pub enum LockfileIndentation {
    /// Two spaces.
    Standard,
    /// Three spaces, as some Bundler versions wrote.
    ThreeSpaces,
}

impl DeepView for LockfileIndentation {
    type V = LockfileIndentation;

    open spec fn deep_view(&self) -> LockfileIndentation {
        *self
    }
}

/// A gem and the versions of it that a `Gemfile` asks for.
#[derive(Debug, Clone, PartialEq, Eq)]
pub struct GemRange<'i> {
    pub name: &'i str,
    pub requirement: Requirement,
    /// Written with a trailing `!`: the gem comes from a source other than
    /// the default one.
    pub nonstandard: bool,
}

pub struct GemRangeModel {
    pub name: Seq<char>,
    pub requirement: RequirementModel,
    pub nonstandard: bool,
}

impl<'i> DeepView for GemRange<'i> {
    type V = GemRangeModel;

    open spec fn deep_view(&self) -> GemRangeModel {
        GemRangeModel {
            name: self.name@,
            requirement: self.requirement.deep_view(),
            nonstandard: self.nonstandard,
        }
    }
}

/// A locked release and the dependencies it declares.
#[derive(Debug, Clone, PartialEq, Eq)]
pub struct Spec {
    pub release_tuple: ReleaseTuple,
    pub deps: Vec<ProjectDependency>,
}

pub struct SpecModel {
    pub release_tuple: ReleaseTupleModel,
    pub deps: Seq<DependencyModel>,
}

impl DeepView for Spec {
    type V = SpecModel;

    open spec fn deep_view(&self) -> SpecModel {
        SpecModel { release_tuple: self.release_tuple.deep_view(), deps: self.deps.deep_view() }
    }
}

/// A `GIT` section: gems locked from a git repository.
#[derive(Debug, Clone, PartialEq, Eq)]
pub struct GitSection<'i> {
    pub remote: &'i str,
    pub revision: &'i str,
    pub branch: Option<&'i str>,
    pub git_ref: Option<&'i str>,
    pub tag: Option<&'i str>,
    pub submodules: Option<bool>,
    pub glob: Option<&'i str>,
    pub specs: Vec<Spec>,
}

pub struct GitSectionModel {
    pub remote: Seq<char>,
    pub revision: Seq<char>,
    pub branch: Option<Seq<char>>,
    pub git_ref: Option<Seq<char>>,
    pub tag: Option<Seq<char>>,
    pub submodules: Option<bool>,
    pub glob: Option<Seq<char>>,
    pub specs: Seq<SpecModel>,
}

impl<'i> DeepView for GitSection<'i> {
    type V = GitSectionModel;

    open spec fn deep_view(&self) -> GitSectionModel {
        GitSectionModel {
            remote: self.remote@,
            revision: self.revision@,
            branch: self.branch.deep_view(),
            git_ref: self.git_ref.deep_view(),
            tag: self.tag.deep_view(),
            submodules: self.submodules,
            glob: self.glob.deep_view(),
            specs: self.specs.deep_view(),
        }
    }
}

/// A `GEM` section: gems locked from a gem server.
#[derive(Debug, Clone, PartialEq, Eq)]
pub struct GemSection<'i> {
    pub remote: Option<&'i str>,
    pub specs: Vec<Spec>,
}

pub struct GemSectionModel {
    pub remote: Option<Seq<char>>,
    pub specs: Seq<SpecModel>,
}

impl<'i> DeepView for GemSection<'i> {
    type V = GemSectionModel;

    open spec fn deep_view(&self) -> GemSectionModel {
        GemSectionModel { remote: self.remote.deep_view(), specs: self.specs.deep_view() }
    }
}

/// A `PATH` section: gems locked from a local directory.
#[derive(Debug, Clone, PartialEq, Eq)]
pub struct PathSection<'i> {
    pub remote: &'i str,
    pub specs: Vec<Spec>,
}

pub struct PathSectionModel {
    pub remote: Seq<char>,
    pub specs: Seq<SpecModel>,
}

impl<'i> DeepView for PathSection<'i> {
    type V = PathSectionModel;

    open spec fn deep_view(&self) -> PathSectionModel {
        PathSectionModel { remote: self.remote@, specs: self.specs.deep_view() }
    }
}

/// The digest algorithm of a checksum entry.
#[derive(Debug, Clone, Copy, PartialEq, Eq, Structural)]
pub enum ChecksumAlgorithm {
    /// The entry names the release without a digest.
    NotGiven,
    SHA256,
}

impl DeepView for ChecksumAlgorithm {
    type V = ChecksumAlgorithm;

    open spec fn deep_view(&self) -> ChecksumAlgorithm {
        *self
    }
}

/// An entry of the `CHECKSUMS` section.
#[derive(Debug, Clone, PartialEq, Eq)]
pub struct Checksum {
    pub release_tuple: ReleaseTuple,
    pub algorithm: ChecksumAlgorithm,
    pub value: Vec<u8>,
}

pub struct ChecksumModel {
    pub release_tuple: ReleaseTupleModel,
    pub algorithm: ChecksumAlgorithm,
    pub value: Seq<u8>,
}

impl DeepView for Checksum {
    type V = ChecksumModel;

    open spec fn deep_view(&self) -> ChecksumModel {
        ChecksumModel {
            release_tuple: self.release_tuple.deep_view(),
            algorithm: self.algorithm,
            value: self.value@,
        }
    }
}

/// The `RUBY VERSION` section.
#[derive(Debug, Clone, PartialEq, Eq)]
pub struct RubyVersionSection {
    pub indentation: LockfileIndentation,
    pub cruby_version: RubyVersion,
    /// The version of another engine (JRuby, TruffleRuby) given in brackets.
    pub engine_version: Option<RubyVersion>,
}

pub struct RubyVersionSectionModel {
    pub indentation: LockfileIndentation,
    pub cruby_version: RubyVersionModel,
    pub engine_version: Option<RubyVersionModel>,
}

impl DeepView for RubyVersionSection {
    type V = RubyVersionSectionModel;

    open spec fn deep_view(&self) -> RubyVersionSectionModel {
        RubyVersionSectionModel {
            indentation: self.indentation,
            cruby_version: self.cruby_version.deep_view(),
            engine_version: self.engine_version.deep_view(),
        }
    }
}

/// The `BUNDLED WITH` section.
#[derive(Debug, Clone, PartialEq, Eq)]
pub struct BundledWithSection {
    pub indentation: LockfileIndentation,
    pub bundler_version: Version,
}

pub struct BundledWithSectionModel {
    pub indentation: LockfileIndentation,
    pub bundler_version: VersionModel,
}

impl DeepView for BundledWithSection {
    type V = BundledWithSectionModel;

    open spec fn deep_view(&self) -> BundledWithSectionModel {
        BundledWithSectionModel {
            indentation: self.indentation,
            bundler_version: self.bundler_version.deep_view(),
        }
    }
}

/// A parsed `Gemfile.lock`. Sections that may occur several times are kept
/// in order; of the others, the last one in the file is kept.
#[derive(Debug, Clone, PartialEq, Eq)]
pub struct GemfileDotLock<'i> {
    pub git: Vec<GitSection<'i>>,
    pub gem: Vec<GemSection<'i>>,
    pub path: Vec<PathSection<'i>>,
    pub platforms: Vec<Platform>,
    pub dependencies: Vec<GemRange<'i>>,
    pub ruby_version: Option<RubyVersionSection>,
    pub bundled_with: Option<BundledWithSection>,
    pub checksums: Option<Vec<Checksum>>,
}

pub struct LockModel {
    pub git: Seq<GitSectionModel>,
    pub gem: Seq<GemSectionModel>,
    pub path: Seq<PathSectionModel>,
    pub platforms: Seq<PlatformModel>,
    pub dependencies: Seq<GemRangeModel>,
    pub ruby_version: Option<RubyVersionSectionModel>,
    pub bundled_with: Option<BundledWithSectionModel>,
    pub checksums: Option<Seq<ChecksumModel>>,
}

impl<'i> DeepView for GemfileDotLock<'i> {
    type V = LockModel;

    open spec fn deep_view(&self) -> LockModel {
        LockModel {
            git: self.git.deep_view(),
            gem: self.gem.deep_view(),
            path: self.path.deep_view(),
            platforms: self.platforms.deep_view(),
            dependencies: self.dependencies.deep_view(),
            ruby_version: self.ruby_version.deep_view(),
            bundled_with: self.bundled_with.deep_view(),
            checksums: self.checksums.deep_view(),
        }
    }
}

/// The lockfile with no sections.
pub open spec fn empty_lock() -> LockModel {
    LockModel {
        git: seq![],
        gem: seq![],
        path: seq![],
        platforms: seq![],
        dependencies: seq![],
        ruby_version: None,
        bundled_with: None,
        checksums: None,
    }
}

impl<'i> GemfileDotLock<'i> {
    pub fn empty() -> (l: GemfileDotLock<'i>)
        ensures
            l.deep_view() == empty_lock(),
    {
        let l = GemfileDotLock {
            git: Vec::new(),
            gem: Vec::new(),
            path: Vec::new(),
            platforms: Vec::new(),
            dependencies: Vec::new(),
            ruby_version: None,
            bundled_with: None,
            checksums: None,
        };
        assert(l.deep_view().git =~= seq![]);
        assert(l.deep_view().gem =~= seq![]);
        assert(l.deep_view().path =~= seq![]);
        assert(l.deep_view().platforms =~= seq![]);
        assert(l.deep_view().dependencies =~= seq![]);
        l
    }
}

/// Why a parse step failed: no cause beyond the grammar, or the failure of a
/// conversion of what was read.
#[derive(Debug, Clone, Copy, PartialEq, Eq, Structural)]
pub enum Cause {
    /// The input does not follow the grammar here.
    Grammar,
    /// A number does not fit in 32 bits.
    NumberTooLarge,
    /// A hex string has an odd number of digits.
    OddHexDigits,
}

/// The message under which a cause is reported.
pub open spec fn cause_message(c: Cause) -> Seq<char> {
    match c {
        Cause::Grammar => seq![],
        Cause::NumberTooLarge => "number too large to fit in target type"@,
        Cause::OddHexDigits => "Odd number of digits"@,
    }
}

/// Where in the lockfile (in characters) an error was found.
#[derive(Debug, Clone, Copy, PartialEq, Eq, Structural)]
pub struct SourceSpan {
    pub offset: usize,
    pub length: usize,
}

/// One error found while parsing a lockfile.
#[derive(Debug, Clone, PartialEq, Eq)]
pub struct ParseError {
    pub char_offset: SourceSpan,
    pub msg: String,
}

pub struct ParseErrorModel {
    pub offset: int,
    pub msg: Seq<char>,
}

impl DeepView for ParseError {
    type V = ParseErrorModel;

    open spec fn deep_view(&self) -> ParseErrorModel {
        ParseErrorModel { offset: self.char_offset.offset as int, msg: self.msg@ }
    }
}

/// All errors found in a lockfile, with its contents for reporting them.
#[derive(Debug, Clone, PartialEq, Eq)]
pub struct ParseErrors {
    pub lockfile_contents: String,
    pub others: Vec<ParseError>,
}

} // verus!
