//! The values that describe gem releases and their requirements: versions,
//! platforms, comparison operators, constraints, requirements, dependencies
//! and Ruby versions. Each type has a mathematical model (its `deep_view`),
//! over which the parsers state their contracts.

use vstd::prelude::*;
use crate::scan::digits_value;
use crate::text::{chars_of, is_ascii_digit};

verus! {

/// One dot-separated segment of a version.
#[derive(Debug, Clone, PartialEq, Eq, Hash)]
pub enum VersionSegment {
    Number(u32),
    String(String),
}

pub enum SegmentModel {
    Number(u32),
    Text(Seq<char>),
}

impl DeepView for VersionSegment {
    type V = SegmentModel;

    open spec fn deep_view(&self) -> SegmentModel {
        match self {
            VersionSegment::Number(n) => SegmentModel::Number(*n),
            VersionSegment::String(s) => SegmentModel::Text(s@),
        }
    }
}

/// A segment made only of ASCII digits whose value fits in a `u32` is a
/// number; any other segment is kept as text.
pub open spec fn segment_model(t: Seq<char>) -> SegmentModel {
    if t.len() > 0 && (forall|i: int| 0 <= i < t.len() ==> #[trigger] is_ascii_digit(t[i]))
        && digits_value(t) <= u32::MAX {
        SegmentModel::Number(digits_value(t) as u32)
    } else {
        SegmentModel::Text(t)
    }
}

impl VersionSegment {
    pub fn new(t: &str) -> (seg: VersionSegment)
        ensures
            seg.deep_view() == segment_model(t@),
    {
        let cs = chars_of(t);
        let n = cs.len();
        let mut i: usize = 0;
        while i < n
            invariant
                n == cs@.len(),
                cs@ == t@,
                i <= n,
                forall|j: int| 0 <= j < i ==> #[trigger] is_ascii_digit(cs@[j]),
            decreases n - i,
        {
            if !('0' <= cs[i] && cs[i] <= '9') {
                assert(!is_ascii_digit(t@[i as int]));
                return VersionSegment::String(t.to_owned());
            }
            i = i + 1;
        }
        if n == 0 {
            return VersionSegment::String(t.to_owned());
        }
        assert(cs@.subrange(0, n as int) =~= cs@);
        match crate::scan::decimal_value(cs.as_slice(), 0, n, 0xffff_ffff) {
            Some(v) => VersionSegment::Number(v as u32),
            None => VersionSegment::String(t.to_owned()),
        }
    }
}

/// A gem version: the text it was written as, and its segments.
#[derive(Debug, Clone, PartialEq, Eq, Hash)]
pub struct Version {
    pub version: String,
    pub segments: Vec<VersionSegment>,
}

pub struct VersionModel {
    pub version: Seq<char>,
    pub segments: Seq<SegmentModel>,
}

impl DeepView for Version {
    type V = VersionModel;

    open spec fn deep_view(&self) -> VersionModel {
        VersionModel { version: self.version@, segments: self.segments.deep_view() }
    }
}

/// A gem platform as written: a CPU and, after a `-`, an optional OS part.
/// The platform `ruby` (no OS part) is the platform of pure-Ruby gems.
#[derive(Debug, Clone, PartialEq, Eq, Hash)]
pub struct Platform {
    pub cpu: String,
    pub os: Option<String>,
}

pub struct PlatformModel {
    pub cpu: Seq<char>,
    pub os: Option<Seq<char>>,
}

impl DeepView for Platform {
    type V = PlatformModel;

    open spec fn deep_view(&self) -> PlatformModel {
        PlatformModel { cpu: self.cpu@, os: self.os.deep_view() }
    }
}

pub open spec fn ruby_platform_model() -> PlatformModel {
    PlatformModel { cpu: "ruby"@, os: None }
}

/// The platform as text: the CPU, then `-` and the OS part when there is one.
pub open spec fn platform_text(p: PlatformModel) -> Seq<char> {
    match p.os {
        Some(os) => p.cpu + "-"@ + os,
        None => p.cpu,
    }
}

impl Platform {
    /// The platform of pure-Ruby gems.
    pub fn ruby() -> (p: Platform)
        ensures
            p.deep_view() == ruby_platform_model(),
    {
        Platform { cpu: String::from_str("ruby"), os: None }
    }

    pub fn from_parts(cpu: &str, os: Option<&str>) -> (p: Platform)
        ensures
            p.deep_view() == (PlatformModel { cpu: cpu@, os: os.deep_view() }),
    {
        Platform {
            cpu: cpu.to_owned(),
            os: match os {
                Some(o) => Some(o.to_owned()),
                None => None,
            },
        }
    }

    /// The two platforms are written the same way.
    pub fn same_as(&self, other: &Platform) -> (b: bool)
        ensures
            b == (self.deep_view() == other.deep_view()),
    {
        let cpu_same = self.cpu == other.cpu;
        let os_same = match (&self.os, &other.os) {
            (Some(a), Some(b)) => *a == *b,
            (None, None) => true,
            _ => false,
        };
        cpu_same && os_same
    }

    pub fn is_ruby(&self) -> (b: bool)
        ensures
            b == (self.deep_view() == ruby_platform_model()),
    {
        let cpu = chars_of(self.cpu.as_str());
        let r = self.os.is_none() && crate::scan::span_is(cpu.as_slice(), 0, cpu.len(), "ruby");
        assert(cpu@.subrange(0, cpu@.len() as int) =~= cpu@);
        r
    }

    /// The platform as text.
    pub fn to_text(&self) -> (t: String)
        ensures
            t@ == platform_text(self.deep_view()),
    {
        let mut t = self.cpu.clone();
        match &self.os {
            Some(os) => {
                t.append("-");
                t.append(os.as_str());
            },
            None => {},
        }
        t
    }
}

/// How a constraint compares a version with its own.
#[derive(Debug, Clone, Copy, PartialEq, Eq, Structural)]
pub enum ComparisonOperator {
    Equal,
    NotEqual,
    GreaterThan,
    LessThan,
    GreaterThanOrEqual,
    LessThanOrEqual,
    Pessimistic,
}

impl DeepView for ComparisonOperator {
    type V = ComparisonOperator;

    open spec fn deep_view(&self) -> ComparisonOperator {
        *self
    }
}

/// The operator that `text` spells, if any.
pub open spec fn operator_named(text: Seq<char>) -> Option<ComparisonOperator> {
    if text == "="@ {
        Some(ComparisonOperator::Equal)
    } else if text == "!="@ {
        Some(ComparisonOperator::NotEqual)
    } else if text == ">"@ {
        Some(ComparisonOperator::GreaterThan)
    } else if text == "<"@ {
        Some(ComparisonOperator::LessThan)
    } else if text == ">="@ {
        Some(ComparisonOperator::GreaterThanOrEqual)
    } else if text == "<="@ {
        Some(ComparisonOperator::LessThanOrEqual)
    } else if text == "~>"@ {
        Some(ComparisonOperator::Pessimistic)
    } else {
        None
    }
}

impl ComparisonOperator {
    /// The operator that `text` spells exactly, if any.
    pub fn from_text(text: &str) -> (op: Option<ComparisonOperator>)
        ensures
            op == operator_named(text@),
    {
        let cs = chars_of(text);
        let n = cs.len();
        let s = cs.as_slice();
        proof {
            assert(cs@.subrange(0, n as int) =~= text@);
        }
        if crate::scan::span_is(s, 0, n, "=") {
            Some(ComparisonOperator::Equal)
        } else if crate::scan::span_is(s, 0, n, "!=") {
            Some(ComparisonOperator::NotEqual)
        } else if crate::scan::span_is(s, 0, n, ">") {
            Some(ComparisonOperator::GreaterThan)
        } else if crate::scan::span_is(s, 0, n, "<") {
            Some(ComparisonOperator::LessThan)
        } else if crate::scan::span_is(s, 0, n, ">=") {
            Some(ComparisonOperator::GreaterThanOrEqual)
        } else if crate::scan::span_is(s, 0, n, "<=") {
            Some(ComparisonOperator::LessThanOrEqual)
        } else if crate::scan::span_is(s, 0, n, "~>") {
            Some(ComparisonOperator::Pessimistic)
        } else {
            None
        }
    }
}

/// An operator and the version it compares with.
#[derive(Debug, Clone, PartialEq, Eq)]
pub struct VersionConstraint {
    pub operator: ComparisonOperator,
    pub version: Version,
}

pub struct ConstraintModel {
    pub operator: ComparisonOperator,
    pub version: VersionModel,
}

impl DeepView for VersionConstraint {
    type V = ConstraintModel;

    open spec fn deep_view(&self) -> ConstraintModel {
        ConstraintModel { operator: self.operator, version: self.version.deep_view() }
    }
}

/// The constraint `>= 0`, which every version meets.
pub open spec fn any_version_constraint() -> ConstraintModel {
    ConstraintModel {
        operator: ComparisonOperator::GreaterThanOrEqual,
        version: VersionModel { version: "0"@, segments: seq![SegmentModel::Number(0)] },
    }
}

impl VersionConstraint {
    /// The constraint `>= 0`, which every version meets.
    pub fn any_version() -> (c: VersionConstraint)
        ensures
            c.deep_view() == any_version_constraint(),
    {
        let mut segments: Vec<VersionSegment> = Vec::new();
        segments.push(VersionSegment::Number(0));
        let c = VersionConstraint {
            operator: ComparisonOperator::GreaterThanOrEqual,
            version: Version { version: String::from_str("0"), segments },
        };
        assert(c.deep_view().version.segments =~= seq![SegmentModel::Number(0)]);
        c
    }
}

/// The constraints a version must all meet.
#[derive(Debug, Clone, PartialEq, Eq)]
pub struct Requirement {
    pub constraints: Vec<VersionConstraint>,
}

pub struct RequirementModel {
    pub constraints: Seq<ConstraintModel>,
}

impl DeepView for Requirement {
    type V = RequirementModel;

    open spec fn deep_view(&self) -> RequirementModel {
        RequirementModel { constraints: self.constraints.deep_view() }
    }
}

/// The requirement of a dependency written without constraints: `>= 0`.
pub open spec fn default_requirement() -> RequirementModel {
    RequirementModel { constraints: seq![any_version_constraint()] }
}

impl Requirement {
    /// The requirement of a dependency written without constraints: `>= 0`.
    pub fn any_version() -> (r: Requirement)
        ensures
            r.deep_view() == default_requirement(),
    {
        let mut constraints: Vec<VersionConstraint> = Vec::new();
        constraints.push(VersionConstraint::any_version());
        let r = Requirement { constraints };
        assert(r.deep_view().constraints =~= seq![any_version_constraint()]);
        r
    }

    /// The requirement with no constraints at all.
    pub fn empty() -> (r: Requirement)
        ensures
            r.deep_view().constraints.len() == 0,
    {
        Requirement { constraints: Vec::new() }
    }
}

/// A dependency of a gem on another gem.
#[derive(Debug, Clone, PartialEq, Eq)]
pub struct ProjectDependency {
    pub name: String,
    pub requirement: Requirement,
}

pub struct DependencyModel {
    pub name: Seq<char>,
    pub requirement: RequirementModel,
}

impl DeepView for ProjectDependency {
    type V = DependencyModel;

    open spec fn deep_view(&self) -> DependencyModel {
        DependencyModel { name: self.name@, requirement: self.requirement.deep_view() }
    }
}

/// A gem release as a lockfile names it: gem name, version, platform.
#[derive(Debug, Clone, PartialEq, Eq)]
pub struct ReleaseTuple {
    pub name: String,
    pub version: Version,
    pub platform: Option<Platform>,
}

pub struct ReleaseTupleModel {
    pub name: Seq<char>,
    pub version: VersionModel,
    pub platform: Option<PlatformModel>,
}

impl DeepView for ReleaseTuple {
    type V = ReleaseTupleModel;

    open spec fn deep_view(&self) -> ReleaseTupleModel {
        ReleaseTupleModel {
            name: self.name@,
            version: self.version.deep_view(),
            platform: self.platform.deep_view(),
        }
    }
}

/// A Ruby version such as `ruby 3.3.1p55` or `ruby 3.3.0.preview2`.
#[derive(Debug, Clone, PartialEq, Eq)]
pub struct RubyVersion {
    pub engine: String,
    pub major: u32,
    pub minor: u32,
    pub patch: u32,
    pub tiny: Option<u32>,
    pub patchlevel: Option<u32>,
    pub prerelease: Option<String>,
}

pub struct RubyVersionModel {
    pub engine: Seq<char>,
    pub major: u32,
    pub minor: u32,
    pub patch: u32,
    pub tiny: Option<u32>,
    pub patchlevel: Option<u32>,
    pub prerelease: Option<Seq<char>>,
}

impl DeepView for RubyVersion {
    type V = RubyVersionModel;

    open spec fn deep_view(&self) -> RubyVersionModel {
        RubyVersionModel {
            engine: self.engine@,
            major: self.major,
            minor: self.minor,
            patch: self.patch,
            tiny: self.tiny,
            patchlevel: self.patchlevel,
            prerelease: self.prerelease.deep_view(),
        }
    }
}

} // verus!

verus! {

/// A version written as text: the whole text must be one version.
pub open spec fn version_text(t: Seq<char>) -> Option<VersionModel> {
    match crate::lockfile::grammar::version(t, 0) {
        Ok((v, q)) => if q == t.len() {
            Some(v)
        } else {
            None
        },
        Err(_) => None,
    }
}

/// Text that is not a version.
#[derive(Debug, Clone, PartialEq, Eq)]
pub struct VersionError {
    pub version: String,
}

impl Version {
    /// Reads a version that makes up the whole of `t`.
    pub fn from_text(t: &str) -> (r: Result<Version, VersionError>)
        ensures
            match r {
                Ok(v) => version_text(t@) == Some(v.deep_view()),
                Err(e) => version_text(t@) is None && e.version@ == t@,
            },
    {
        let cs = chars_of(t);
        let n = cs.len();
        match crate::lockfile::parser::parse_version_at(cs.as_slice(), t, 0) {
            Ok((v, q)) => if q == n {
                Ok(v)
            } else {
                Err(VersionError { version: t.to_owned() })
            },
            Err(_) => Err(VersionError { version: t.to_owned() }),
        }
    }
}

/// A gem version and the platform it was built for.
#[derive(Debug, Clone, PartialEq, Eq, Hash)]
pub struct VersionPlatform {
    pub version: Version,
    pub platform: Platform,
}

pub struct VersionPlatformModel {
    pub version: VersionModel,
    pub platform: PlatformModel,
}

impl DeepView for VersionPlatform {
    type V = VersionPlatformModel;

    open spec fn deep_view(&self) -> VersionPlatformModel {
        VersionPlatformModel {
            version: self.version.deep_view(),
            platform: self.platform.deep_view(),
        }
    }
}

/// A version, optionally followed by `-` and a platform, making up the
/// whole of `t`; without a platform, the platform is `ruby`.
pub open spec fn version_platform_text(t: Seq<char>) -> Option<VersionPlatformModel> {
    match crate::lockfile::grammar::version(t, 0) {
        Ok((v, q)) => if q == t.len() {
            Some(VersionPlatformModel { version: v, platform: ruby_platform_model() })
        } else if 0 <= q < t.len() && t[q] == '-' {
            match crate::lockfile::grammar::platform(t, q + 1) {
                Ok((pl, r)) => if r == t.len() {
                    Some(VersionPlatformModel { version: v, platform: pl })
                } else {
                    None
                },
                Err(_) => None,
            }
        } else {
            None
        },
        Err(_) => None,
    }
}

/// The text of a version and platform: the version, then `-` and the
/// platform unless it is `ruby`.
pub open spec fn version_platform_string(vp: VersionPlatformModel) -> Seq<char> {
    if vp.platform == ruby_platform_model() {
        vp.version.version
    } else {
        vp.version.version + "-"@ + platform_text(vp.platform)
    }
}

impl VersionPlatform {
    /// Reads a version and optional platform that make up the whole of `t`.
    pub fn from_text(t: &str) -> (r: Option<VersionPlatform>)
        ensures
            r.deep_view() == version_platform_text(t@),
    {
        let cs = chars_of(t);
        let n = cs.len();
        let s = cs.as_slice();
        match crate::lockfile::parser::parse_version_at(s, t, 0) {
            Ok((v, q)) => {
                if q == n {
                    Some(VersionPlatform { version: v, platform: Platform::ruby() })
                } else if q < n && s[q] == '-' {
                    match crate::lockfile::parser::parse_platform(s, t, q + 1) {
                        Ok((pl, r)) => if r == n {
                            Some(VersionPlatform { version: v, platform: pl })
                        } else {
                            None
                        },
                        Err(_) => None,
                    }
                } else {
                    None
                }
            },
            Err(_) => None,
        }
    }

    /// The version and platform as text.
    pub fn to_text(&self) -> (t: String)
        ensures
            t@ == version_platform_string(self.deep_view()),
    {
        let mut t = self.version.version.clone();
        if !self.platform.is_ruby() {
            t.append("-");
            let p = self.platform.to_text();
            t.append(p.as_str());
        }
        t
    }
}

/// Writing back a version and platform that were read from text gives that
/// text, except for an explicit `-ruby` platform, which is written without
/// it.
pub proof fn lemma_version_platform_round_trip(t: Seq<char>)
    requires
        version_platform_text(t) is Some,
    ensures
        ({
            let vp = version_platform_text(t)->0;
            ||| version_platform_string(vp) == t
            ||| (vp.platform == ruby_platform_model() && t == vp.version.version + "-ruby"@)
        }),
{
    reveal_strlit("-");
    let vp = version_platform_text(t)->0;
    let (v, q) = crate::lockfile::grammar::version(t, 0)->Ok_0;
    assert(v.version == t.subrange(0, q));
    if q == t.len() {
        assert(t.subrange(0, q) =~= t);
    } else {
        let (pl, r) = crate::lockfile::grammar::platform(t, q + 1)->Ok_0;
        assert(r == t.len());
        assert(t[q] == '-');
        crate::scan::lemma_run_end(t, q + 1, crate::scan::CharClass::CpuChar);
        let tk = crate::lockfile::grammar::take1(t, q + 1, crate::scan::CharClass::CpuChar);
        assert(tk is Ok);
        let (cpu, q1) = tk->Ok_0;
        assert(cpu == t.subrange(q + 1, q1));
        assert(pl.cpu == cpu);
        if pl.os is Some {
            assert(t[q1] == '-');
            crate::scan::lemma_run_end(t, q1 + 1, crate::scan::CharClass::OsChar);
            assert(pl.os->0 == t.subrange(q1 + 1, r));
            assert(platform_text(pl) =~= t.subrange(q + 1, r));
        } else {
            assert(r == q1);
            assert(platform_text(pl) =~= t.subrange(q + 1, r));
        }
        if vp.platform != ruby_platform_model() {
            assert(version_platform_string(vp) =~= t);
        } else {
            reveal_strlit("ruby");
            reveal_strlit("-ruby");
            assert(t.subrange(q + 1, r) =~= "ruby"@);
            assert(t.subrange(q, r) =~= "-ruby"@) by {
                assert(t.subrange(q, r) =~= seq!['-'] + t.subrange(q + 1, r));
                assert("-ruby"@ =~= seq!['-'] + "ruby"@);
            }
            assert(vp.version.version == t.subrange(0, q));
            assert(t =~= t.subrange(0, q) + t.subrange(q, r));
        }
    }
}

} // verus!
