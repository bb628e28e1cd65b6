//! The compact-index format that gem servers answer `info/GEM_NAME` with:
//! one release per line, as `VERSION[-PLATFORM] DEPS|METADATA`.

use vstd::prelude::*;
use vstd::string::StrSliceExecFns;
use vstd::utf8::encode_utf8;
use crate::bindings::{hex_decode, hex_decoding, HexError};
use crate::gem_name::{
    gem_name_verdict, is_dot_component, is_valid_gem_name, validate_gem_name, GemNameError,
};
use crate::gem_types::{
    any_version_constraint, operator_named, version_platform_text, version_text,
    ComparisonOperator, ConstraintModel, DependencyModel, Platform, PlatformModel,
    ProjectDependency, Requirement, RequirementModel, Version, VersionConstraint, VersionError,
    VersionPlatform, VersionPlatformModel,
};
use crate::text::{chars_of, find_char, find_from, split_once, split_once_char, str_eq};

verus! {

/// A dependency that names an unusable gem.
#[derive(Debug, Clone, PartialEq, Eq)]
pub enum ProjectDependencyError {
    InvalidName { name: String, error: GemNameError },
}

/// Why a compact-index line could not be read.
#[derive(Debug, PartialEq, Eq)]
pub enum GemReleaseParse {
    MissingSpace,
    MissingPipe,
    MissingColon,
    MissingMetadataColon(String),
    InvalidVersion(VersionError),
    InvalidRelease(String),
    InvalidDependency(ProjectDependencyError),
    UnknownSemverType(String),
    UnknownMetadataKey { key: String, metadata: String },
    InvalidChecksum { source: HexError, metadata: String },
    MetadataConstraintParse { source: Box<GemReleaseParse>, metadata: String },
}

pub enum ReleaseParseModel {
    MissingSpace,
    MissingPipe,
    MissingColon,
    MissingMetadataColon(Seq<char>),
    InvalidVersion(Seq<char>),
    InvalidRelease(Seq<char>),
    InvalidDependency(Seq<char>, GemNameError),
    UnknownSemverType(Seq<char>),
    UnknownMetadataKey(Seq<char>, Seq<char>),
    InvalidChecksum(HexError, Seq<char>),
    MetadataConstraintParse(Box<ReleaseParseModel>, Seq<char>),
}

impl DeepView for GemReleaseParse {
    type V = ReleaseParseModel;

    open spec fn deep_view(&self) -> ReleaseParseModel
        decreases self,
    {
        match self {
            GemReleaseParse::MissingSpace => ReleaseParseModel::MissingSpace,
            GemReleaseParse::MissingPipe => ReleaseParseModel::MissingPipe,
            GemReleaseParse::MissingColon => ReleaseParseModel::MissingColon,
            GemReleaseParse::MissingMetadataColon(m) => ReleaseParseModel::MissingMetadataColon(m@),
            GemReleaseParse::InvalidVersion(e) => ReleaseParseModel::InvalidVersion(e.version@),
            GemReleaseParse::InvalidRelease(v) => ReleaseParseModel::InvalidRelease(v@),
            GemReleaseParse::InvalidDependency(ProjectDependencyError::InvalidName { name, error }) =>
                ReleaseParseModel::InvalidDependency(name@, *error),
            GemReleaseParse::UnknownSemverType(t) => ReleaseParseModel::UnknownSemverType(t@),
            GemReleaseParse::UnknownMetadataKey { key, metadata } =>
                ReleaseParseModel::UnknownMetadataKey(key@, metadata@),
            GemReleaseParse::InvalidChecksum { source, metadata } =>
                ReleaseParseModel::InvalidChecksum(*source, metadata@),
            GemReleaseParse::MetadataConstraintParse { source, metadata } =>
                ReleaseParseModel::MetadataConstraintParse(
                    Box::new((**source).deep_view()),
                    metadata@,
                ),
        }
    }
}

/// What the server says of a release beyond its dependencies.
#[derive(Debug, Clone, PartialEq, Eq)]
pub struct Metadata {
    pub checksum: Vec<u8>,
    pub ruby: Requirement,
    pub rubygems: Requirement,
    pub created_at: Option<String>,
}

pub struct MetadataModel {
    pub checksum: Seq<u8>,
    pub ruby: RequirementModel,
    pub rubygems: RequirementModel,
    pub created_at: Option<Seq<char>>,
}

impl DeepView for Metadata {
    type V = MetadataModel;

    open spec fn deep_view(&self) -> MetadataModel {
        MetadataModel {
            checksum: self.checksum@,
            ruby: self.ruby.deep_view(),
            rubygems: self.rubygems.deep_view(),
            created_at: self.created_at.deep_view(),
        }
    }
}

/// No checksum, no requirements, no creation time.
pub open spec fn empty_metadata() -> MetadataModel {
    MetadataModel {
        checksum: seq![],
        ruby: RequirementModel { constraints: seq![] },
        rubygems: RequirementModel { constraints: seq![] },
        created_at: None,
    }
}

impl Default for Metadata {
    /// No checksum, no requirements, no creation time.
    fn default() -> (m: Metadata)
        ensures
            m.deep_view() == empty_metadata(),
    {
        let m = Metadata {
            checksum: Vec::new(),
            ruby: Requirement::empty(),
            rubygems: Requirement::empty(),
            created_at: None,
        };
        assert(m.deep_view().checksum =~= seq![]);
        assert(m.deep_view().ruby.constraints =~= seq![]);
        assert(m.deep_view().rubygems.constraints =~= seq![]);
        m
    }
}

/// All the information about a release of a gem available on a gem server.
#[derive(Debug, Clone, PartialEq, Eq)]
pub struct GemRelease {
    pub version_platform: VersionPlatform,
    pub deps: Vec<ProjectDependency>,
    pub metadata: Metadata,
}

pub struct GemReleaseModel {
    pub version_platform: VersionPlatformModel,
    pub deps: Seq<DependencyModel>,
    pub metadata: MetadataModel,
}

impl DeepView for GemRelease {
    type V = GemReleaseModel;

    open spec fn deep_view(&self) -> GemReleaseModel {
        GemReleaseModel {
            version_platform: self.version_platform.deep_view(),
            deps: self.deps.deep_view(),
            metadata: self.metadata.deep_view(),
        }
    }
}

/// The first comma- (or other) separated field that starts at `p`: its end.
pub open spec fn field_end(s: Seq<char>, p: int, sep: char) -> int {
    match find_from(s, p, sep) {
        Some(k) => k,
        None => s.len() as int,
    }
}

/// A version constraint written as `OP VERSION`; the empty text is `>= 0`.
pub open spec fn constraint_text(c: Seq<char>) -> Result<ConstraintModel, ReleaseParseModel> {
    if c.len() == 0 {
        Ok(any_version_constraint())
    } else {
        match split_once(c, ' ') {
            None => Err(ReleaseParseModel::MissingSpace),
            Some((op, v)) => match operator_named(op) {
                None => Err(ReleaseParseModel::UnknownSemverType(op)),
                Some(o) => match version_text(v) {
                    None => Err(ReleaseParseModel::InvalidVersion(v)),
                    Some(vm) => Ok(ConstraintModel { operator: o, version: vm }),
                },
            },
        }
    }
}

/// The constraints of `s` from `p` on, separated by `&`; the first one that
/// cannot be read is the error.
pub open spec fn constraints_from(s: Seq<char>, p: int) -> Result<
    Seq<ConstraintModel>,
    ReleaseParseModel,
>
    decreases s.len() - p,
{
    let k = field_end(s, p, '&');
    match constraint_text(s.subrange(p, k)) {
        Err(e) => Err(e),
        Ok(c) => if 0 <= p <= k < s.len() {
            match constraints_from(s, k + 1) {
                Ok(rest) => Ok(seq![c] + rest),
                Err(e) => Err(e),
            }
        } else {
            Ok(seq![c])
        },
    }
}

/// A dependency written as `NAME:CONSTRAINTS`.
pub open spec fn dependency_text(d: Seq<char>) -> Result<DependencyModel, ReleaseParseModel> {
    match split_once(d, ':') {
        None => Err(ReleaseParseModel::MissingColon),
        Some((name, cs)) => match constraints_from(cs, 0) {
            Err(e) => Err(e),
            Ok(v) => match gem_name_verdict(name) {
                Ok(_) => Ok(
                    DependencyModel { name: name, requirement: RequirementModel { constraints: v } },
                ),
                Err(ge) => Err(ReleaseParseModel::InvalidDependency(name, ge)),
            },
        },
    }
}

/// The dependencies of `s` from `p` on, separated by `,`.
pub open spec fn dependencies_from(s: Seq<char>, p: int) -> Result<
    Seq<DependencyModel>,
    ReleaseParseModel,
>
    decreases s.len() - p,
{
    let k = field_end(s, p, ',');
    match dependency_text(s.subrange(p, k)) {
        Err(e) => Err(e),
        Ok(d) => if 0 <= p <= k < s.len() {
            match dependencies_from(s, k + 1) {
                Ok(rest) => Ok(seq![d] + rest),
                Err(e) => Err(e),
            }
        } else {
            Ok(seq![d])
        },
    }
}

/// The dependency list of a line: empty, or comma-separated dependencies.
pub open spec fn dependency_list(s: Seq<char>) -> Result<Seq<DependencyModel>, ReleaseParseModel> {
    if s.len() == 0 {
        Ok(seq![])
    } else {
        dependencies_from(s, 0)
    }
}

/// The metadata `m` after reading the field `f` (`KEY:VALUE`). Unknown keys,
/// and the keys `executables`, `licenses` and `published_at`, leave it as it
/// was; an empty field is skipped.
pub open spec fn metadata_field(m: MetadataModel, f: Seq<char>) -> Result<
    MetadataModel,
    ReleaseParseModel,
> {
    if f.len() == 0 {
        Ok(m)
    } else {
        match split_once(f, ':') {
            None => Err(ReleaseParseModel::MissingMetadataColon(f)),
            Some((k, v)) => if k == "checksum"@ {
                match hex_decoding(encode_utf8(v)) {
                    Ok(bytes) => Ok(MetadataModel { checksum: bytes, ..m }),
                    Err(h) => Err(ReleaseParseModel::InvalidChecksum(h, f)),
                }
            } else if k == "ruby"@ {
                match constraints_from(v, 0) {
                    Ok(cs) => Ok(MetadataModel { ruby: RequirementModel { constraints: cs }, ..m }),
                    Err(e) => Err(ReleaseParseModel::MetadataConstraintParse(Box::new(e), f)),
                }
            } else if k == "rubygems"@ {
                match constraints_from(v, 0) {
                    Ok(cs) => Ok(
                        MetadataModel { rubygems: RequirementModel { constraints: cs }, ..m },
                    ),
                    Err(e) => Err(ReleaseParseModel::MetadataConstraintParse(Box::new(e), f)),
                }
            } else if k == "created_at"@ {
                Ok(MetadataModel { created_at: Some(v), ..m })
            } else {
                Ok(m)
            },
        }
    }
}

/// The metadata fields of `s` from `p` on, separated by `,`, read into `m`.
pub open spec fn metadata_from(s: Seq<char>, p: int, m: MetadataModel) -> Result<
    MetadataModel,
    ReleaseParseModel,
>
    decreases s.len() - p,
{
    let k = field_end(s, p, ',');
    match metadata_field(m, s.subrange(p, k)) {
        Err(e) => Err(e),
        Ok(m2) => if 0 <= p <= k < s.len() {
            metadata_from(s, k + 1, m2)
        } else {
            Ok(m2)
        },
    }
}

/// A release line: `VERSION[-PLATFORM] DEPS|METADATA`. Its parts are read
/// in this order: the space, the pipe, the dependencies, the metadata, then
/// the version and platform.
pub open spec fn release_line(line: Seq<char>) -> Result<GemReleaseModel, ReleaseParseModel> {
    match split_once(line, ' ') {
        None => Err(ReleaseParseModel::MissingSpace),
        Some((v, rest)) => match split_once(rest, '|') {
            None => Err(ReleaseParseModel::MissingPipe),
            Some((deps, md)) => match dependency_list(deps) {
                Err(e) => Err(e),
                Ok(ds) => match metadata_from(md, 0, empty_metadata()) {
                    Err(e) => Err(e),
                    Ok(m) => match version_platform_text(v) {
                        None => Err(ReleaseParseModel::InvalidRelease(v)),
                        Some(vp) => Ok(
                            GemReleaseModel { version_platform: vp, deps: ds, metadata: m },
                        ),
                    },
                },
            },
        },
    }
}

} // verus!

verus! {

/// The result `r` is the one that `m` describes.
pub open spec fn agrees<T: DeepView>(r: Result<T, GemReleaseParse>, m: Result<T::V, ReleaseParseModel>) -> bool {
    match (r, m) {
        (Ok(v), Ok(mv)) => v.deep_view() == mv,
        (Err(e), Err(me)) => e.deep_view() == me,
        _ => false,
    }
}

/// `xs` in front of what `r` holds, or the error of `r`.
pub open spec fn prepend<T>(xs: Seq<T>, r: Result<Seq<T>, ReleaseParseModel>) -> Result<
    Seq<T>,
    ReleaseParseModel,
> {
    match r {
        Ok(v) => Ok(xs + v),
        Err(e) => Err(e),
    }
}

/// Reads a version constraint written as `OP VERSION`; the empty text is
/// `>= 0`.
pub fn parse_version_constraint(constr: &str) -> (r: Result<VersionConstraint, GemReleaseParse>)
    ensures
        agrees(r, constraint_text(constr@)),
{
    if constr.is_empty() {
        return Ok(VersionConstraint::any_version());
    }
    let (op, v) = match split_once_char(constr, ' ') {
        Some(x) => x,
        None => return Err(GemReleaseParse::MissingSpace),
    };
    let operator = match ComparisonOperator::from_text(op) {
        Some(o) => o,
        None => return Err(GemReleaseParse::UnknownSemverType(op.to_owned())),
    };
    let version = match Version::from_text(v) {
        Ok(v) => v,
        Err(e) => return Err(GemReleaseParse::InvalidVersion(e)),
    };
    Ok(VersionConstraint { operator, version })
}

/// Reads constraints separated by `&`.
pub fn parse_constraints(text: &str) -> (r: Result<Vec<VersionConstraint>, GemReleaseParse>)
    ensures
        agrees(r, constraints_from(text@, 0)),
{
    let cs = chars_of(text);
    let n = cs.len();
    let mut out: Vec<VersionConstraint> = Vec::new();
    let mut p: usize = 0;
    loop
        invariant
            cs@ == text@,
            n == cs@.len(),
            p <= n,
            constraints_from(text@, 0) == prepend(out.deep_view(), constraints_from(text@, p as int)),
        decreases n - p,
    {
        let k = match find_char(cs.as_slice(), p, '&') {
            Some(k) => k,
            None => n,
        };
        let piece = text.substring_char(p, k);
        let c = match parse_version_constraint(piece) {
            Ok(c) => c,
            Err(e) => return Err(e),
        };
        let ghost before = out.deep_view();
        let ghost cv = c.deep_view();
        out.push(c);
        assert(out.deep_view() =~= before + seq![cv]);
        if k >= n {
            assert(prepend(before, Ok(seq![cv])) == Ok::<Seq<ConstraintModel>, ReleaseParseModel>(out.deep_view()));
            return Ok(out);
        }
        proof {
            match constraints_from(text@, k + 1) {
                Ok(rest) => {
                    assert(before + (seq![cv] + rest) =~= out.deep_view() + rest);
                },
                Err(_) => {},
            }
        }
        p = k + 1;
    }
}

/// Reads a dependency written as `NAME:CONSTRAINTS`.
pub fn parse_dependency(dep: &str) -> (r: Result<ProjectDependency, GemReleaseParse>)
    ensures
        agrees(r, dependency_text(dep@)),
{
    let (name, constraints) = match split_once_char(dep, ':') {
        Some(x) => x,
        None => return Err(GemReleaseParse::MissingColon),
    };
    let version_constraints = match parse_constraints(constraints) {
        Ok(v) => v,
        Err(e) => return Err(e),
    };
    match validate_gem_name(name) {
        Ok(()) => Ok(
            ProjectDependency {
                name: name.to_owned(),
                requirement: Requirement { constraints: version_constraints },
            },
        ),
        Err(error) => Err(
            GemReleaseParse::InvalidDependency(
                ProjectDependencyError::InvalidName { name: name.to_owned(), error },
            ),
        ),
    }
}

/// Reads the dependency list of a line: empty, or comma-separated
/// dependencies.
pub fn parse_dependencies(text: &str) -> (r: Result<Vec<ProjectDependency>, GemReleaseParse>)
    ensures
        agrees(r, dependency_list(text@)),
{
    if text.is_empty() {
        let v: Vec<ProjectDependency> = Vec::new();
        assert(v.deep_view() =~= seq![]);
        return Ok(v);
    }
    let cs = chars_of(text);
    let n = cs.len();
    let mut out: Vec<ProjectDependency> = Vec::new();
    let mut p: usize = 0;
    assert(out.deep_view() =~= seq![]);
    loop
        invariant
            cs@ == text@,
            n == cs@.len(),
            n > 0,
            p <= n,
            dependencies_from(text@, 0) == prepend(out.deep_view(), dependencies_from(text@, p as int)),
        decreases n - p,
    {
        let k = match find_char(cs.as_slice(), p, ',') {
            Some(k) => k,
            None => n,
        };
        let piece = text.substring_char(p, k);
        let d = match parse_dependency(piece) {
            Ok(d) => d,
            Err(e) => return Err(e),
        };
        let ghost before = out.deep_view();
        let ghost dv = d.deep_view();
        out.push(d);
        assert(out.deep_view() =~= before + seq![dv]);
        if k >= n {
            return Ok(out);
        }
        proof {
            match dependencies_from(text@, k + 1) {
                Ok(rest) => {
                    assert(before + (seq![dv] + rest) =~= out.deep_view() + rest);
                },
                Err(_) => {},
            }
        }
        p = k + 1;
    }
}

/// Reads one metadata field into `out`.
fn read_metadata_field(out: &mut Metadata, field: &str) -> (r: Result<(), GemReleaseParse>)
    ensures
        match (r, metadata_field(old(out).deep_view(), field@)) {
            (Ok(()), Ok(m)) => final(out).deep_view() == m,
            (Err(e), Err(me)) => e.deep_view() == me,
            _ => false,
        },
{
    if field.is_empty() {
        return Ok(());
    }
    let (k, v) = match split_once_char(field, ':') {
        Some(x) => x,
        None => return Err(GemReleaseParse::MissingMetadataColon(field.to_owned())),
    };
    if str_eq(k, "checksum") {
        match hex_decode(v) {
            Ok(bytes) => {
                out.checksum = bytes;
                Ok(())
            },
            Err(source) => Err(
                GemReleaseParse::InvalidChecksum { source, metadata: field.to_owned() },
            ),
        }
    } else if str_eq(k, "ruby") {
        match parse_constraints(v) {
            Ok(constraints) => {
                out.ruby = Requirement { constraints };
                Ok(())
            },
            Err(e) => Err(
                GemReleaseParse::MetadataConstraintParse {
                    source: Box::new(e),
                    metadata: field.to_owned(),
                },
            ),
        }
    } else if str_eq(k, "rubygems") {
        match parse_constraints(v) {
            Ok(constraints) => {
                out.rubygems = Requirement { constraints };
                Ok(())
            },
            Err(e) => Err(
                GemReleaseParse::MetadataConstraintParse {
                    source: Box::new(e),
                    metadata: field.to_owned(),
                },
            ),
        }
    } else if str_eq(k, "created_at") {
        out.created_at = Some(v.to_owned());
        Ok(())
    } else {
        Ok(())
    }
}

/// Reads the comma-separated metadata fields of a release line.
pub fn parse_metadata(metadata: &str) -> (r: Result<Metadata, GemReleaseParse>)
    ensures
        agrees(r, metadata_from(metadata@, 0, empty_metadata())),
{
    let cs = chars_of(metadata);
    let n = cs.len();
    let mut out = Metadata::default();
    let mut p: usize = 0;
    loop
        invariant
            cs@ == metadata@,
            n == cs@.len(),
            p <= n,
            metadata_from(metadata@, 0, empty_metadata()) == metadata_from(
                metadata@,
                p as int,
                out.deep_view(),
            ),
        decreases n - p,
    {
        let k = match find_char(cs.as_slice(), p, ',') {
            Some(k) => k,
            None => n,
        };
        let field = metadata.substring_char(p, k);
        match read_metadata_field(&mut out, field) {
            Ok(()) => {},
            Err(e) => return Err(e),
        }
        if k >= n {
            return Ok(out);
        }
        p = k + 1;
    }
}

impl GemRelease {
    /// Reads a release line such as
    /// `2.2.2 actionmailer:= 2.2.2,rake:>= 0.8.3|checksum:84fd…,ruby:>= 1.8.7`.
    pub fn parse(line: &str) -> (r: Result<GemRelease, GemReleaseParse>)
        ensures
            agrees(r, release_line(line@)),
    {
        let (version, rest) = match split_once_char(line, ' ') {
            Some(x) => x,
            None => return Err(GemReleaseParse::MissingSpace),
        };
        let (deps, metadata) = match split_once_char(rest, '|') {
            Some(x) => x,
            None => return Err(GemReleaseParse::MissingPipe),
        };
        let deps = match parse_dependencies(deps) {
            Ok(d) => d,
            Err(e) => return Err(e),
        };
        let metadata = match parse_metadata(metadata) {
            Ok(m) => m,
            Err(e) => return Err(e),
        };
        let version_platform = match VersionPlatform::from_text(version) {
            Some(vp) => vp,
            None => return Err(GemReleaseParse::InvalidRelease(version.to_owned())),
        };
        Ok(GemRelease { version_platform, deps, metadata })
    }
}

} // verus!

verus! {

impl GemRelease {
    pub fn version_platform(&self) -> (vp: &VersionPlatform)
        ensures
            vp == &self.version_platform,
    {
        &self.version_platform
    }

    pub fn version(&self) -> (v: &Version)
        ensures
            v == &self.version_platform.version,
    {
        &self.version_platform.version
    }

    pub fn platform(&self) -> (p: &Platform)
        ensures
            p == &self.version_platform.platform,
    {
        &self.version_platform.platform
    }

    /// The version and platform as text, such as `1.19.0-arm64-darwin`.
    pub fn full_name(&self) -> (t: String)
        ensures
            t@ == crate::gem_types::version_platform_string(self.version_platform.deep_view()),
    {
        self.version_platform.to_text()
    }
}

/// A platform that releases for this machine may have: `ruby`, or one of
/// `local`.
pub open spec fn is_local_platform(p: PlatformModel, local: Seq<PlatformModel>) -> bool {
    p == crate::gem_types::ruby_platform_model() || local.contains(p)
}

/// `l` without a `\r` at its end.
pub open spec fn strip_cr(l: Seq<char>) -> Seq<char> {
    if l.len() > 0 && l.last() == '\r' {
        l.drop_last()
    } else {
        l
    }
}

/// What one line of a response body contributes: nothing for `---` and for
/// a release whose platform is not local, the release otherwise.
pub open spec fn line_releases(line: Seq<char>, local: Seq<PlatformModel>) -> Result<
    Seq<GemReleaseModel>,
    ReleaseParseModel,
> {
    if line == "---"@ {
        Ok(seq![])
    } else {
        match release_line(line) {
            Err(e) => Err(e),
            Ok(r) => if is_local_platform(r.version_platform.platform, local) {
                Ok(seq![r])
            } else {
                Ok(seq![])
            },
        }
    }
}

/// The releases of the lines of `s` from `p` on, as `str::lines` splits them;
/// the first line that cannot be read is the error.
pub open spec fn releases_from(s: Seq<char>, p: int, local: Seq<PlatformModel>) -> Result<
    Seq<GemReleaseModel>,
    ReleaseParseModel,
>
    decreases s.len() - p,
{
    if p < 0 || p >= s.len() {
        Ok(seq![])
    } else {
        let next = find_from(s, p, '\n');
        let line = match next {
            Some(k) => strip_cr(s.subrange(p, k)),
            None => s.subrange(p, s.len() as int),
        };
        match line_releases(line, local) {
            Err(e) => Err(e),
            Ok(kept) => match next {
                Some(k) => if p <= k < s.len() {
                    prepend(kept, releases_from(s, k + 1, local))
                } else {
                    Ok(kept)
                },
                None => Ok(kept),
            },
        }
    }
}

/// The platform is `ruby` or one of `local`.
pub fn is_local(p: &Platform, local: &[Platform]) -> (b: bool)
    ensures
        b == is_local_platform(p.deep_view(), local.deep_view()),
{
    if p.is_ruby() {
        return true;
    }
    let ghost lv = local.deep_view();
    let mut i: usize = 0;
    while i < local.len()
        invariant
            i <= local@.len(),
            lv == local.deep_view(),
            forall|j: int| 0 <= j < i ==> lv[j] != p.deep_view(),
        decreases local@.len() - i,
    {
        if local[i].same_as(p) {
            assert(lv[i as int] == p.deep_view());
            assert(lv.contains(p.deep_view()));
            return true;
        }
        i = i + 1;
    }
    assert(!lv.contains(p.deep_view()));
    false
}

/// What one line of a response body contributes.
fn releases_of_line(line: &str, local: &[Platform]) -> (r: Result<Vec<GemRelease>, GemReleaseParse>)
    ensures
        agrees(r, line_releases(line@, local.deep_view())),
{
    let mut out: Vec<GemRelease> = Vec::new();
    assert(out.deep_view() =~= seq![]);
    if str_eq(line, "---") {
        return Ok(out);
    }
    let release = match GemRelease::parse(line) {
        Ok(r) => r,
        Err(e) => return Err(e),
    };
    if is_local(release.platform(), local) {
        let ghost rv = release.deep_view();
        out.push(release);
        assert(out.deep_view() =~= seq![rv]);
    }
    Ok(out)
}

/// Given a response body from the server `SERVER/info/GEM_NAME`, reads it
/// into a list of releases, keeping those built for `local_platforms` or for
/// pure Ruby.
pub fn parse_release_from_body(index_body: &str, local_platforms: &[Platform]) -> (r: Result<
    Vec<GemRelease>,
    GemReleaseParse,
>)
    ensures
        agrees(r, releases_from(index_body@, 0, local_platforms.deep_view())),
{
    let cs = chars_of(index_body);
    let n = cs.len();
    let mut out: Vec<GemRelease> = Vec::new();
    let mut p: usize = 0;
    let ghost local = local_platforms.deep_view();
    assert(out.deep_view() =~= seq![]);
    assert(out.deep_view() + seq![] =~= out.deep_view());
    loop
        invariant
            cs@ == index_body@,
            n == cs@.len(),
            p <= n,
            local == local_platforms.deep_view(),
            releases_from(index_body@, 0, local) == prepend(
                out.deep_view(),
                releases_from(index_body@, p as int, local),
            ),
        decreases n - p,
    {
        if p >= n {
            assert(out.deep_view() + seq![] =~= out.deep_view());
            return Ok(out);
        }
        let next = find_char(cs.as_slice(), p, '\n');
        let mut end = match next {
            Some(k) => k,
            None => n,
        };
        if next.is_some() && end > p && cs[end - 1] == '\r' {
            end = end - 1;
        }
        let line = index_body.substring_char(p, end);
        proof {
            match find_from(index_body@, p as int, '\n') {
                Some(k) => {
                    assert(strip_cr(index_body@.subrange(p as int, k)) =~= line@);
                },
                None => {},
            }
        }
        let kept = match releases_of_line(line, local_platforms) {
            Ok(k) => k,
            Err(e) => return Err(e),
        };
        let ghost before = out.deep_view();
        let ghost kept_view = kept.deep_view();
        let mut kept = kept;
        out.append(&mut kept);
        assert(out.deep_view() =~= before + kept_view);
        match next {
            Some(k) => {
                proof {
                    match releases_from(index_body@, k + 1, local) {
                        Ok(rest) => {
                            assert(before + (kept_view + rest) =~= out.deep_view() + rest);
                        },
                        Err(_) => {},
                    }
                }
                p = k + 1;
            },
            None => {
                assert(out.deep_view() + seq![] =~= out.deep_view());
                return Ok(out);
            },
        }
    }
}

/// How many times `c` occurs in `s`.
pub open spec fn count_char(s: Seq<char>, c: char) -> nat
    decreases s.len(),
{
    if s.len() == 0 {
        0
    } else {
        count_char(s.drop_last(), c) + if s.last() == c {
            1nat
        } else {
            0nat
        }
    }
}

proof fn lemma_count_char_add(a: Seq<char>, b: Seq<char>, c: char)
    ensures
        count_char(a + b, c) == count_char(a, c) + count_char(b, c),
    decreases b.len(),
{
    if b.len() == 0 {
        assert(a + b =~= a);
    } else {
        lemma_count_char_add(a, b.drop_last(), c);
        assert((a + b).drop_last() =~= a + b.drop_last());
    }
}

proof fn lemma_count_char_none(a: Seq<char>, c: char)
    requires
        forall|i: int| 0 <= i < a.len() ==> a[i] != c,
    ensures
        count_char(a, c) == 0,
    decreases a.len(),
{
    if a.len() > 0 {
        lemma_count_char_none(a.drop_last(), c);
    }
}

/// Each `&`-separated part of a constraint list gives one constraint: a
/// list that is read holds one more constraint than the text has `&`.
pub proof fn lemma_constraints_one_per_part(s: Seq<char>, p: int)
    requires
        0 <= p <= s.len(),
    ensures
        constraints_from(s, p) matches Ok(cs) ==> cs.len() == count_char(
            s.subrange(p, s.len() as int),
            '&',
        ) + 1,
    decreases s.len() - p,
{
    let k = field_end(s, p, '&');
    crate::text::lemma_find_from(s, p, '&');
    assert forall|i: int| 0 <= i < k - p implies s.subrange(p, k)[i] != '&' by {
        assert(s.subrange(p, k)[i] == s[p + i]);
    }
    lemma_count_char_none(s.subrange(p, k), '&');
    if 0 <= p <= k < s.len() {
        lemma_constraints_one_per_part(s, k + 1);
        let tail = s.subrange(k + 1, s.len() as int);
        assert(s.subrange(p, s.len() as int) =~= s.subrange(p, k) + (seq!['&'] + tail));
        lemma_count_char_add(s.subrange(p, k), seq!['&'] + tail, '&');
        lemma_count_char_add(seq!['&'], tail, '&');
        assert(count_char(seq!['&'], '&') == 1) by {
            let one = seq!['&'];
            assert(one.drop_last() =~= Seq::<char>::empty());
            assert(count_char(one.drop_last(), '&') == 0);
            assert(one.last() == '&');
        }
    } else {
        assert(k == s.len());
        assert(s.subrange(p, s.len() as int) =~= s.subrange(p, k));
    }
}

/// A `ruby:` metadata field sets the Ruby requirement to the constraints of
/// its value, one for each `&`-separated part and in order, and leaves the
/// rest of the metadata as it was.
pub proof fn lemma_ruby_metadata_field(m: MetadataModel, v: Seq<char>)
    ensures
        metadata_field(m, "ruby:"@ + v) matches Ok(m2) ==> {
            &&& constraints_from(v, 0) matches Ok(cs)
            &&& m2.ruby.constraints == cs
            &&& m2.ruby.constraints.len() == count_char(v, '&') + 1
            &&& m2.rubygems == m.rubygems
            &&& m2.checksum == m.checksum
            &&& m2.created_at == m.created_at
        },
{
    reveal_strlit("ruby:");
    reveal_strlit("ruby");
    reveal_strlit("checksum");
    let f = "ruby:"@ + v;
    crate::text::lemma_find_from(f, 0, ':');
    assert(f[4] == ':');
    assert(forall|i: int| 0 <= i < 4 ==> f[i] != ':');
    assert(crate::text::find_from(f, 0, ':') == Some(4int));
    assert(f.subrange(0, 4) =~= "ruby"@);
    assert(f.subrange(5, f.len() as int) =~= v);
    assert("ruby"@ != "checksum"@) by {
        assert("ruby"@.len() != "checksum"@.len());
    }
    lemma_constraints_one_per_part(v, 0);
    assert(v.subrange(0, v.len() as int) =~= v);
}

/// A `rubygems:` metadata field sets the RubyGems requirement to the
/// constraints of its value, one for each `&`-separated part and in order,
/// and leaves the rest of the metadata as it was.
pub proof fn lemma_rubygems_metadata_field(m: MetadataModel, v: Seq<char>)
    ensures
        metadata_field(m, "rubygems:"@ + v) matches Ok(m2) ==> {
            &&& constraints_from(v, 0) matches Ok(cs)
            &&& m2.rubygems.constraints == cs
            &&& m2.rubygems.constraints.len() == count_char(v, '&') + 1
            &&& m2.ruby == m.ruby
            &&& m2.checksum == m.checksum
            &&& m2.created_at == m.created_at
        },
{
    reveal_strlit("rubygems:");
    reveal_strlit("rubygems");
    reveal_strlit("ruby");
    reveal_strlit("checksum");
    let f = "rubygems:"@ + v;
    crate::text::lemma_find_from(f, 0, ':');
    assert(f[8] == ':');
    assert(forall|i: int| 0 <= i < 8 ==> f[i] != ':');
    assert(crate::text::find_from(f, 0, ':') == Some(8int));
    assert(f.subrange(0, 8) =~= "rubygems"@);
    assert(f.subrange(9, f.len() as int) =~= v);
    assert("rubygems"@ != "checksum"@ && "rubygems"@ != "ruby"@) by {
        assert("rubygems"@.len() != "ruby"@.len());
        assert("rubygems"@[1] != "checksum"@[1]);
    }
    lemma_constraints_one_per_part(v, 0);
    assert(v.subrange(0, v.len() as int) =~= v);
}

/// A dependency `NAME:CONSTRAINTS` that is read has that name and one
/// constraint for each `&`-separated part of its constraints, in order.
pub proof fn lemma_dependency_text(name: Seq<char>, c: Seq<char>)
    requires
        forall|i: int| 0 <= i < name.len() ==> name[i] != ':',
    ensures
        dependency_text(name + seq![':'] + c) matches Ok(d) ==> {
            &&& d.name == name
            &&& constraints_from(c, 0) matches Ok(cs)
            &&& d.requirement.constraints == cs
            &&& d.requirement.constraints.len() == count_char(c, '&') + 1
        },
{
    let t = name + seq![':'] + c;
    crate::text::lemma_find_from(t, 0, ':');
    assert(t[name.len() as int] == ':');
    assert(forall|i: int| 0 <= i < name.len() ==> t[i] == name[i]);
    assert(crate::text::find_from(t, 0, ':') == Some(name.len() as int));
    assert(t.subrange(0, name.len() as int) =~= name);
    assert(t.subrange(name.len() as int + 1, t.len() as int) =~= c);
    lemma_constraints_one_per_part(c, 0);
    assert(c.subrange(0, c.len() as int) =~= c);
}

/// Every dependency read from a dependency list names a valid gem.
pub proof fn lemma_dependencies_valid(s: Seq<char>, p: int)
    ensures
        dependencies_from(s, p) matches Ok(ds) ==> forall|i: int|
            0 <= i < ds.len() ==> is_valid_gem_name(#[trigger] ds[i].name),
    decreases s.len() - p,
{
    let k = field_end(s, p, ',');
    if 0 <= p <= k < s.len() {
        lemma_dependencies_valid(s, k + 1);
    }
    if let Ok(ds) = dependencies_from(s, p) {
        assert forall|i: int| 0 <= i < ds.len() implies is_valid_gem_name(#[trigger] ds[i].name) by {
            if i > 0 {
                let rest = dependencies_from(s, k + 1)->Ok_0;
                assert(ds[i] == rest[i - 1]);
            }
        }
    }
}

/// The releases read from a response body are built for the given platforms
/// or for pure Ruby, and every dependency of each names a valid gem.
pub proof fn lemma_releases_local_and_valid(s: Seq<char>, p: int, local: Seq<PlatformModel>)
    ensures
        releases_from(s, p, local) matches Ok(rs) ==> forall|i: int|
            0 <= i < rs.len() ==> is_local_platform(
                (#[trigger] rs[i]).version_platform.platform,
                local,
            ) && forall|j: int|
                0 <= j < rs[i].deps.len() ==> is_valid_gem_name(#[trigger] rs[i].deps[j].name),
    decreases s.len() - p,
{
    if 0 <= p < s.len() {
        let next = find_from(s, p, '\n');
        let line = match next {
            Some(k) => strip_cr(s.subrange(p, k)),
            None => s.subrange(p, s.len() as int),
        };
        if let Some(k) = next {
            if p <= k < s.len() {
                lemma_releases_local_and_valid(s, k + 1, local);
            }
        }
        if let Ok(rs) = releases_from(s, p, local) {
            let kept = line_releases(line, local)->Ok_0;
            if kept.len() > 0 {
                let r = release_line(line)->Ok_0;
                let (v, rest) = split_once(line, ' ')->Some_0;
                let (deps, md) = split_once(rest, '|')->Some_0;
                if deps.len() > 0 {
                    lemma_dependencies_valid(deps, 0);
                }
                assert(kept =~= seq![r]);
            }
            assert forall|i: int| 0 <= i < rs.len() implies is_local_platform(
                (#[trigger] rs[i]).version_platform.platform,
                local,
            ) && forall|j: int|
                0 <= j < rs[i].deps.len() ==> is_valid_gem_name(#[trigger] rs[i].deps[j].name) by {
                if i >= kept.len() {
                    let k = next->Some_0;
                    let rest = releases_from(s, k + 1, local)->Ok_0;
                    assert(rs == kept + rest);
                    assert(rs[i] == rest[i - kept.len()]);
                } else {
                    assert(rs[i] == kept[i]);
                }
            }
        }
    }
}

/// The names of the dependencies of the releases, release by release.
pub open spec fn dependency_names(rs: Seq<GemReleaseModel>) -> Seq<Seq<char>>
    decreases rs.len(),
{
    if rs.len() == 0 {
        seq![]
    } else {
        dependency_names(rs.drop_last()) + rs.last().deps.map_values(|d: DependencyModel| d.name)
    }
}

/// The names of the dependencies of the releases of a gem, release by
/// release: the gems to ask the server about next.
pub fn transitive_dependency_names(releases: &[GemRelease]) -> (names: Vec<String>)
    ensures
        names.deep_view() == dependency_names(releases.deep_view()),
{
    let ghost rs = releases.deep_view();
    let mut names: Vec<String> = Vec::new();
    let mut i: usize = 0;
    assert(rs.take(0) =~= seq![]);
    assert(names.deep_view() =~= seq![]);
    while i < releases.len()
        invariant
            i <= rs.len(),
            rs == releases.deep_view(),
            names.deep_view() == dependency_names(rs.take(i as int)),
        decreases rs.len() - i,
    {
        let deps = &releases[i].deps;
        let ghost before = names.deep_view();
        let ghost ds = rs[i as int].deps;
        assert(ds == deps.deep_view());
        let mut j: usize = 0;
        while j < deps.len()
            invariant
                j <= ds.len(),
                ds == deps.deep_view(),
                names.deep_view() == before + ds.take(j as int).map_values(|d: DependencyModel| d.name),
            decreases ds.len() - j,
        {
            let ghost prev = names.deep_view();
            names.push(deps[j].name.clone());
            assert(names.deep_view() =~= prev.push(ds[j as int].name));
            assert(ds.take(j + 1).map_values(|d: DependencyModel| d.name) =~= ds.take(
                j as int,
            ).map_values(|d: DependencyModel| d.name).push(ds[j as int].name));
            j = j + 1;
        }
        assert(ds.take(ds.len() as int) =~= ds);
        assert(rs.take(i + 1).drop_last() =~= rs.take(i as int));
        i = i + 1;
    }
    assert(rs.take(rs.len() as int) =~= rs);
    names
}

/// After asking for `names` in turn, given the gems asked for so far: the
/// names asked for now (each not asked for before) and all the gems asked
/// for.
pub open spec fn queue_step(seen: Seq<Seq<char>>, names: Seq<Seq<char>>) -> (
    Seq<Seq<char>>,
    Seq<Seq<char>>,
)
    decreases names.len(),
{
    if names.len() == 0 {
        (seq![], seen)
    } else {
        let (queued, now_seen) = queue_step(seen, names.drop_last());
        let n = names.last();
        if now_seen.contains(n) {
            (queued, now_seen)
        } else {
            (queued.push(n), now_seen.push(n))
        }
    }
}

/// The gems the dependency walk has asked for, each once.
pub struct RequestLog {
    requested: Vec<String>,
}

impl View for RequestLog {
    type V = Seq<Seq<char>>;

    closed spec fn view(&self) -> Seq<Seq<char>> {
        self.requested.deep_view()
    }
}

impl RequestLog {
    /// No gem is recorded twice.
    pub closed spec fn wf(&self) -> bool {
        self.view().no_duplicates()
    }

    /// A log of no requests.
    pub fn new() -> (log: RequestLog)
        ensures
            log.wf(),
            log.view() == Seq::<Seq<char>>::empty(),
    {
        let log = RequestLog { requested: Vec::new() };
        assert(log.view() =~= Seq::<Seq<char>>::empty());
        log
    }

    /// Whether `name` was asked for.
    pub fn contains(&self, name: &str) -> (b: bool)
        ensures
            b == self.view().contains(name@),
    {
        let ghost v = self.view();
        let mut i: usize = 0;
        while i < self.requested.len()
            invariant
                i <= v.len(),
                v == self.view(),
                forall|j: int| 0 <= j < i ==> v[j] != name@,
            decreases v.len() - i,
        {
            if str_eq(self.requested[i].as_str(), name) {
                assert(v[i as int] == name@);
                return true;
            }
            i = i + 1;
        }
        false
    }

    /// Records the gems in `names` that were not asked for yet, and returns
    /// them, in order, each once: the requests to send.
    pub fn queue_new(&mut self, names: Vec<String>) -> (queued: Vec<String>)
        requires
            old(self).wf(),
        ensures
            final(self).wf(),
            (queued.deep_view(), final(self).view()) == queue_step(
                old(self).view(),
                names.deep_view(),
            ),
    {
        let ghost ns = names.deep_view();
        let ghost start = self.view();
        let mut queued: Vec<String> = Vec::new();
        let mut i: usize = 0;
        assert(ns.take(0) =~= seq![]);
        assert(queued.deep_view() =~= seq![]);
        while i < names.len()
            invariant
                i <= ns.len(),
                ns == names.deep_view(),
                self.wf(),
                (queued.deep_view(), self.view()) == queue_step(start, ns.take(i as int)),
            decreases ns.len() - i,
        {
            let name = &names[i];
            assert(ns.take(i + 1).drop_last() =~= ns.take(i as int));
            assert(ns.take(i + 1).last() == name@);
            if !self.contains(name.as_str()) {
                let ghost q = queued.deep_view();
                let ghost v = self.view();
                queued.push(name.clone());
                self.requested.push(name.clone());
                assert(queued.deep_view() =~= q.push(name@));
                assert(self.view() =~= v.push(name@));
                assert(self.view().no_duplicates()) by {
                    assert forall|a: int, b: int| 0 <= a < b < self.view().len() implies self.view()[a] != self.view()[b] by {
                        if b == v.len() {
                            assert(v.contains(v[a]));
                        }
                    }
                }
            }
            i = i + 1;
        }
        assert(ns.take(ns.len() as int) =~= ns);
        queued
    }
}

/// Each gem is asked for at most once: what is queued was not asked for
/// before, is queued once, and is recorded; every name offered ends up
/// recorded; and the record keeps each gem once.
pub proof fn lemma_queue_step(seen: Seq<Seq<char>>, names: Seq<Seq<char>>)
    requires
        seen.no_duplicates(),
    ensures
        queue_step(seen, names).1.no_duplicates(),
        queue_step(seen, names).0.no_duplicates(),
        queue_step(seen, names).1 == seen + queue_step(seen, names).0,
        forall|i: int|
            0 <= i < queue_step(seen, names).0.len() ==> !seen.contains(
                #[trigger] queue_step(seen, names).0[i],
            ),
        forall|i: int|
            0 <= i < names.len() ==> queue_step(seen, names).1.contains(#[trigger] names[i]),
    decreases names.len(),
{
    if names.len() > 0 {
        let prev = names.drop_last();
        lemma_queue_step(seen, prev);
        let (q, s) = queue_step(seen, prev);
        let n = names.last();
        if !s.contains(n) {
            assert(s.push(n) =~= seen + q.push(n));
            assert forall|a: int, b: int| 0 <= a < b < s.push(n).len() implies s.push(n)[a] != s.push(n)[b] by {
                if b == s.len() {
                    assert(s.contains(s[a]));
                }
            }
            assert forall|a: int, b: int| 0 <= a < b < q.push(n).len() implies q.push(n)[a] != q.push(n)[b] by {
                if b == q.len() {
                    assert(s[seen.len() + a] == q[a]);
                    assert(s.contains(q[a]));
                }
            }
            assert(!seen.contains(n)) by {
                if seen.contains(n) {
                    let j = choose|j: int| 0 <= j < seen.len() && seen[j] == n;
                    assert(s[j] == n);
                }
            }
        }
        assert forall|i: int| 0 <= i < names.len() implies queue_step(seen, names).1.contains(#[trigger] names[i]) by {
            if i < prev.len() {
                assert(prev[i] == names[i]);
                assert(s.contains(prev[i]));
                let j = choose|j: int| 0 <= j < s.len() && s[j] == prev[i];
                if !s.contains(n) {
                    assert(s.push(n)[j] == names[i]);
                }
            } else if !s.contains(n) {
                assert(s.push(n)[s.len() as int] == n);
            }
        }
    }
}

/// The storage key of the compact-index file of `gem`, `info/GEM`, for a
/// valid gem name; the gem name error otherwise.
pub fn info_key(gem: &str) -> (r: Result<String, GemNameError>)
    ensures
        match (r, gem_name_verdict(gem@)) {
            (Ok(k), Ok(_)) => k@ == "info/"@ + gem@,
            (Err(e), Err(me)) => e == me,
            _ => false,
        },
{
    match validate_gem_name(gem) {
        Ok(()) => {
            let mut key = String::from_str("info/");
            key.append(gem);
            Ok(key)
        },
        Err(e) => Err(e),
    }
}

/// Every name queued is one of the names offered.
pub proof fn lemma_queued_were_offered(seen: Seq<Seq<char>>, names: Seq<Seq<char>>)
    ensures
        forall|i: int|
            0 <= i < queue_step(seen, names).0.len() ==> names.contains(
                #[trigger] queue_step(seen, names).0[i],
            ),
    decreases names.len(),
{
    if names.len() > 0 {
        let prev = names.drop_last();
        lemma_queued_were_offered(seen, prev);
        let (q, s) = queue_step(seen, prev);
        assert forall|i: int| 0 <= i < queue_step(seen, names).0.len() implies names.contains(
            #[trigger] queue_step(seen, names).0[i],
        ) by {
            if i < q.len() {
                let k = choose|k: int| 0 <= k < prev.len() && prev[k] == q[i];
                assert(names[k] == prev[k]);
            } else {
                assert(queue_step(seen, names).0[i] == names[names.len() - 1]);
            }
        }
    }
}

/// The state of the walk over the dependencies of a gem: the gems still to
/// ask for, in order; the gems found among dependencies and queued so far,
/// each once; and the gems asked for.
pub struct WalkModel {
    pub queue: Seq<Seq<char>>,
    pub seen: Seq<Seq<char>>,
    pub fetched: Seq<Seq<char>>,
}

/// The walk before any request: the root's dependencies are to be asked
/// for. They are not recorded as found, so one of them that turns up again
/// among dependencies is asked for again.
pub open spec fn walk_start(root: Seq<Seq<char>>) -> WalkModel {
    WalkModel { queue: root, seen: seq![], fetched: seq![] }
}

/// The walk after asking for the next gem.
pub open spec fn walk_pop(w: WalkModel) -> WalkModel {
    WalkModel { queue: w.queue.drop_first(), seen: w.seen, fetched: w.fetched.push(w.queue[0]) }
}

/// The walk after the dependencies `found` of a fetched gem are read: the
/// ones not found before are queued and recorded.
pub open spec fn walk_record(w: WalkModel, found: Seq<Seq<char>>) -> WalkModel {
    let (queued, seen) = queue_step(w.seen, found);
    WalkModel { queue: w.queue + queued, seen: seen, fetched: w.fetched }
}

/// One step: ask for the next gem, whose dependencies are `found`.
pub open spec fn walk_step(w: WalkModel, found: Seq<Seq<char>>) -> WalkModel {
    walk_record(walk_pop(w), found)
}

/// The walk after `k` steps from the root's dependencies, when the
/// dependencies of each gem are `deps`; it stays put once nothing is left.
pub open spec fn walk_run(
    root: Seq<Seq<char>>,
    deps: spec_fn(Seq<char>) -> Seq<Seq<char>>,
    k: nat,
) -> WalkModel
    decreases k,
{
    if k == 0 {
        walk_start(root)
    } else {
        let w = walk_run(root, deps, (k - 1) as nat);
        if w.queue.len() == 0 {
            w
        } else {
            walk_step(w, deps(w.queue[0]))
        }
    }
}

/// `path` leads from a dependency of the root, through dependencies, to
/// its last gem.
pub open spec fn dependency_path(
    root: Seq<Seq<char>>,
    deps: spec_fn(Seq<char>) -> Seq<Seq<char>>,
    path: Seq<Seq<char>>,
) -> bool {
    &&& path.len() > 0
    &&& root.contains(path[0])
    &&& forall|i: int| 0 <= i < path.len() - 1 ==> deps(#[trigger] path[i]).contains(path[i + 1])
}

/// `n` is a dependency of the root, or of such a gem, and so on.
pub open spec fn reachable(
    root: Seq<Seq<char>>,
    deps: spec_fn(Seq<char>) -> Seq<Seq<char>>,
    n: Seq<char>,
) -> bool {
    exists|path: Seq<Seq<char>>| #[trigger] dependency_path(root, deps, path) && path.last() == n
}

/// What every state of the walk keeps: what was asked for and what is still
/// to ask for are, in order, the root's dependencies and then the gems found,
/// each found gem once; every dependency of a gem asked for has been found;
/// and every gem in the walk is reachable from the root.
pub open spec fn walk_inv(
    root: Seq<Seq<char>>,
    deps: spec_fn(Seq<char>) -> Seq<Seq<char>>,
    w: WalkModel,
) -> bool {
    &&& w.fetched + w.queue == root + w.seen
    &&& w.seen.no_duplicates()
    &&& forall|i: int, j: int|
        0 <= i < w.fetched.len() && 0 <= j < deps(w.fetched[i]).len() ==> w.seen.contains(
            #[trigger] deps(w.fetched[i])[j],
        )
    &&& forall|i: int|
        0 <= i < w.fetched.len() + w.queue.len() ==> reachable(
            root,
            deps,
            #[trigger] (w.fetched + w.queue)[i],
        )
}

proof fn lemma_walk_inv(
    root: Seq<Seq<char>>,
    deps: spec_fn(Seq<char>) -> Seq<Seq<char>>,
    k: nat,
)
    ensures
        walk_inv(root, deps, walk_run(root, deps, k)),
    decreases k,
{
    if k == 0 {
        let w = walk_start(root);
        assert(w.fetched + w.queue =~= root + w.seen);
        assert forall|i: int| 0 <= i < w.fetched.len() + w.queue.len() implies reachable(
            root,
            deps,
            #[trigger] (w.fetched + w.queue)[i],
        ) by {
            assert((w.fetched + w.queue)[i] == root[i]);
            let path = seq![root[i]];
            assert(path[0] == root[i]);
            assert(dependency_path(root, deps, path) && path.last() == root[i]);
        }
    } else {
        lemma_walk_inv(root, deps, (k - 1) as nat);
        let w = walk_run(root, deps, (k - 1) as nat);
        if w.queue.len() > 0 {
            let n = w.queue[0];
            let found = deps(n);
            let p = walk_pop(w);
            assert(p.fetched + p.queue =~= w.fetched + w.queue);
            lemma_queue_step(w.seen, found);
            lemma_queued_were_offered(w.seen, found);
            let (q, s) = queue_step(w.seen, found);
            let w2 = walk_record(p, found);
            assert(w2.fetched + w2.queue =~= (p.fetched + p.queue) + q);
            assert(root + s =~= (root + w.seen) + q);
            assert forall|i: int, j: int|
                0 <= i < w2.fetched.len() && 0 <= j < deps(w2.fetched[i]).len() implies w2.seen.contains(
                #[trigger] deps(w2.fetched[i])[j],
            ) by {
                if i < w.fetched.len() {
                    assert(w2.fetched[i] == w.fetched[i]);
                    let d = deps(w.fetched[i])[j];
                    assert(w.seen.contains(d));
                    let t = choose|t: int| 0 <= t < w.seen.len() && w.seen[t] == d;
                    assert(s[t] == d);
                } else {
                    assert(w2.fetched[i] == n);
                    assert(s.contains(found[j]));
                }
            }
            // n is reachable, so every gem it depends on is too.
            assert((w.fetched + w.queue)[w.fetched.len() as int] == n);
            assert(reachable(root, deps, n));
            let pn = choose|path: Seq<Seq<char>>|
                #[trigger] dependency_path(root, deps, path) && path.last() == n;
            assert forall|i: int| 0 <= i < w2.fetched.len() + w2.queue.len() implies reachable(
                root,
                deps,
                #[trigger] (w2.fetched + w2.queue)[i],
            ) by {
                let x = (w2.fetched + w2.queue)[i];
                if i < w.fetched.len() + w.queue.len() {
                    assert(x == (w.fetched + w.queue)[i]);
                } else {
                    let qi = i - (w.fetched.len() + w.queue.len());
                    assert(x == q[qi]);
                    assert(found.contains(x));
                    let px = pn.push(x);
                    assert forall|t: int| 0 <= t < px.len() - 1 implies deps(#[trigger] px[t]).contains(
                        px[t + 1],
                    ) by {
                        if t < pn.len() - 1 {
                            assert(px[t] == pn[t] && px[t + 1] == pn[t + 1]);
                        } else {
                            assert(px[t] == n && px[t + 1] == x);
                        }
                    }
                    assert(px[0] == pn[0]);
                    assert(dependency_path(root, deps, px) && px.last() == x);
                }
            }
        }
    }
}

proof fn lemma_path_fetched(
    root: Seq<Seq<char>>,
    deps: spec_fn(Seq<char>) -> Seq<Seq<char>>,
    w: WalkModel,
    path: Seq<Seq<char>>,
    i: int,
)
    requires
        walk_inv(root, deps, w),
        w.queue.len() == 0,
        dependency_path(root, deps, path),
        0 <= i < path.len(),
    ensures
        w.fetched.contains(path[i]),
    decreases i,
{
    assert(w.fetched + w.queue =~= w.fetched);
    if i == 0 {
        let t = choose|t: int| 0 <= t < root.len() && root[t] == path[0];
        assert((root + w.seen)[t] == path[0]);
    } else {
        lemma_path_fetched(root, deps, w, path, i - 1);
        let m = path[i - 1];
        let n = path[i];
        assert(deps(path[i - 1]).contains(path[(i - 1) + 1]));
        let a = choose|a: int| 0 <= a < w.fetched.len() && w.fetched[a] == m;
        let j = choose|j: int| 0 <= j < deps(m).len() && #[trigger] deps(m)[j] == n;
        assert(w.seen.contains(deps(w.fetched[a])[j]));
        let t = choose|t: int| 0 <= t < w.seen.len() && w.seen[t] == n;
        assert((root + w.seen)[root.len() + t] == n);
    }
}

/// The dependency walk asks, in order, for the root's dependencies and then
/// for each gem found among dependencies, once each: a gem is asked for
/// twice only if the root depends on it directly. Everything it asks for is
/// reachable from the root, and once nothing is left to ask for, it has
/// asked for every reachable gem.
pub proof fn lemma_walk(
    root: Seq<Seq<char>>,
    deps: spec_fn(Seq<char>) -> Seq<Seq<char>>,
    k: nat,
)
    ensures
        ({
            let w = walk_run(root, deps, k);
            &&& w.fetched + w.queue == root + w.seen
            &&& w.seen.no_duplicates()
            &&& forall|i: int|
                0 <= i < w.fetched.len() ==> reachable(root, deps, #[trigger] w.fetched[i])
            &&& w.queue.len() == 0 ==> forall|n: Seq<char>|
                reachable(root, deps, n) ==> #[trigger] w.fetched.contains(n)
        }),
{
    lemma_walk_inv(root, deps, k);
    let w = walk_run(root, deps, k);
    assert forall|i: int| 0 <= i < w.fetched.len() implies reachable(
        root,
        deps,
        #[trigger] w.fetched[i],
    ) by {
        assert((w.fetched + w.queue)[i] == w.fetched[i]);
    }
    if w.queue.len() == 0 {
        assert forall|n: Seq<char>| reachable(root, deps, n) implies #[trigger] w.fetched.contains(
            n,
        ) by {
            let path = choose|path: Seq<Seq<char>>|
                #[trigger] dependency_path(root, deps, path) && path.last() == n;
            lemma_path_fetched(root, deps, w, path, path.len() - 1);
        }
    }
}

/// The dependency walk of a gem: the gems queued so far in order, how many
/// of them were asked for, and the gems found among dependencies.
pub struct DependencyWalk {
    order: Vec<String>,
    next: usize,
    log: RequestLog,
}

impl View for DependencyWalk {
    type V = WalkModel;

    closed spec fn view(&self) -> WalkModel {
        WalkModel {
            queue: self.order.deep_view().subrange(self.next as int, self.order@.len() as int),
            seen: self.log@,
            fetched: self.order.deep_view().subrange(0, self.next as int),
        }
    }
}

impl DependencyWalk {
    pub closed spec fn wf(&self) -> bool {
        self.next <= self.order@.len() && self.log.wf()
    }

    /// The walk that starts with the root's dependencies.
    pub fn new(root: Vec<String>) -> (w: DependencyWalk)
        ensures
            w.wf(),
            w@ == walk_start(root.deep_view()),
    {
        let w = DependencyWalk { order: root, next: 0, log: RequestLog::new() };
        assert(w@.queue =~= w.order.deep_view());
        assert(w@.fetched =~= Seq::<Seq<char>>::empty());
        w
    }

    /// The next gem to ask for, if any is left; it counts as asked for.
    pub fn next_request(&mut self) -> (r: Option<String>)
        requires
            old(self).wf(),
        ensures
            final(self).wf(),
            match r {
                None => old(self)@.queue.len() == 0 && final(self)@ == old(self)@,
                Some(n) => {
                    &&& old(self)@.queue.len() > 0
                    &&& n@ == old(self)@.queue[0]
                    &&& final(self)@ == walk_pop(old(self)@)
                },
            },
    {
        if self.next >= self.order.len() {
            return None;
        }
        let ghost before = self@;
        let n = self.order[self.next].clone();
        self.next = self.next + 1;
        assert(self@.queue =~= before.queue.drop_first());
        assert(self@.fetched =~= before.fetched.push(before.queue[0]));
        Some(n)
    }

    /// Records the dependencies `found` of the gem just fetched: the ones
    /// not found before are queued.
    pub fn record(&mut self, found: Vec<String>)
        requires
            old(self).wf(),
        ensures
            final(self).wf(),
            final(self)@ == walk_record(old(self)@, found.deep_view()),
    {
        let ghost before = self@;
        let mut queued = self.log.queue_new(found);
        let ghost qv = queued.deep_view();
        let ghost ov = self.order.deep_view();
        self.order.append(&mut queued);
        assert(self.order.deep_view() =~= ov + qv);
        assert(self@.queue =~= before.queue + qv);
        assert(self@.fetched =~= before.fetched);
    }
}

/// How to get a gem's index file, given what reading the stored copy gave.
pub enum IndexFetch {
    /// Ask the server for what was added to the stored copy.
    Update(crate::storage::Blob),
    /// Ask the server for the whole file.
    Fetch,
}

/// A stored copy is updated; without one the whole file is fetched.
pub fn index_fetch(stored: Result<crate::storage::Blob, crate::storage::StorageError>) -> (r:
    IndexFetch)
    ensures
        match stored {
            Ok(b) => r matches IndexFetch::Update(x) && x == b,
            Err(_) => r is Fetch,
        },
{
    match stored {
        Ok(b) => IndexFetch::Update(b),
        Err(_) => IndexFetch::Fetch,
    }
}

/// The server answered with no content: the error that an empty response
/// body leads to, which is reported as an empty response.
pub fn is_empty_response(e: &crate::storage::StorageError) -> (b: bool)
    ensures
        b == (*e is EmptyContent),
{
    match e {
        crate::storage::StorageError::EmptyContent => true,
        _ => false,
    }
}

/// The info key of a valid gem name is an accepted storage key: it is
/// relative, holds no `\` or `:`, and its two components, `info` and the gem
/// name, are neither empty nor `.` nor `..`.
pub proof fn lemma_info_key_is_safe(name: Seq<char>)
    requires
        is_valid_gem_name(name),
    ensures
        !crate::storage::key_refused("info/"@ + name),
{
    reveal_strlit("info/");
    let k = "info/"@ + name;
    crate::gem_name::lemma_valid_gem_name_is_plain_component(name);
    assert(k[0] == 'i');
    assert forall|i: int| 0 <= i < k.len() implies #[trigger] k[i] != '\\' && k[i] != ':' by {
        if i >= 5 {
            assert(k[i] == name[i - 5]);
        }
    }
    crate::text::lemma_find_from(k, 0, '/');
    assert(k[4] == '/');
    assert(crate::storage::component_end(k, 0) == 4);
    assert(k.subrange(0, 4) =~= "info"@) by {
        reveal_strlit("info");
    }
    assert(!is_dot_component(k.subrange(0, 4)));
    crate::text::lemma_find_from(k, 5, '/');
    assert forall|j: int| 5 <= j < k.len() implies k[j] != '/' by {
        assert(k[j] == name[j - 5]);
    }
    assert(crate::storage::component_end(k, 5) == k.len());
    assert(k.subrange(5, k.len() as int) =~= name);
    assert(!crate::storage::bad_component_from(k, 5));
    assert(!crate::storage::bad_component_from(k, 0));
    assert(!k.contains('\\'));
    assert(!k.contains(':'));
}

} // verus!
