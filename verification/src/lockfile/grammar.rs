//! The `Gemfile.lock` grammar, as functions from a position in the input to
//! what is read there and where reading stops, or where and why it fails.
//!
//! Every rule that fails reports the position at which its input was left,
//! as the parser leaves it: alternatives and optional parts are retried from
//! their start, and a failure inside a sequence keeps what the sequence had
//! already consumed. The top-level parser reports errors at these positions
//! and resumes after them.

use vstd::prelude::*;
use crate::bindings::{hex_decoding, unicode_whitespace};
use crate::gem_name::is_valid_gem_name;
use crate::gem_types::{
    default_requirement, segment_model, ComparisonOperator, ConstraintModel, DependencyModel,
    PlatformModel, ReleaseTupleModel, RequirementModel, RubyVersionModel, SegmentModel,
    VersionModel,
};
use crate::lockfile::datatypes::{
    BundledWithSectionModel, Cause, ChecksumAlgorithm, ChecksumModel, GemRangeModel,
    GemSectionModel, GitSectionModel, LockModel, LockfileIndentation, PathSectionModel,
    RubyVersionSectionModel, SpecModel,
};
use crate::scan::{digits_value, has_at, run_end, CharClass};
use vstd::utf8::encode_utf8;

verus! {

/// Where a rule failed and why.
pub struct Failure {
    pub pos: int,
    pub cause: Cause,
}

/// What a rule read and where it stopped, or its failure.
pub type PRes<T> = Result<(T, int), Failure>;

pub open spec fn fail<T>(p: int) -> PRes<T> {
    Err(Failure { pos: p, cause: Cause::Grammar })
}

/// A character `c` at `p`.
pub open spec fn is_char_at(s: Seq<char>, p: int, c: char) -> bool {
    0 <= p < s.len() && s[p] == c
}

/// One or more characters of class `cls`, as the span they cover.
pub open spec fn take1(s: Seq<char>, p: int, cls: CharClass) -> PRes<Seq<char>> {
    let q = run_end(s, p, cls);
    if q == p {
        fail(p)
    } else {
        Ok((s.subrange(p, q), q))
    }
}

/// A line ending: `\n` or `\r\n`.
pub open spec fn line_ending(s: Seq<char>, p: int) -> Option<int> {
    if is_char_at(s, p, '\n') {
        Some(p + 1)
    } else if is_char_at(s, p, '\r') && is_char_at(s, p + 1, '\n') {
        Some(p + 2)
    } else {
        None
    }
}

/// A literal, then a line ending.
pub open spec fn literal_line(s: Seq<char>, p: int, lit: Seq<char>) -> Option<int> {
    if has_at(s, p, lit) {
        Some(p + lit.len())
    } else {
        None
    }
}

/// A decimal number that fits in 32 bits.
pub open spec fn number(s: Seq<char>, p: int) -> PRes<u32> {
    match take1(s, p, CharClass::Digit) {
        Err(e) => Err(e),
        Ok((ds, q)) => if digits_value(ds) <= u32::MAX {
            Ok((digits_value(ds) as u32, q))
        } else {
            Err(Failure { pos: p, cause: Cause::NumberTooLarge })
        },
    }
}

/// Further version segments: each a `.` and a run of letters and digits.
pub open spec fn segments_tail(s: Seq<char>, p: int) -> (Seq<SegmentModel>, int)
    decreases s.len() - p,
{
    let q = run_end(s, p + 1, CharClass::Alnum);
    if is_char_at(s, p, '.') && p + 1 < q <= s.len() {
        let (rest, r) = segments_tail(s, q);
        (seq![segment_model(s.subrange(p + 1, q))] + rest, r)
    } else {
        (seq![], p)
    }
}

/// The segments of a version: a number, then further segments.
pub open spec fn segments(s: Seq<char>, p: int) -> PRes<Seq<SegmentModel>> {
    match number(s, p) {
        Err(e) => Err(e),
        Ok((n, q)) => {
            let (rest, r) = segments_tail(s, q);
            Ok((seq![SegmentModel::Number(n)] + rest, r))
        },
    }
}

/// A version: its segments are read ahead, then the version's text is the
/// run of letters, digits and dots at the same place.
pub open spec fn version(s: Seq<char>, p: int) -> PRes<VersionModel> {
    match segments(s, p) {
        Err(e) => Err(Failure { pos: p, cause: e.cause }),
        Ok((segs, _)) => match take1(s, p, CharClass::VersionChar) {
            Err(e) => Err(e),
            Ok((text, q)) => Ok((VersionModel { version: text, segments: segs }, q)),
        },
    }
}

/// A gem name: a run of gem-name characters that is a valid gem name. An
/// invalid one fails after the run.
pub open spec fn gem_name(s: Seq<char>, p: int) -> PRes<Seq<char>> {
    match take1(s, p, CharClass::GemNameChar) {
        Err(e) => Err(e),
        Ok((name, q)) => if is_valid_gem_name(name) {
            Ok((name, q))
        } else {
            fail(q)
        },
    }
}

/// A comparison operator; two-character operators are tried before their
/// one-character prefixes.
pub open spec fn operator(s: Seq<char>, p: int) -> PRes<ComparisonOperator> {
    if has_at(s, p, "!="@) {
        Ok((ComparisonOperator::NotEqual, p + 2))
    } else if has_at(s, p, ">="@) {
        Ok((ComparisonOperator::GreaterThanOrEqual, p + 2))
    } else if has_at(s, p, "<="@) {
        Ok((ComparisonOperator::LessThanOrEqual, p + 2))
    } else if has_at(s, p, ">"@) {
        Ok((ComparisonOperator::GreaterThan, p + 1))
    } else if has_at(s, p, "<"@) {
        Ok((ComparisonOperator::LessThan, p + 1))
    } else if has_at(s, p, "~>"@) {
        Ok((ComparisonOperator::Pessimistic, p + 2))
    } else if has_at(s, p, "="@) {
        Ok((ComparisonOperator::Equal, p + 1))
    } else {
        fail(p)
    }
}

/// An operator, blanks, and a version.
pub open spec fn constraint(s: Seq<char>, p: int) -> PRes<ConstraintModel> {
    match operator(s, p) {
        Err(e) => Err(e),
        Ok((op, q)) => match take1(s, q, CharClass::Blank) {
            Err(e) => Err(e),
            Ok((_, r)) => match version(s, r) {
                Err(e) => Err(e),
                Ok((v, t)) => Ok((ConstraintModel { operator: op, version: v }, t)),
            },
        },
    }
}

/// Further constraints, each after a `,` and optional blanks; one that does
/// not follow ends the list before its comma.
pub open spec fn constraints_tail(s: Seq<char>, p: int) -> (Seq<ConstraintModel>, int)
    decreases s.len() - p,
{
    if is_char_at(s, p, ',') {
        match constraint(s, run_end(s, p + 1, CharClass::Blank)) {
            Ok((c, t)) => if p < t <= s.len() {
                let (rest, u) = constraints_tail(s, t);
                (seq![c] + rest, u)
            } else {
                (seq![], p)
            },
            Err(_) => (seq![], p),
        }
    } else {
        (seq![], p)
    }
}

/// Blanks, then `(`, one or more constraints separated by commas, and `)`.
pub open spec fn dep_semver(s: Seq<char>, p: int) -> PRes<Seq<ConstraintModel>> {
    match take1(s, p, CharClass::Blank) {
        Err(e) => Err(e),
        Ok((_, q)) => if !is_char_at(s, q, '(') {
            fail(q)
        } else {
            match constraint(s, q + 1) {
                Err(e) => Err(e),
                Ok((c, r)) => {
                    let (rest, t) = constraints_tail(s, r);
                    if is_char_at(s, t, ')') {
                        Ok((seq![c] + rest, t + 1))
                    } else {
                        fail(t)
                    }
                },
            }
        },
    }
}

/// An optional bracketed list of constraints; without one, `>= 0`.
pub open spec fn requirement(s: Seq<char>, p: int) -> (RequirementModel, int) {
    match dep_semver(s, p) {
        Ok((cs, q)) => (RequirementModel { constraints: cs }, q),
        Err(_) => (default_requirement(), p),
    }
}

/// A dependency line under a spec: six spaces, a gem name, an optional
/// requirement and a line ending.
pub open spec fn spec_dep(s: Seq<char>, p: int) -> PRes<DependencyModel> {
    if !has_at(s, p, "      "@) {
        fail(p)
    } else {
        match gem_name(s, p + 6) {
            Err(e) => Err(e),
            Ok((name, q)) => {
                let (req, r) = requirement(s, q);
                match line_ending(s, r) {
                    None => fail(r),
                    Some(t) => Ok((DependencyModel { name: name, requirement: req }, t)),
                }
            },
        }
    }
}

/// Dependency lines, as many as follow.
pub open spec fn spec_deps(s: Seq<char>, p: int) -> (Seq<DependencyModel>, int)
    decreases s.len() - p,
{
    match spec_dep(s, p) {
        Ok((d, q)) => if p < q <= s.len() {
            let (rest, r) = spec_deps(s, q);
            (seq![d] + rest, r)
        } else {
            (seq![], p)
        },
        Err(_) => (seq![], p),
    }
}

/// A dependency of the `DEPENDENCIES` section: a gem name, an optional
/// requirement and an optional `!`.
pub open spec fn dependency(s: Seq<char>, p: int) -> PRes<GemRangeModel> {
    match gem_name(s, p) {
        Err(e) => Err(e),
        Ok((name, q)) => {
            let (req, r) = requirement(s, q);
            if is_char_at(s, r, '!') {
                Ok((GemRangeModel { name: name, requirement: req, nonstandard: true }, r + 1))
            } else {
                Ok((GemRangeModel { name: name, requirement: req, nonstandard: false }, r))
            }
        },
    }
}

/// A platform: a CPU part and, after a `-`, an optional OS part.
pub open spec fn platform(s: Seq<char>, p: int) -> PRes<PlatformModel> {
    match take1(s, p, CharClass::CpuChar) {
        Err(e) => Err(e),
        Ok((cpu, q)) => if is_char_at(s, q, '-') && run_end(s, q + 1, CharClass::OsChar) > q + 1 {
            let r = run_end(s, q + 1, CharClass::OsChar);
            Ok((PlatformModel { cpu: cpu, os: Some(s.subrange(q + 1, r)) }, r))
        } else {
            Ok((PlatformModel { cpu: cpu, os: None }, q))
        },
    }
}

/// An optional number after the character `c`.
pub open spec fn opt_number_after(s: Seq<char>, p: int, c: char) -> (Option<u32>, int) {
    if is_char_at(s, p, c) {
        match number(s, p + 1) {
            Ok((n, q)) => (Some(n), q),
            Err(_) => (None, p),
        }
    } else {
        (None, p)
    }
}

/// A Ruby version: engine, space, `major.minor.patch`, then optionally
/// `.tiny`, `p` and a patch level, and `.` and a prerelease name.
pub open spec fn ruby_version_inner(s: Seq<char>, p: int) -> PRes<RubyVersionModel> {
    match take1(s, p, CharClass::AsciiAlpha) {
        Err(e) => Err(e),
        Ok((engine, q)) => if !is_char_at(s, q, ' ') {
            fail(q)
        } else {
            match number(s, q + 1) {
                Err(e) => Err(e),
                Ok((major, r)) => if !is_char_at(s, r, '.') {
                    fail(r)
                } else {
                    match number(s, r + 1) {
                        Err(e) => Err(e),
                        Ok((minor, t)) => if !is_char_at(s, t, '.') {
                            fail(t)
                        } else {
                            match number(s, t + 1) {
                                Err(e) => Err(e),
                                Ok((patch, u)) => {
                                    let (tiny, v) = opt_number_after(s, u, '.');
                                    let (patchlevel, w) = opt_number_after(s, v, 'p');
                                    let pre_end = run_end(s, w + 1, CharClass::AsciiAlnum);
                                    let has_pre = is_char_at(s, w, '.') && pre_end > w + 1;
                                    Ok(
                                        (
                                            RubyVersionModel {
                                                engine: engine,
                                                major: major,
                                                minor: minor,
                                                patch: patch,
                                                tiny: tiny,
                                                patchlevel: patchlevel,
                                                prerelease: if has_pre {
                                                    Some(s.subrange(w + 1, pre_end))
                                                } else {
                                                    None
                                                },
                                            },
                                            if has_pre {
                                                pre_end
                                            } else {
                                                w
                                            },
                                        ),
                                    )
                                },
                            }
                        },
                    }
                },
            }
        },
    }
}

/// A release: gem name, blanks, and in brackets a version with an optional
/// `-platform`.
pub open spec fn release_tuple(s: Seq<char>, p: int) -> PRes<ReleaseTupleModel> {
    match gem_name(s, p) {
        Err(e) => Err(e),
        Ok((name, q)) => match take1(s, q, CharClass::Blank) {
            Err(e) => Err(e),
            Ok((_, r)) => if !is_char_at(s, r, '(') {
                fail(r)
            } else {
                match version(s, r + 1) {
                    Err(e) => Err(e),
                    Ok((v, t)) => {
                        let (plat, u) = if is_char_at(s, t, '-') {
                            match platform(s, t + 1) {
                                Ok((pl, u)) => (Some(pl), u),
                                Err(_) => (None, t),
                            }
                        } else {
                            (None, t)
                        };
                        if is_char_at(s, u, ')') {
                            Ok(
                                (
                                    ReleaseTupleModel { name: name, version: v, platform: plat },
                                    u + 1,
                                ),
                            )
                        } else {
                            fail(u)
                        }
                    },
                }
            },
        },
    }
}

/// A spec: four spaces, a release, a line ending and its dependency lines.
pub open spec fn spec(s: Seq<char>, p: int) -> PRes<SpecModel> {
    if !has_at(s, p, "    "@) {
        fail(p)
    } else {
        match release_tuple(s, p + 4) {
            Err(e) => Err(e),
            Ok((rt, q)) => match line_ending(s, q) {
                None => fail(q),
                Some(r) => {
                    let (deps, t) = spec_deps(s, r);
                    Ok((SpecModel { release_tuple: rt, deps: deps }, t))
                },
            },
        }
    }
}

/// Specs, as many as follow.
pub open spec fn specs(s: Seq<char>, p: int) -> (Seq<SpecModel>, int)
    decreases s.len() - p,
{
    match spec(s, p) {
        Ok((sp, q)) => if p < q <= s.len() {
            let (rest, r) = specs(s, q);
            (seq![sp] + rest, r)
        } else {
            (seq![], p)
        },
        Err(_) => (seq![], p),
    }
}

/// The rest of the line from `p`: the position of the next `\n`, if any.
pub open spec fn next_newline(s: Seq<char>, p: int) -> Option<int>
    decreases s.len() - p,
{
    if p < 0 || p >= s.len() {
        None
    } else if s[p] == '\n' {
        Some(p)
    } else {
        next_newline(s, p + 1)
    }
}

/// A field `key` whose value is the rest of the line.
pub open spec fn remote_field(s: Seq<char>, p: int, key: Seq<char>) -> PRes<Seq<char>> {
    if !has_at(s, p, key) {
        fail(p)
    } else {
        let q = p + key.len();
        match next_newline(s, q) {
            None => fail(q),
            Some(k) => Ok((s.subrange(q, k), k + 1)),
        }
    }
}

/// A field `key` whose value is a run of `cls` characters, then a line
/// ending.
pub open spec fn run_field(s: Seq<char>, p: int, key: Seq<char>, cls: CharClass) -> PRes<
    Seq<char>,
> {
    if !has_at(s, p, key) {
        fail(p)
    } else {
        match take1(s, p + key.len(), cls) {
            Err(e) => Err(e),
            Ok((v, q)) => match line_ending(s, q) {
                None => fail(q),
                Some(r) => Ok((v, r)),
            },
        }
    }
}

/// An optional field `key` whose value is a run of `cls` characters.
pub open spec fn opt_run_field(s: Seq<char>, p: int, key: Seq<char>, cls: CharClass) -> (Option<
    Seq<char>,
>, int) {
    match run_field(s, p, key, cls) {
        Ok((v, q)) => (Some(v), q),
        Err(_) => (None, p),
    }
}

/// An optional `  submodules: ` field holding `true` or `false`.
pub open spec fn opt_submodules(s: Seq<char>, p: int) -> (Option<bool>, int) {
    if !has_at(s, p, "  submodules: "@) {
        (None, p)
    } else {
        let q = p + "  submodules: "@.len();
        let (b, r) = if has_at(s, q, "true"@) {
            (Some(true), q + 4)
        } else if has_at(s, q, "false"@) {
            (Some(false), q + 5)
        } else {
            (None, q)
        };
        match b {
            None => (None, p),
            Some(v) => match line_ending(s, r) {
                None => (None, p),
                Some(t) => (Some(v), t),
            },
        }
    }
}

/// A `GIT` section.
pub open spec fn git_section(s: Seq<char>, p: int) -> PRes<GitSectionModel> {
    match literal_line(s, p, "GIT\n"@) {
        None => fail(p),
        Some(q) => match remote_field(s, q, "  remote: "@) {
            Err(e) => Err(e),
            Ok((remote, r)) => match run_field(s, r, "  revision: "@, CharClass::HexDigit) {
                Err(e) => Err(e),
                Ok((revision, t)) => {
                    let (branch, t1) = opt_run_field(s, t, "  branch: "@, CharClass::RefChar);
                    let (git_ref, t2) = opt_run_field(s, t1, "  ref: "@, CharClass::RefChar);
                    let (tag, t3) = opt_run_field(s, t2, "  tag: "@, CharClass::RefChar);
                    let (submodules, t4) = opt_submodules(s, t3);
                    let (glob, t5) = opt_run_field(s, t4, "  glob: "@, CharClass::GlobChar);
                    match literal_line(s, t5, "  specs:\n"@) {
                        None => fail(t5),
                        Some(t6) => {
                            let (sps, t7) = specs(s, t6);
                            Ok(
                                (
                                    GitSectionModel {
                                        remote: remote,
                                        revision: revision,
                                        branch: branch,
                                        git_ref: git_ref,
                                        tag: tag,
                                        submodules: submodules,
                                        glob: glob,
                                        specs: sps,
                                    },
                                    t7,
                                ),
                            )
                        },
                    }
                },
            },
        },
    }
}

/// A `GEM` section: an optional remote, then specs.
pub open spec fn gem_section(s: Seq<char>, p: int) -> PRes<GemSectionModel> {
    match literal_line(s, p, "GEM\n"@) {
        None => fail(p),
        Some(q) => {
            let (remote, r) = match remote_field(s, q, "  remote: "@) {
                Ok((v, r)) => (Some(v), r),
                Err(_) => (None, q),
            };
            match literal_line(s, r, "  specs:\n"@) {
                None => fail(r),
                Some(t) => {
                    let (sps, u) = specs(s, t);
                    Ok((GemSectionModel { remote: remote, specs: sps }, u))
                },
            }
        },
    }
}

/// A `PATH` section: a remote, then specs.
pub open spec fn path_section(s: Seq<char>, p: int) -> PRes<PathSectionModel> {
    match literal_line(s, p, "PATH\n"@) {
        None => fail(p),
        Some(q) => match remote_field(s, q, "  remote: "@) {
            Err(e) => Err(e),
            Ok((remote, r)) => match literal_line(s, r, "  specs:\n"@) {
                None => fail(r),
                Some(t) => {
                    let (sps, u) = specs(s, t);
                    Ok((PathSectionModel { remote: remote, specs: sps }, u))
                },
            },
        },
    }
}

/// An entry line: blanks, an item read by `item`, a line ending.
pub open spec fn platform_line(s: Seq<char>, p: int) -> PRes<PlatformModel> {
    match take1(s, p, CharClass::Blank) {
        Err(e) => Err(e),
        Ok((_, q)) => match platform(s, q) {
            Err(e) => Err(e),
            Ok((pl, r)) => match line_ending(s, r) {
                None => fail(r),
                Some(t) => Ok((pl, t)),
            },
        },
    }
}

pub open spec fn platform_lines(s: Seq<char>, p: int) -> (Seq<PlatformModel>, int)
    decreases s.len() - p,
{
    match platform_line(s, p) {
        Ok((pl, q)) => if p < q <= s.len() {
            let (rest, r) = platform_lines(s, q);
            (seq![pl] + rest, r)
        } else {
            (seq![], p)
        },
        Err(_) => (seq![], p),
    }
}

/// The `PLATFORMS` section: one or more platform lines.
pub open spec fn platforms_section(s: Seq<char>, p: int) -> PRes<Seq<PlatformModel>> {
    match literal_line(s, p, "PLATFORMS\n"@) {
        None => fail(p),
        Some(q) => match platform_line(s, q) {
            Err(e) => Err(e),
            Ok((pl, r)) => if q < r <= s.len() {
                let (rest, t) = platform_lines(s, r);
                Ok((seq![pl] + rest, t))
            } else {
                Ok((seq![pl], r))
            },
        },
    }
}

pub open spec fn dependency_line(s: Seq<char>, p: int) -> PRes<GemRangeModel> {
    match take1(s, p, CharClass::Blank) {
        Err(e) => Err(e),
        Ok((_, q)) => match dependency(s, q) {
            Err(e) => Err(e),
            Ok((d, r)) => match line_ending(s, r) {
                None => fail(r),
                Some(t) => Ok((d, t)),
            },
        },
    }
}

pub open spec fn dependency_lines(s: Seq<char>, p: int) -> (Seq<GemRangeModel>, int)
    decreases s.len() - p,
{
    match dependency_line(s, p) {
        Ok((d, q)) => if p < q <= s.len() {
            let (rest, r) = dependency_lines(s, q);
            (seq![d] + rest, r)
        } else {
            (seq![], p)
        },
        Err(_) => (seq![], p),
    }
}

/// The `DEPENDENCIES` section.
pub open spec fn dependencies_section(s: Seq<char>, p: int) -> PRes<Seq<GemRangeModel>> {
    match literal_line(s, p, "DEPENDENCIES\n"@) {
        None => fail(p),
        Some(q) => Ok(dependency_lines(s, q)),
    }
}

/// A checksum entry: a release and, after blanks and `sha256=`, hex digits.
/// The digits are decoded as `hex::decode` does; since they are all hex
/// digits, only an odd number of them can fail.
pub open spec fn checksum(s: Seq<char>, p: int) -> PRes<ChecksumModel> {
    match release_tuple(s, p) {
        Err(e) => Err(e),
        Ok((rt, q)) => {
            let b = run_end(s, q, CharClass::Blank);
            if b > q && has_at(s, b, "sha256="@) {
                let h = b + "sha256="@.len();
                match take1(s, h, CharClass::HexDigit) {
                    Err(e) => Err(e),
                    Ok((digits, t)) => match hex_decoding(encode_utf8(digits)) {
                        Ok(bytes) => Ok(
                            (
                                ChecksumModel {
                                    release_tuple: rt,
                                    algorithm: ChecksumAlgorithm::SHA256,
                                    value: bytes,
                                },
                                t,
                            ),
                        ),
                        Err(_) => Err(Failure { pos: h, cause: Cause::OddHexDigits }),
                    },
                }
            } else {
                Ok(
                    (
                        ChecksumModel {
                            release_tuple: rt,
                            algorithm: ChecksumAlgorithm::NotGiven,
                            value: seq![],
                        },
                        q,
                    ),
                )
            }
        },
    }
}

pub open spec fn checksum_line(s: Seq<char>, p: int) -> PRes<ChecksumModel> {
    match take1(s, p, CharClass::Blank) {
        Err(e) => Err(e),
        Ok((_, q)) => match checksum(s, q) {
            Err(e) => Err(e),
            Ok((c, r)) => match line_ending(s, r) {
                None => fail(r),
                Some(t) => Ok((c, t)),
            },
        },
    }
}

pub open spec fn checksum_lines(s: Seq<char>, p: int) -> (Seq<ChecksumModel>, int)
    decreases s.len() - p,
{
    match checksum_line(s, p) {
        Ok((c, q)) => if p < q <= s.len() {
            let (rest, r) = checksum_lines(s, q);
            (seq![c] + rest, r)
        } else {
            (seq![], p)
        },
        Err(_) => (seq![], p),
    }
}

/// The `CHECKSUMS` section.
pub open spec fn checksums_section(s: Seq<char>, p: int) -> PRes<Seq<ChecksumModel>> {
    match literal_line(s, p, "CHECKSUMS\n"@) {
        None => fail(p),
        Some(q) => Ok(checksum_lines(s, q)),
    }
}

/// A section title line followed by two or three spaces of indentation.
pub open spec fn one_line_section_start(s: Seq<char>, p: int, title: Seq<char>) -> PRes<
    LockfileIndentation,
> {
    if !has_at(s, p, title) {
        fail(p)
    } else {
        let q = run_end(s, p + title.len(), CharClass::Blank);
        match line_ending(s, q) {
            None => fail(q),
            Some(r) => if !has_at(s, r, "  "@) {
                fail(r)
            } else if is_char_at(s, r + 2, ' ') {
                Ok((LockfileIndentation::ThreeSpaces, r + 3))
            } else {
                Ok((LockfileIndentation::Standard, r + 2))
            },
        }
    }
}

/// The `BUNDLED WITH` section.
pub open spec fn bundled_with_section(s: Seq<char>, p: int) -> PRes<BundledWithSectionModel> {
    match one_line_section_start(s, p, "BUNDLED WITH"@) {
        Err(e) => Err(e),
        Ok((ind, q)) => match version(s, q) {
            Err(e) => Err(e),
            Ok((v, r)) => Ok(
                (BundledWithSectionModel { indentation: ind, bundler_version: v }, r),
            ),
        },
    }
}

/// The `RUBY VERSION` section: a Ruby version and, optionally, in brackets
/// the version of another engine.
pub open spec fn ruby_version_section(s: Seq<char>, p: int) -> PRes<RubyVersionSectionModel> {
    match one_line_section_start(s, p, "RUBY VERSION"@) {
        Err(e) => Err(e),
        Ok((ind, q)) => match ruby_version_inner(s, q) {
            Err(e) => Err(e),
            Ok((cruby, r)) => {
                let engine = if has_at(s, r, " ("@) {
                    match ruby_version_inner(s, r + 2) {
                        Ok((ev, t)) => if has_at(s, t, ")\n"@) {
                            Some((ev, t + 2))
                        } else {
                            None
                        },
                        Err(_) => None,
                    }
                } else {
                    None
                };
                match engine {
                    Some((ev, u)) => Ok(
                        (
                            RubyVersionSectionModel {
                                indentation: ind,
                                cruby_version: cruby,
                                engine_version: Some(ev),
                            },
                            u,
                        ),
                    ),
                    None => Ok(
                        (
                            RubyVersionSectionModel {
                                indentation: ind,
                                cruby_version: cruby,
                                engine_version: None,
                            },
                            r,
                        ),
                    ),
                }
            },
        },
    }
}

/// Line endings, as many as follow.
pub open spec fn line_endings(s: Seq<char>, p: int) -> int
    decreases s.len() - p,
{
    match line_ending(s, p) {
        Some(q) => if p < q <= s.len() {
            line_endings(s, q)
        } else {
            p
        },
        None => p,
    }
}

/// Blanks and empty lines after a section.
pub open spec fn empty_lines(s: Seq<char>, p: int) -> int {
    line_endings(s, run_end(s, p, CharClass::Blank))
}

/// A section title: a run of upper-case letters and spaces, then blanks and
/// a line ending.
pub open spec fn section_header(s: Seq<char>, p: int) -> Option<Seq<char>> {
    match take1(s, p, CharClass::HeaderChar) {
        Err(_) => None,
        Ok((h, q)) => match line_ending(s, run_end(s, q, CharClass::Blank)) {
            None => None,
            Some(_) => Some(h),
        },
    }
}

/// One section of a lockfile.
pub enum SectionModel {
    Git(GitSectionModel),
    Gem(GemSectionModel),
    Path(PathSectionModel),
    Platforms(Seq<PlatformModel>),
    Dependencies(Seq<GemRangeModel>),
    RubyVersion(RubyVersionSectionModel),
    BundledWith(BundledWithSectionModel),
    Checksums(Seq<ChecksumModel>),
}

/// A section chosen by its title, then the empty lines after it.
#[verifier::opaque]
pub open spec fn section(s: Seq<char>, p: int) -> PRes<SectionModel> {
    match section_header(s, p) {
        None => fail(p),
        Some(h) => {
            let r: PRes<SectionModel> = if h == "GIT"@ {
                match git_section(s, p) {
                    Ok((v, q)) => Ok((SectionModel::Git(v), q)),
                    Err(e) => Err(e),
                }
            } else if h == "GEM"@ {
                match gem_section(s, p) {
                    Ok((v, q)) => Ok((SectionModel::Gem(v), q)),
                    Err(e) => Err(e),
                }
            } else if h == "PATH"@ {
                match path_section(s, p) {
                    Ok((v, q)) => Ok((SectionModel::Path(v), q)),
                    Err(e) => Err(e),
                }
            } else if h == "PLATFORMS"@ {
                match platforms_section(s, p) {
                    Ok((v, q)) => Ok((SectionModel::Platforms(v), q)),
                    Err(e) => Err(e),
                }
            } else if h == "DEPENDENCIES"@ {
                match dependencies_section(s, p) {
                    Ok((v, q)) => Ok((SectionModel::Dependencies(v), q)),
                    Err(e) => Err(e),
                }
            } else if h == "CHECKSUMS"@ {
                match checksums_section(s, p) {
                    Ok((v, q)) => Ok((SectionModel::Checksums(v), q)),
                    Err(e) => Err(e),
                }
            } else if h == "RUBY VERSION"@ {
                match ruby_version_section(s, p) {
                    Ok((v, q)) => Ok((SectionModel::RubyVersion(v), q)),
                    Err(e) => Err(e),
                }
            } else if h == "BUNDLED WITH"@ {
                match bundled_with_section(s, p) {
                    Ok((v, q)) => Ok((SectionModel::BundledWith(v), q)),
                    Err(e) => Err(e),
                }
            } else {
                fail(p)
            };
            match r {
                Ok((v, q)) => Ok((v, empty_lines(s, q))),
                Err(e) => Err(e),
            }
        },
    }
}

/// The lockfile with one more section: repeatable sections are appended,
/// the others replace what an earlier section of their kind gave.
pub open spec fn add_section(l: LockModel, sec: SectionModel) -> LockModel {
    match sec {
        SectionModel::Git(v) => LockModel { git: l.git.push(v), ..l },
        SectionModel::Gem(v) => LockModel { gem: l.gem.push(v), ..l },
        SectionModel::Path(v) => LockModel { path: l.path.push(v), ..l },
        SectionModel::Platforms(v) => LockModel { platforms: v, ..l },
        SectionModel::Dependencies(v) => LockModel { dependencies: v, ..l },
        SectionModel::RubyVersion(v) => LockModel { ruby_version: Some(v), ..l },
        SectionModel::BundledWith(v) => LockModel { bundled_with: Some(v), ..l },
        SectionModel::Checksums(v) => LockModel { checksums: Some(v), ..l },
    }
}

/// Where parsing resumes after an error at `f`: just after the first line
/// ending at or after `f` that is followed by a character other than
/// whitespace. There is none when no such line follows.
pub open spec fn resume_point(s: Seq<char>, f: int) -> Option<int>
    decreases s.len() - f,
{
    if f < 0 || f + 1 >= s.len() {
        None
    } else if s[f] == '\n' && !unicode_whitespace(s[f + 1]) {
        Some(f + 1)
    } else {
        resume_point(s, f + 1)
    }
}

/// An error at a character offset, with its cause.
pub struct ErrorAt {
    pub offset: int,
    pub cause: Cause,
}

/// Sections from `p` on, added to `l`, and errors added to `errs`: a section
/// that fails is reported at the position where it failed, and parsing goes
/// on from the resume point after it.
pub open spec fn sections_from(s: Seq<char>, p: int, l: LockModel, errs: Seq<ErrorAt>) -> (
    LockModel,
    Seq<ErrorAt>,
)
    decreases s.len() - p,
{
    if p < 0 || p >= s.len() {
        (l, errs)
    } else {
        match section(s, p) {
            Ok((sec, q)) => if p < q <= s.len() {
                sections_from(s, q, add_section(l, sec), errs)
            } else {
                (add_section(l, sec), errs)
            },
            Err(f) => {
                let errs2 = errs.push(ErrorAt { offset: f.pos, cause: f.cause });
                match resume_point(s, f.pos) {
                    Some(k) => if p < k <= s.len() {
                        sections_from(s, k, l, errs2)
                    } else {
                        (l, errs2)
                    },
                    None => (l, errs2),
                }
            },
        }
    }
}

/// What a whole lockfile holds, and the errors found in it.
pub open spec fn lockfile(s: Seq<char>) -> (LockModel, Seq<ErrorAt>) {
    sections_from(s, 0, crate::lockfile::datatypes::empty_lock(), seq![])
}

proof fn lemma_next_newline(s: Seq<char>, p: int, k: int)
    requires
        0 <= p <= k < s.len(),
        s[k] == '\n',
        forall|i: int| p <= i < k ==> s[i] != '\n',
    ensures
        next_newline(s, p) == Some(k),
    decreases k - p,
{
    if p < k {
        lemma_next_newline(s, p + 1, k);
    }
}

/// A `GEM` section whose first line after the title is `  remote: ` keeps
/// the rest of that line as its remote.
pub proof fn lemma_gem_section_remote(v: Seq<char>, rest: Seq<char>)
    requires
        forall|i: int| 0 <= i < v.len() ==> v[i] != '\n',
    ensures
        gem_section("GEM\n"@ + "  remote: "@ + v + "\n"@ + rest, 0) matches Ok((g, _)) ==> g.remote
            == Some(v),
{
    reveal_strlit("GEM\n");
    reveal_strlit("  remote: ");
    reveal_strlit("\n");
    let s = "GEM\n"@ + "  remote: "@ + v + "\n"@ + rest;
    assert(s.subrange(0, 4) =~= "GEM\n"@);
    assert(s.subrange(4, 14) =~= "  remote: "@);
    assert forall|i: int| 14 <= i < 14 + v.len() implies s[i] != '\n' by {
        assert(s[i] == v[i - 14]);
    }
    let e: int = 14int + v.len() as int;
    assert(s[e] == '\n');
    lemma_next_newline(s, 14, e);
    assert(s.subrange(14, e) =~= v);
}

/// A field whose value is the rest of the line reads exactly that rest, and
/// stops after its line ending.
pub proof fn lemma_remote_field_reads_line(
    pre: Seq<char>,
    key: Seq<char>,
    v: Seq<char>,
    rest: Seq<char>,
)
    requires
        forall|i: int| 0 <= i < v.len() ==> v[i] != '\n',
    ensures
        remote_field(pre + key + v + "\n"@ + rest, pre.len() as int, key) matches Ok((read, q))
            && read == v && q == pre.len() + key.len() + v.len() + 1,
{
    reveal_strlit("\n");
    let s = pre + key + v + "\n"@ + rest;
    let q: int = pre.len() as int + key.len() as int;
    let e: int = q + v.len() as int;
    assert(s.subrange(pre.len() as int, q) =~= key);
    assert forall|i: int| q <= i < e implies s[i] != '\n' by {
        assert(s[i] == v[i - q]);
    }
    assert(s[e] == '\n');
    lemma_next_newline(s, q, e);
    assert(s.subrange(q, e) =~= v);
}

/// A `PATH` section keeps the rest of its `  remote: ` line as its remote.
pub proof fn lemma_path_section_remote(v: Seq<char>, rest: Seq<char>)
    requires
        forall|i: int| 0 <= i < v.len() ==> v[i] != '\n',
    ensures
        path_section("PATH\n"@ + "  remote: "@ + v + "\n"@ + rest, 0) matches Ok((ps, _))
            ==> ps.remote == v,
{
    reveal_strlit("PATH\n");
    let s = "PATH\n"@ + "  remote: "@ + v + "\n"@ + rest;
    assert(s.subrange(0, 5) =~= "PATH\n"@);
    lemma_remote_field_reads_line("PATH\n"@, "  remote: "@, v, rest);
}

/// A `GIT` section keeps the rest of its `  remote: ` line as its remote.
pub proof fn lemma_git_section_remote(v: Seq<char>, rest: Seq<char>)
    requires
        forall|i: int| 0 <= i < v.len() ==> v[i] != '\n',
    ensures
        git_section("GIT\n"@ + "  remote: "@ + v + "\n"@ + rest, 0) matches Ok((g, _))
            ==> g.remote == v,
{
    reveal_strlit("GIT\n");
    let s = "GIT\n"@ + "  remote: "@ + v + "\n"@ + rest;
    assert(s.subrange(0, 4) =~= "GIT\n"@);
    lemma_remote_field_reads_line("GIT\n"@, "  remote: "@, v, rest);
}

} // verus!
