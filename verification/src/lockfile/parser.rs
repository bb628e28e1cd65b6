//! The `Gemfile.lock` parser. Each rule returns what `grammar` says it
//! reads, or fails where and as `grammar` says.

use vstd::prelude::*;
use vstd::string::StrSliceExecFns;
use crate::gem_name::validate_gem_name_chars;
use crate::gem_types::{
    ComparisonOperator, ProjectDependency, Platform, ReleaseTuple, Requirement, RubyVersion,
    Version, VersionConstraint, VersionSegment,
};
use crate::bindings::char_is_whitespace;
use crate::lockfile::datatypes::{
    BundledWithSection, Cause, Checksum, GemRange, GemSection, GemfileDotLock, GitSection,
    ParseError, ParseErrorModel, ParseErrors, PathSection, RubyVersionSection, SourceSpan,
};
use crate::text::chars_of;
use crate::lockfile::grammar as g;
use crate::scan::{decimal_value, lemma_run_end, scan, span_is, str_at, CharClass};

verus! {

/// Where a rule failed and why.
#[derive(Debug, Clone, Copy, PartialEq, Eq, Structural)]
pub struct Fail {
    pub pos: usize,
    pub cause: Cause,
}

/// What a rule read and where it stopped, or its failure.
pub type Res<T> = Result<(T, usize), Fail>;

/// The result `r` is the one that the grammar `m` gives.
pub open spec fn agrees<T: DeepView>(r: Res<T>, m: g::PRes<T::V>) -> bool {
    match (r, m) {
        (Ok((v, q)), Ok((mv, mq))) => v.deep_view() == mv && q as int == mq,
        (Err(f), Err(mf)) => f.pos as int == mf.pos && f.cause == mf.cause,
        _ => false,
    }
}

/// A result that stops within `n` characters.
pub open spec fn within<T>(r: Res<T>, n: int) -> bool {
    match r {
        Ok((_, q)) => q <= n,
        Err(f) => f.pos <= n,
    }
}

/// The position `r` is the one that the grammar `m` gives.
pub open spec fn same_pos(r: Option<usize>, m: Option<int>) -> bool {
    match (r, m) {
        (Some(q), Some(mq)) => q as int == mq,
        (None, None) => true,
        _ => false,
    }
}

/// A successful result stops after `p`.
pub open spec fn advances<T>(r: Res<T>, p: int) -> bool {
    r matches Ok((_, q)) ==> q > p
}

pub open spec fn input_ok(s: Seq<char>, src: Seq<char>, p: int) -> bool {
    s == src && 0 <= p <= s.len() <= usize::MAX
}

fn grammar_fail<T>(p: usize) -> (r: Res<T>)
    ensures
        r == Err::<(T, usize), Fail>(Fail { pos: p, cause: Cause::Grammar }),
{
    Err(Fail { pos: p, cause: Cause::Grammar })
}

fn is_char(s: &[char], p: usize, c: char) -> (b: bool)
    ensures
        b == g::is_char_at(s@, p as int, c),
{
    p < s.len() && s[p] == c
}

/// The characters `src[a..b]`, borrowed from the input.
fn text<'a>(src: &'a str, a: usize, b: usize) -> (t: &'a str)
    requires
        a <= b <= src@.len(),
    ensures
        t@ == src@.subrange(a as int, b as int),
{
    src.substring_char(a, b)
}

fn line_ending(s: &[char], p: usize) -> (r: Option<usize>)
    requires
        p <= s@.len() <= usize::MAX,
    ensures
        same_pos(r, g::line_ending(s@, p as int)),
        r matches Some(q) ==> q <= s@.len(),
{
    if is_char(s, p, '\n') {
        Some(p + 1)
    } else if is_char(s, p, '\r') && is_char(s, p + 1, '\n') {
        Some(p + 2)
    } else {
        None
    }
}

fn literal(s: &[char], p: usize, lit: &str) -> (r: Option<usize>)
    requires
        p <= s@.len() <= usize::MAX,
    ensures
        same_pos(r, g::literal_line(s@, p as int, lit@)),
        r matches Some(q) ==> q <= s@.len(),
{
    if str_at(s, p, lit) {
        Some(p + lit.unicode_len())
    } else {
        None
    }
}

fn parse_num(s: &[char], p: usize) -> (r: Res<u32>)
    requires
        p <= s@.len(),
    ensures
        agrees(r, g::number(s@, p as int)),
        within(r, s@.len() as int),
        advances(r, p as int),
{
    let q = scan(s, p, CharClass::Digit);
    if q == p {
        return grammar_fail(p);
    }
    proof {
        lemma_run_end(s@, p as int, CharClass::Digit);
    }
    match decimal_value(s, p, q, 0xffff_ffff) {
        Some(v) => Ok((v as u32, q)),
        None => Err(Fail { pos: p, cause: Cause::NumberTooLarge }),
    }
}

fn parse_segments_tail(s: &[char], src: &str, p: usize) -> (r: (Vec<VersionSegment>, usize))
    requires
        input_ok(s@, src@, p as int),
    ensures
        (r.0.deep_view(), r.1 as int) == g::segments_tail(s@, p as int),
        p <= r.1 <= s@.len(),
{
    let mut out: Vec<VersionSegment> = Vec::new();
    let mut cur = p;
    loop
        invariant_except_break
            input_ok(s@, src@, cur as int),
            p <= cur,
            g::segments_tail(s@, p as int) == (
                out.deep_view() + g::segments_tail(s@, cur as int).0,
                g::segments_tail(s@, cur as int).1,
            ),
        ensures
            g::segments_tail(s@, p as int) == (out.deep_view(), cur as int),
            p <= cur <= s@.len(),
        decreases s@.len() - cur,
    {
        if !is_char(s, cur, '.') {
            assert(out.deep_view() + seq![] =~= out.deep_view());
            break;
        }
        let q = scan(s, cur + 1, CharClass::Alnum);
        if q == cur + 1 {
            assert(out.deep_view() + seq![] =~= out.deep_view());
            break;
        }
        let seg = VersionSegment::new(text(src, cur + 1, q));
        let ghost old_out = out.deep_view();
        out.push(seg);
        proof {
            assert(out.deep_view() =~= old_out.push(seg.deep_view()));
            let (rest, _) = g::segments_tail(s@, q as int);
            assert(old_out + (seq![seg.deep_view()] + rest) =~= out.deep_view() + rest);
        }
        cur = q;
    }
    (out, cur)
}

fn parse_segments(s: &[char], src: &str, p: usize) -> (r: Res<Vec<VersionSegment>>)
    requires
        input_ok(s@, src@, p as int),
    ensures
        agrees(r, g::segments(s@, p as int)),
        within(r, s@.len() as int),
        advances(r, p as int),
{
    let (n, q) = match parse_num(s, p) {
        Ok(x) => x,
        Err(e) => return Err(e),
    };
    let (tail, r) = parse_segments_tail(s, src, q);
    let mut out: Vec<VersionSegment> = Vec::new();
    out.push(VersionSegment::Number(n));
    let mut tail = tail;
    let ghost tail_view = tail.deep_view();
    out.append(&mut tail);
    assert(out.deep_view() =~= seq![crate::gem_types::SegmentModel::Number(n)] + tail_view);
    Ok((out, r))
}

pub(crate) fn parse_version_at(s: &[char], src: &str, p: usize) -> (r: Res<Version>)
    requires
        input_ok(s@, src@, p as int),
    ensures
        agrees(r, g::version(s@, p as int)),
        within(r, s@.len() as int),
        advances(r, p as int),
{
    let segments = match parse_segments(s, src, p) {
        Ok((segs, _)) => segs,
        Err(e) => return Err(Fail { pos: p, cause: e.cause }),
    };
    let q = scan(s, p, CharClass::VersionChar);
    if q == p {
        return grammar_fail(p);
    }
    Ok((Version { version: text(src, p, q).to_owned(), segments }, q))
}

fn parse_gem_name<'a>(s: &[char], src: &'a str, p: usize) -> (r: Res<&'a str>)
    requires
        input_ok(s@, src@, p as int),
    ensures
        agrees(r, g::gem_name(s@, p as int)),
        within(r, s@.len() as int),
        advances(r, p as int),
{
    let q = scan(s, p, CharClass::GemNameChar);
    if q == p {
        return grammar_fail(p);
    }
    let name = text(src, p, q);
    if validate_gem_name_chars(&s[p..q]).is_err() {
        return grammar_fail(q);
    }
    Ok((name, q))
}

fn parse_operator(s: &[char], p: usize) -> (r: Res<ComparisonOperator>)
    requires
        p <= s@.len() <= usize::MAX,
    ensures
        agrees(r, g::operator(s@, p as int)),
        within(r, s@.len() as int),
        advances(r, p as int),
{
    proof {
        reveal_strlit("!=");
        reveal_strlit(">=");
        reveal_strlit("<=");
        reveal_strlit(">");
        reveal_strlit("<");
        reveal_strlit("~>");
        reveal_strlit("=");
    }
    if str_at(s, p, "!=") {
        Ok((ComparisonOperator::NotEqual, p + 2))
    } else if str_at(s, p, ">=") {
        Ok((ComparisonOperator::GreaterThanOrEqual, p + 2))
    } else if str_at(s, p, "<=") {
        Ok((ComparisonOperator::LessThanOrEqual, p + 2))
    } else if str_at(s, p, ">") {
        Ok((ComparisonOperator::GreaterThan, p + 1))
    } else if str_at(s, p, "<") {
        Ok((ComparisonOperator::LessThan, p + 1))
    } else if str_at(s, p, "~>") {
        Ok((ComparisonOperator::Pessimistic, p + 2))
    } else if str_at(s, p, "=") {
        Ok((ComparisonOperator::Equal, p + 1))
    } else {
        grammar_fail(p)
    }
}

fn parse_version_constraint(s: &[char], src: &str, p: usize) -> (r: Res<VersionConstraint>)
    requires
        input_ok(s@, src@, p as int),
    ensures
        agrees(r, g::constraint(s@, p as int)),
        within(r, s@.len() as int),
        advances(r, p as int),
{
    let (operator, q) = match parse_operator(s, p) {
        Ok(x) => x,
        Err(e) => return Err(e),
    };
    let r = scan(s, q, CharClass::Blank);
    if r == q {
        return grammar_fail(q);
    }
    let (version, t) = match parse_version_at(s, src, r) {
        Ok(x) => x,
        Err(e) => return Err(e),
    };
    Ok((VersionConstraint { operator, version }, t))
}

fn parse_constraints_tail(s: &[char], src: &str, p: usize) -> (r: (Vec<VersionConstraint>, usize))
    requires
        input_ok(s@, src@, p as int),
    ensures
        (r.0.deep_view(), r.1 as int) == g::constraints_tail(s@, p as int),
        p <= r.1 <= s@.len(),
{
    let mut out: Vec<VersionConstraint> = Vec::new();
    let mut cur = p;
    loop
        invariant_except_break
            input_ok(s@, src@, cur as int),
            p <= cur,
            g::constraints_tail(s@, p as int) == (
                out.deep_view() + g::constraints_tail(s@, cur as int).0,
                g::constraints_tail(s@, cur as int).1,
            ),
        ensures
            g::constraints_tail(s@, p as int) == (out.deep_view(), cur as int),
            p <= cur <= s@.len(),
        decreases s@.len() - cur,
    {
        if !is_char(s, cur, ',') {
            assert(out.deep_view() + seq![] =~= out.deep_view());
            break;
        }
        let b = scan(s, cur + 1, CharClass::Blank);
        match parse_version_constraint(s, src, b) {
            Ok((c, t)) => {
                if !(cur < t && t <= s.len()) {
                    assert(out.deep_view() + seq![] =~= out.deep_view());
                    break;
                }
                let ghost old_out = out.deep_view();
                let ghost cv = c.deep_view();
                out.push(c);
                proof {
                    assert(out.deep_view() =~= old_out.push(cv));
                    let (rest, _) = g::constraints_tail(s@, t as int);
                    assert(old_out + (seq![cv] + rest) =~= out.deep_view() + rest);
                }
                cur = t;
            },
            Err(_) => {
                assert(out.deep_view() + seq![] =~= out.deep_view());
                break;
            },
        }
    }
    (out, cur)
}

fn parse_dep_semver_at(s: &[char], src: &str, p: usize) -> (r: Res<Vec<VersionConstraint>>)
    requires
        input_ok(s@, src@, p as int),
    ensures
        agrees(r, g::dep_semver(s@, p as int)),
        within(r, s@.len() as int),
        advances(r, p as int),
{
    let q = scan(s, p, CharClass::Blank);
    if q == p {
        return grammar_fail(p);
    }
    if !is_char(s, q, '(') {
        return grammar_fail(q);
    }
    let (c, r) = match parse_version_constraint(s, src, q + 1) {
        Ok(x) => x,
        Err(e) => return Err(e),
    };
    let (tail, t) = parse_constraints_tail(s, src, r);
    if !is_char(s, t, ')') {
        return grammar_fail(t);
    }
    let ghost cv = c.deep_view();
    let ghost tail_view = tail.deep_view();
    let mut out: Vec<VersionConstraint> = Vec::new();
    out.push(c);
    let mut tail = tail;
    out.append(&mut tail);
    assert(out.deep_view() =~= seq![cv] + tail_view);
    Ok((out, t + 1))
}

fn parse_requirement(s: &[char], src: &str, p: usize) -> (r: (Requirement, usize))
    requires
        input_ok(s@, src@, p as int),
    ensures
        (r.0.deep_view(), r.1 as int) == g::requirement(s@, p as int),
        p <= r.1 <= s@.len(),
{
    match parse_dep_semver_at(s, src, p) {
        Ok((constraints, q)) => {
            (Requirement { constraints }, q)
        },
        Err(_) => (Requirement::any_version(), p),
    }
}

fn parse_spec_dep_at(s: &[char], src: &str, p: usize) -> (r: Res<ProjectDependency>)
    requires
        input_ok(s@, src@, p as int),
    ensures
        agrees(r, g::spec_dep(s@, p as int)),
        within(r, s@.len() as int),
        advances(r, p as int),
{
    proof {
        reveal_strlit("      ");
    }
    if !str_at(s, p, "      ") {
        return grammar_fail(p);
    }
    let (name, q) = match parse_gem_name(s, src, p + 6) {
        Ok(x) => x,
        Err(e) => return Err(e),
    };
    let (requirement, r) = parse_requirement(s, src, q);
    match line_ending(s, r) {
        None => grammar_fail(r),
        Some(t) => Ok((ProjectDependency { name: name.to_owned(), requirement }, t)),
    }
}

fn parse_spec_deps(s: &[char], src: &str, p: usize) -> (r: (Vec<ProjectDependency>, usize))
    requires
        input_ok(s@, src@, p as int),
    ensures
        (r.0.deep_view(), r.1 as int) == g::spec_deps(s@, p as int),
        p <= r.1 <= s@.len(),
{
    let mut out: Vec<ProjectDependency> = Vec::new();
    let mut cur = p;
    loop
        invariant_except_break
            input_ok(s@, src@, cur as int),
            p <= cur,
            g::spec_deps(s@, p as int) == (
                out.deep_view() + g::spec_deps(s@, cur as int).0,
                g::spec_deps(s@, cur as int).1,
            ),
        ensures
            g::spec_deps(s@, p as int) == (out.deep_view(), cur as int),
            p <= cur <= s@.len(),
        decreases s@.len() - cur,
    {
        match parse_spec_dep_at(s, src, cur) {
            Ok((d, t)) => {
                let ghost old_out = out.deep_view();
                let ghost dv = d.deep_view();
                out.push(d);
                proof {
                    assert(out.deep_view() =~= old_out.push(dv));
                    let (rest, _) = g::spec_deps(s@, t as int);
                    assert(old_out + (seq![dv] + rest) =~= out.deep_view() + rest);
                }
                cur = t;
            },
            Err(_) => {
                assert(out.deep_view() + seq![] =~= out.deep_view());
                break;
            },
        }
    }
    (out, cur)
}

fn parse_dependency<'a>(s: &[char], src: &'a str, p: usize) -> (r: Res<crate::lockfile::datatypes::GemRange<'a>>)
    requires
        input_ok(s@, src@, p as int),
    ensures
        agrees(r, g::dependency(s@, p as int)),
        within(r, s@.len() as int),
        advances(r, p as int),
{
    let (name, q) = match parse_gem_name(s, src, p) {
        Ok(x) => x,
        Err(e) => return Err(e),
    };
    let (requirement, r) = parse_requirement(s, src, q);
    if is_char(s, r, '!') {
        Ok((crate::lockfile::datatypes::GemRange { name, requirement, nonstandard: true }, r + 1))
    } else {
        Ok((crate::lockfile::datatypes::GemRange { name, requirement, nonstandard: false }, r))
    }
}

pub(crate) fn parse_platform(s: &[char], src: &str, p: usize) -> (r: Res<Platform>)
    requires
        input_ok(s@, src@, p as int),
    ensures
        agrees(r, g::platform(s@, p as int)),
        within(r, s@.len() as int),
        advances(r, p as int),
{
    let q = scan(s, p, CharClass::CpuChar);
    if q == p {
        return grammar_fail(p);
    }
    let cpu = text(src, p, q);
    if is_char(s, q, '-') {
        let r = scan(s, q + 1, CharClass::OsChar);
        if r > q + 1 {
            return Ok((Platform::from_parts(cpu, Some(text(src, q + 1, r))), r));
        }
    }
    Ok((Platform::from_parts(cpu, None), q))
}

fn parse_opt_number_after(s: &[char], p: usize, c: char) -> (r: (Option<u32>, usize))
    requires
        p <= s@.len() <= usize::MAX,
    ensures
        (r.0, r.1 as int) == g::opt_number_after(s@, p as int, c),
        p <= r.1 <= s@.len(),
{
    if is_char(s, p, c) {
        match parse_num(s, p + 1) {
            Ok((n, q)) => (Some(n), q),
            Err(_) => (None, p),
        }
    } else {
        (None, p)
    }
}

fn parse_ruby_version_inner_at(s: &[char], src: &str, p: usize) -> (r: Res<RubyVersion>)
    requires
        input_ok(s@, src@, p as int),
    ensures
        agrees(r, g::ruby_version_inner(s@, p as int)),
        within(r, s@.len() as int),
        advances(r, p as int),
{
    let q = scan(s, p, CharClass::AsciiAlpha);
    if q == p {
        return grammar_fail(p);
    }
    let engine = text(src, p, q);
    if !is_char(s, q, ' ') {
        return grammar_fail(q);
    }
    let (major, r) = match parse_num(s, q + 1) {
        Ok(x) => x,
        Err(e) => return Err(e),
    };
    if !is_char(s, r, '.') {
        return grammar_fail(r);
    }
    let (minor, t) = match parse_num(s, r + 1) {
        Ok(x) => x,
        Err(e) => return Err(e),
    };
    if !is_char(s, t, '.') {
        return grammar_fail(t);
    }
    let (patch, u) = match parse_num(s, t + 1) {
        Ok(x) => x,
        Err(e) => return Err(e),
    };
    let (tiny, v) = parse_opt_number_after(s, u, '.');
    let (patchlevel, w) = parse_opt_number_after(s, v, 'p');
    let mut end = w;
    let mut prerelease: Option<String> = None;
    if is_char(s, w, '.') {
        let e = scan(s, w + 1, CharClass::AsciiAlnum);
        if e > w + 1 {
            prerelease = Some(text(src, w + 1, e).to_owned());
            end = e;
        }
    }
    Ok(
        (
            RubyVersion {
                engine: engine.to_owned(),
                major,
                minor,
                patch,
                tiny,
                patchlevel,
                prerelease,
            },
            end,
        ),
    )
}

fn parse_release_tuple(s: &[char], src: &str, p: usize) -> (r: Res<ReleaseTuple>)
    requires
        input_ok(s@, src@, p as int),
    ensures
        agrees(r, g::release_tuple(s@, p as int)),
        within(r, s@.len() as int),
        advances(r, p as int),
{
    let (name, q) = match parse_gem_name(s, src, p) {
        Ok(x) => x,
        Err(e) => return Err(e),
    };
    let r = scan(s, q, CharClass::Blank);
    if r == q {
        return grammar_fail(q);
    }
    if !is_char(s, r, '(') {
        return grammar_fail(r);
    }
    let (version, t) = match parse_version_at(s, src, r + 1) {
        Ok(x) => x,
        Err(e) => return Err(e),
    };
    let mut platform: Option<Platform> = None;
    let mut u = t;
    if is_char(s, t, '-') {
        match parse_platform(s, src, t + 1) {
            Ok((pl, e)) => {
                platform = Some(pl);
                u = e;
            },
            Err(_) => {},
        }
    }
    if !is_char(s, u, ')') {
        return grammar_fail(u);
    }
    Ok((ReleaseTuple { name: name.to_owned(), version, platform }, u + 1))
}

fn parse_spec(s: &[char], src: &str, p: usize) -> (r: Res<crate::lockfile::datatypes::Spec>)
    requires
        input_ok(s@, src@, p as int),
    ensures
        agrees(r, g::spec(s@, p as int)),
        within(r, s@.len() as int),
        advances(r, p as int),
{
    proof {
        reveal_strlit("    ");
    }
    if !str_at(s, p, "    ") {
        return grammar_fail(p);
    }
    let (release_tuple, q) = match parse_release_tuple(s, src, p + 4) {
        Ok(x) => x,
        Err(e) => return Err(e),
    };
    let r = match line_ending(s, q) {
        None => return grammar_fail(q),
        Some(r) => r,
    };
    let (deps, t) = parse_spec_deps(s, src, r);
    Ok((crate::lockfile::datatypes::Spec { release_tuple, deps }, t))
}

fn parse_specs(s: &[char], src: &str, p: usize) -> (r: (Vec<crate::lockfile::datatypes::Spec>, usize))
    requires
        input_ok(s@, src@, p as int),
    ensures
        (r.0.deep_view(), r.1 as int) == g::specs(s@, p as int),
        p <= r.1 <= s@.len(),
{
    let mut out: Vec<crate::lockfile::datatypes::Spec> = Vec::new();
    let mut cur = p;
    loop
        invariant_except_break
            input_ok(s@, src@, cur as int),
            p <= cur,
            g::specs(s@, p as int) == (
                out.deep_view() + g::specs(s@, cur as int).0,
                g::specs(s@, cur as int).1,
            ),
        ensures
            g::specs(s@, p as int) == (out.deep_view(), cur as int),
            p <= cur <= s@.len(),
        decreases s@.len() - cur,
    {
        match parse_spec(s, src, cur) {
            Ok((d, t)) => {
                let ghost old_out = out.deep_view();
                let ghost dv = d.deep_view();
                out.push(d);
                proof {
                    assert(out.deep_view() =~= old_out.push(dv));
                    let (rest, _) = g::specs(s@, t as int);
                    assert(old_out + (seq![dv] + rest) =~= out.deep_view() + rest);
                }
                cur = t;
            },
            Err(_) => {
                assert(out.deep_view() + seq![] =~= out.deep_view());
                break;
            },
        }
    }
    (out, cur)
}

fn parse_remote_field<'a>(s: &[char], src: &'a str, p: usize, key: &str) -> (r: Res<&'a str>)
    requires
        input_ok(s@, src@, p as int),
    ensures
        agrees(r, g::remote_field(s@, p as int, key@)),
        within(r, s@.len() as int),
        advances(r, p as int) || key@.len() == 0,
{
    let q = match literal(s, p, key) {
        None => return grammar_fail(p),
        Some(q) => q,
    };
    let mut k = q;
    while k < s.len() && s[k] != '\n'
        invariant
            q <= k <= s@.len() <= usize::MAX,
            g::next_newline(s@, q as int) == g::next_newline(s@, k as int),
        decreases s@.len() - k,
    {
        k = k + 1;
    }
    if k == s.len() {
        return grammar_fail(q);
    }
    Ok((text(src, q, k), k + 1))
}

fn parse_run_field<'a>(s: &[char], src: &'a str, p: usize, key: &str, cls: CharClass) -> (r: Res<&'a str>)
    requires
        input_ok(s@, src@, p as int),
    ensures
        agrees(r, g::run_field(s@, p as int, key@, cls)),
        within(r, s@.len() as int),
        advances(r, p as int),
{
    let q = match literal(s, p, key) {
        None => return grammar_fail(p),
        Some(q) => q,
    };
    let e = scan(s, q, cls);
    if e == q {
        return grammar_fail(q);
    }
    match line_ending(s, e) {
        None => grammar_fail(e),
        Some(t) => Ok((text(src, q, e), t)),
    }
}

fn parse_opt_run_field<'a>(s: &[char], src: &'a str, p: usize, key: &str, cls: CharClass) -> (r: (Option<&'a str>, usize))
    requires
        input_ok(s@, src@, p as int),
    ensures
        (r.0.deep_view(), r.1 as int) == g::opt_run_field(s@, p as int, key@, cls),
        p <= r.1 <= s@.len(),
{
    match parse_run_field(s, src, p, key, cls) {
        Ok((v, q)) => (Some(v), q),
        Err(_) => (None, p),
    }
}

fn parse_opt_submodules(s: &[char], p: usize) -> (r: (Option<bool>, usize))
    requires
        p <= s@.len() <= usize::MAX,
    ensures
        (r.0, r.1 as int) == g::opt_submodules(s@, p as int),
        p <= r.1 <= s@.len(),
{
    proof {
        reveal_strlit("true");
        reveal_strlit("false");
    }
    let q = match literal(s, p, "  submodules: ") {
        None => return (None, p),
        Some(q) => q,
    };
    let (b, r) = if str_at(s, q, "true") {
        (Some(true), q + 4)
    } else if str_at(s, q, "false") {
        (Some(false), q + 5)
    } else {
        (None, q)
    };
    match b {
        None => (None, p),
        Some(v) => match line_ending(s, r) {
            None => (None, p),
            Some(t) => (Some(v), t),
        },
    }
}

fn parse_git_section_at<'a>(s: &[char], src: &'a str, p: usize) -> (r: Res<crate::lockfile::datatypes::GitSection<'a>>)
    requires
        input_ok(s@, src@, p as int),
    ensures
        agrees(r, g::git_section(s@, p as int)),
        within(r, s@.len() as int),
{
    let q = match literal(s, p, "GIT\n") {
        None => return grammar_fail(p),
        Some(q) => q,
    };
    let (remote, r) = match parse_remote_field(s, src, q, "  remote: ") {
        Ok(x) => x,
        Err(e) => return Err(e),
    };
    let (revision, t) = match parse_run_field(s, src, r, "  revision: ", CharClass::HexDigit) {
        Ok(x) => x,
        Err(e) => return Err(e),
    };
    let (branch, t1) = parse_opt_run_field(s, src, t, "  branch: ", CharClass::RefChar);
    let (git_ref, t2) = parse_opt_run_field(s, src, t1, "  ref: ", CharClass::RefChar);
    let (tag, t3) = parse_opt_run_field(s, src, t2, "  tag: ", CharClass::RefChar);
    let (submodules, t4) = parse_opt_submodules(s, t3);
    let (glob, t5) = parse_opt_run_field(s, src, t4, "  glob: ", CharClass::GlobChar);
    let t6 = match literal(s, t5, "  specs:\n") {
        None => return grammar_fail(t5),
        Some(t6) => t6,
    };
    let (specs, t7) = parse_specs(s, src, t6);
    Ok(
        (
            crate::lockfile::datatypes::GitSection {
                remote,
                revision,
                branch,
                git_ref,
                tag,
                submodules,
                glob,
                specs,
            },
            t7,
        ),
    )
}

fn parse_gem_at<'a>(s: &[char], src: &'a str, p: usize) -> (r: Res<crate::lockfile::datatypes::GemSection<'a>>)
    requires
        input_ok(s@, src@, p as int),
    ensures
        agrees(r, g::gem_section(s@, p as int)),
        within(r, s@.len() as int),
{
    let q = match literal(s, p, "GEM\n") {
        None => return grammar_fail(p),
        Some(q) => q,
    };
    let (remote, r) = match parse_remote_field(s, src, q, "  remote: ") {
        Ok((v, r)) => (Some(v), r),
        Err(_) => (None, q),
    };
    let t = match literal(s, r, "  specs:\n") {
        None => return grammar_fail(r),
        Some(t) => t,
    };
    let (specs, u) = parse_specs(s, src, t);
    Ok((crate::lockfile::datatypes::GemSection { remote, specs }, u))
}

fn parse_path_at<'a>(s: &[char], src: &'a str, p: usize) -> (r: Res<crate::lockfile::datatypes::PathSection<'a>>)
    requires
        input_ok(s@, src@, p as int),
    ensures
        agrees(r, g::path_section(s@, p as int)),
        within(r, s@.len() as int),
{
    let q = match literal(s, p, "PATH\n") {
        None => return grammar_fail(p),
        Some(q) => q,
    };
    let (remote, r) = match parse_remote_field(s, src, q, "  remote: ") {
        Ok(x) => x,
        Err(e) => return Err(e),
    };
    let t = match literal(s, r, "  specs:\n") {
        None => return grammar_fail(r),
        Some(t) => t,
    };
    let (specs, u) = parse_specs(s, src, t);
    Ok((crate::lockfile::datatypes::PathSection { remote, specs }, u))
}

fn parse_platform_line<'a>(s: &[char], src: &'a str, p: usize) -> (r: Res<Platform>)
    requires
        input_ok(s@, src@, p as int),
    ensures
        agrees(r, g::platform_line(s@, p as int)),
        within(r, s@.len() as int),
        advances(r, p as int),
{
    let q = scan(s, p, CharClass::Blank);
    if q == p {
        return grammar_fail(p);
    }
    let (v, r) = match parse_platform(s, src, q) {
        Ok(x) => x,
        Err(e) => return Err(e),
    };
    match line_ending(s, r) {
        None => grammar_fail(r),
        Some(t) => Ok((v, t)),
    }
}

fn parse_platform_lines<'a>(s: &[char], src: &'a str, p: usize) -> (r: (Vec<Platform>, usize))
    requires
        input_ok(s@, src@, p as int),
    ensures
        (r.0.deep_view(), r.1 as int) == g::platform_lines(s@, p as int),
        p <= r.1 <= s@.len(),
{
    let mut out: Vec<Platform> = Vec::new();
    let mut cur = p;
    loop
        invariant_except_break
            input_ok(s@, src@, cur as int),
            p <= cur,
            g::platform_lines(s@, p as int) == (
                out.deep_view() + g::platform_lines(s@, cur as int).0,
                g::platform_lines(s@, cur as int).1,
            ),
        ensures
            g::platform_lines(s@, p as int) == (out.deep_view(), cur as int),
            p <= cur <= s@.len(),
        decreases s@.len() - cur,
    {
        match parse_platform_line(s, src, cur) {
            Ok((d, t)) => {
                let ghost old_out = out.deep_view();
                let ghost dv = d.deep_view();
                out.push(d);
                proof {
                    assert(out.deep_view() =~= old_out.push(dv));
                    let (rest, _) = g::platform_lines(s@, t as int);
                    assert(old_out + (seq![dv] + rest) =~= out.deep_view() + rest);
                }
                cur = t;
            },
            Err(_) => {
                assert(out.deep_view() + seq![] =~= out.deep_view());
                break;
            },
        }
    }
    (out, cur)
}

fn parse_dependency_line<'a>(s: &[char], src: &'a str, p: usize) -> (r: Res<crate::lockfile::datatypes::GemRange<'a>>)
    requires
        input_ok(s@, src@, p as int),
    ensures
        agrees(r, g::dependency_line(s@, p as int)),
        within(r, s@.len() as int),
        advances(r, p as int),
{
    let q = scan(s, p, CharClass::Blank);
    if q == p {
        return grammar_fail(p);
    }
    let (v, r) = match parse_dependency(s, src, q) {
        Ok(x) => x,
        Err(e) => return Err(e),
    };
    match line_ending(s, r) {
        None => grammar_fail(r),
        Some(t) => Ok((v, t)),
    }
}

fn parse_dependency_lines<'a>(s: &[char], src: &'a str, p: usize) -> (r: (Vec<crate::lockfile::datatypes::GemRange<'a>>, usize))
    requires
        input_ok(s@, src@, p as int),
    ensures
        (r.0.deep_view(), r.1 as int) == g::dependency_lines(s@, p as int),
        p <= r.1 <= s@.len(),
{
    let mut out: Vec<crate::lockfile::datatypes::GemRange<'a>> = Vec::new();
    let mut cur = p;
    loop
        invariant_except_break
            input_ok(s@, src@, cur as int),
            p <= cur,
            g::dependency_lines(s@, p as int) == (
                out.deep_view() + g::dependency_lines(s@, cur as int).0,
                g::dependency_lines(s@, cur as int).1,
            ),
        ensures
            g::dependency_lines(s@, p as int) == (out.deep_view(), cur as int),
            p <= cur <= s@.len(),
        decreases s@.len() - cur,
    {
        match parse_dependency_line(s, src, cur) {
            Ok((d, t)) => {
                let ghost old_out = out.deep_view();
                let ghost dv = d.deep_view();
                out.push(d);
                proof {
                    assert(out.deep_view() =~= old_out.push(dv));
                    let (rest, _) = g::dependency_lines(s@, t as int);
                    assert(old_out + (seq![dv] + rest) =~= out.deep_view() + rest);
                }
                cur = t;
            },
            Err(_) => {
                assert(out.deep_view() + seq![] =~= out.deep_view());
                break;
            },
        }
    }
    (out, cur)
}

fn parse_checksum(s: &[char], src: &str, p: usize) -> (r: Res<crate::lockfile::datatypes::Checksum>)
    requires
        input_ok(s@, src@, p as int),
    ensures
        agrees(r, g::checksum(s@, p as int)),
        within(r, s@.len() as int),
        advances(r, p as int),
{
    let (release_tuple, q) = match parse_release_tuple(s, src, p) {
        Ok(x) => x,
        Err(e) => return Err(e),
    };
    let b = scan(s, q, CharClass::Blank);
    if b > q && str_at(s, b, "sha256=") {
        let h = b + "sha256=".unicode_len();
        let t = scan(s, h, CharClass::HexDigit);
        if t == h {
            return grammar_fail(h);
        }
        match crate::bindings::hex_decode(text(src, h, t)) {
            Ok(value) => Ok(
                (
                    crate::lockfile::datatypes::Checksum {
                        release_tuple,
                        algorithm: crate::lockfile::datatypes::ChecksumAlgorithm::SHA256,
                        value,
                    },
                    t,
                ),
            ),
            Err(_) => Err(Fail { pos: h, cause: Cause::OddHexDigits }),
        }
    } else {
        let c = crate::lockfile::datatypes::Checksum {
            release_tuple,
            algorithm: crate::lockfile::datatypes::ChecksumAlgorithm::NotGiven,
            value: Vec::new(),
        };
        assert(c.deep_view().value =~= seq![]);
        Ok((c, q))
    }
}

fn parse_checksum_line<'a>(s: &[char], src: &'a str, p: usize) -> (r: Res<crate::lockfile::datatypes::Checksum>)
    requires
        input_ok(s@, src@, p as int),
    ensures
        agrees(r, g::checksum_line(s@, p as int)),
        within(r, s@.len() as int),
        advances(r, p as int),
{
    let q = scan(s, p, CharClass::Blank);
    if q == p {
        return grammar_fail(p);
    }
    let (v, r) = match parse_checksum(s, src, q) {
        Ok(x) => x,
        Err(e) => return Err(e),
    };
    match line_ending(s, r) {
        None => grammar_fail(r),
        Some(t) => Ok((v, t)),
    }
}

fn parse_checksum_lines<'a>(s: &[char], src: &'a str, p: usize) -> (r: (Vec<crate::lockfile::datatypes::Checksum>, usize))
    requires
        input_ok(s@, src@, p as int),
    ensures
        (r.0.deep_view(), r.1 as int) == g::checksum_lines(s@, p as int),
        p <= r.1 <= s@.len(),
{
    let mut out: Vec<crate::lockfile::datatypes::Checksum> = Vec::new();
    let mut cur = p;
    loop
        invariant_except_break
            input_ok(s@, src@, cur as int),
            p <= cur,
            g::checksum_lines(s@, p as int) == (
                out.deep_view() + g::checksum_lines(s@, cur as int).0,
                g::checksum_lines(s@, cur as int).1,
            ),
        ensures
            g::checksum_lines(s@, p as int) == (out.deep_view(), cur as int),
            p <= cur <= s@.len(),
        decreases s@.len() - cur,
    {
        match parse_checksum_line(s, src, cur) {
            Ok((d, t)) => {
                let ghost old_out = out.deep_view();
                let ghost dv = d.deep_view();
                out.push(d);
                proof {
                    assert(out.deep_view() =~= old_out.push(dv));
                    let (rest, _) = g::checksum_lines(s@, t as int);
                    assert(old_out + (seq![dv] + rest) =~= out.deep_view() + rest);
                }
                cur = t;
            },
            Err(_) => {
                assert(out.deep_view() + seq![] =~= out.deep_view());
                break;
            },
        }
    }
    (out, cur)
}

fn parse_platforms<'a>(s: &[char], src: &'a str, p: usize) -> (r: Res<Vec<Platform>>)
    requires
        input_ok(s@, src@, p as int),
    ensures
        agrees(r, g::platforms_section(s@, p as int)),
        within(r, s@.len() as int),
{
    let q = match literal(s, p, "PLATFORMS\n") {
        None => return grammar_fail(p),
        Some(q) => q,
    };
    let (first, r) = match parse_platform_line(s, src, q) {
        Ok(x) => x,
        Err(e) => return Err(e),
    };
    let ghost fv = first.deep_view();
    let (rest, t) = parse_platform_lines(s, src, r);
    let ghost rest_view = rest.deep_view();
    let mut out: Vec<Platform> = Vec::new();
    out.push(first);
    let mut rest = rest;
    out.append(&mut rest);
    assert(out.deep_view() =~= seq![fv] + rest_view);
    Ok((out, t))
}

fn parse_dependencies<'a>(s: &[char], src: &'a str, p: usize) -> (r: Res<Vec<crate::lockfile::datatypes::GemRange<'a>>>)
    requires
        input_ok(s@, src@, p as int),
    ensures
        agrees(r, g::dependencies_section(s@, p as int)),
        within(r, s@.len() as int),
{
    let q = match literal(s, p, "DEPENDENCIES\n") {
        None => return grammar_fail(p),
        Some(q) => q,
    };
    Ok(parse_dependency_lines(s, src, q))
}

fn parse_checksums<'a>(s: &[char], src: &'a str, p: usize) -> (r: Res<Vec<crate::lockfile::datatypes::Checksum>>)
    requires
        input_ok(s@, src@, p as int),
    ensures
        agrees(r, g::checksums_section(s@, p as int)),
        within(r, s@.len() as int),
{
    let q = match literal(s, p, "CHECKSUMS\n") {
        None => return grammar_fail(p),
        Some(q) => q,
    };
    Ok(parse_checksum_lines(s, src, q))
}

fn parse_one_line_section_start(s: &[char], p: usize, title: &str) -> (r: Res<crate::lockfile::datatypes::LockfileIndentation>)
    requires
        p <= s@.len() <= usize::MAX,
    ensures
        agrees(r, g::one_line_section_start(s@, p as int, title@)),
        within(r, s@.len() as int),
{
    proof {
        reveal_strlit("  ");
    }
    let q0 = match literal(s, p, title) {
        None => return grammar_fail(p),
        Some(q0) => q0,
    };
    let q = scan(s, q0, CharClass::Blank);
    let r = match line_ending(s, q) {
        None => return grammar_fail(q),
        Some(r) => r,
    };
    if !str_at(s, r, "  ") {
        return grammar_fail(r);
    }
    if is_char(s, r + 2, ' ') {
        Ok((crate::lockfile::datatypes::LockfileIndentation::ThreeSpaces, r + 3))
    } else {
        Ok((crate::lockfile::datatypes::LockfileIndentation::Standard, r + 2))
    }
}

fn parse_bundled_with(s: &[char], src: &str, p: usize) -> (r: Res<crate::lockfile::datatypes::BundledWithSection>)
    requires
        input_ok(s@, src@, p as int),
    ensures
        agrees(r, g::bundled_with_section(s@, p as int)),
        within(r, s@.len() as int),
{
    let (indentation, q) = match parse_one_line_section_start(s, p, "BUNDLED WITH") {
        Ok(x) => x,
        Err(e) => return Err(e),
    };
    let (bundler_version, r) = match parse_version_at(s, src, q) {
        Ok(x) => x,
        Err(e) => return Err(e),
    };
    Ok((crate::lockfile::datatypes::BundledWithSection { indentation, bundler_version }, r))
}

fn parse_ruby_version(s: &[char], src: &str, p: usize) -> (r: Res<crate::lockfile::datatypes::RubyVersionSection>)
    requires
        input_ok(s@, src@, p as int),
    ensures
        agrees(r, g::ruby_version_section(s@, p as int)),
        within(r, s@.len() as int),
{
    proof {
        reveal_strlit(" (");
        reveal_strlit(")\n");
    }
    let (indentation, q) = match parse_one_line_section_start(s, p, "RUBY VERSION") {
        Ok(x) => x,
        Err(e) => return Err(e),
    };
    let (cruby_version, r) = match parse_ruby_version_inner_at(s, src, q) {
        Ok(x) => x,
        Err(e) => return Err(e),
    };
    let mut engine_version: Option<RubyVersion> = None;
    let mut end = r;
    if str_at(s, r, " (") {
        match parse_ruby_version_inner_at(s, src, r + 2) {
            Ok((ev, t)) => {
                if str_at(s, t, ")\n") {
                    engine_version = Some(ev);
                    end = t + 2;
                }
            },
            Err(_) => {},
        }
    }
    Ok(
        (
            crate::lockfile::datatypes::RubyVersionSection {
                indentation,
                cruby_version,
                engine_version,
            },
            end,
        ),
    )
}

fn parse_empty_lines(s: &[char], p: usize) -> (r: usize)
    requires
        p <= s@.len() <= usize::MAX,
    ensures
        r as int == g::empty_lines(s@, p as int),
        p <= r <= s@.len(),
{
    let mut cur = scan(s, p, CharClass::Blank);
    loop
        invariant_except_break
            p <= cur <= s@.len() <= usize::MAX,
            g::empty_lines(s@, p as int) == g::line_endings(s@, cur as int),
        ensures
            g::empty_lines(s@, p as int) == cur as int,
            p <= cur <= s@.len(),
        decreases s@.len() - cur,
    {
        match line_ending(s, cur) {
            Some(q) => {
                cur = q;
            },
            None => {
                break;
            },
        }
    }
    cur
}

fn parse_section_header_at(s: &[char], p: usize) -> (r: Option<usize>)
    requires
        p <= s@.len() <= usize::MAX,
    ensures
        match (r, g::section_header(s@, p as int)) {
            (Some(q), Some(h)) => p < q <= s@.len() && h == s@.subrange(p as int, q as int),
            (None, None) => true,
            _ => false,
        },
{
    let q = scan(s, p, CharClass::HeaderChar);
    if q == p {
        return None;
    }
    let b = scan(s, q, CharClass::Blank);
    match line_ending(s, b) {
        None => None,
        Some(_) => Some(q),
    }
}

/// One section of a lockfile.
pub enum Section<'i> {
    Git(GitSection<'i>),
    Gem(GemSection<'i>),
    Path(PathSection<'i>),
    Platforms(Vec<Platform>),
    Dependencies(Vec<GemRange<'i>>),
    RubyVersion(RubyVersionSection),
    BundledWith(BundledWithSection),
    Checksums(Vec<Checksum>),
}

impl<'i> DeepView for Section<'i> {
    type V = g::SectionModel;

    open spec fn deep_view(&self) -> g::SectionModel {
        match self {
            Section::Git(v) => g::SectionModel::Git(v.deep_view()),
            Section::Gem(v) => g::SectionModel::Gem(v.deep_view()),
            Section::Path(v) => g::SectionModel::Path(v.deep_view()),
            Section::Platforms(v) => g::SectionModel::Platforms(v.deep_view()),
            Section::Dependencies(v) => g::SectionModel::Dependencies(v.deep_view()),
            Section::RubyVersion(v) => g::SectionModel::RubyVersion(v.deep_view()),
            Section::BundledWith(v) => g::SectionModel::BundledWith(v.deep_view()),
            Section::Checksums(v) => g::SectionModel::Checksums(v.deep_view()),
        }
    }
}

fn parse_section<'a>(s: &[char], src: &'a str, p: usize) -> (r: Res<Section<'a>>)
    requires
        input_ok(s@, src@, p as int),
    ensures
        agrees(r, g::section(s@, p as int)),
        within(r, s@.len() as int),
{
    reveal(g::section);
    let h = match parse_section_header_at(s, p) {
        None => return grammar_fail(p),
        Some(h) => h,
    };
    let r: Res<Section<'a>> = if span_is(s, p, h, "GIT") {
        match parse_git_section_at(s, src, p) {
            Ok((v, q)) => Ok((Section::Git(v), q)),
            Err(e) => Err(e),
        }
    } else if span_is(s, p, h, "GEM") {
        match parse_gem_at(s, src, p) {
            Ok((v, q)) => Ok((Section::Gem(v), q)),
            Err(e) => Err(e),
        }
    } else if span_is(s, p, h, "PATH") {
        match parse_path_at(s, src, p) {
            Ok((v, q)) => Ok((Section::Path(v), q)),
            Err(e) => Err(e),
        }
    } else if span_is(s, p, h, "PLATFORMS") {
        match parse_platforms(s, src, p) {
            Ok((v, q)) => Ok((Section::Platforms(v), q)),
            Err(e) => Err(e),
        }
    } else if span_is(s, p, h, "DEPENDENCIES") {
        match parse_dependencies(s, src, p) {
            Ok((v, q)) => Ok((Section::Dependencies(v), q)),
            Err(e) => Err(e),
        }
    } else if span_is(s, p, h, "CHECKSUMS") {
        match parse_checksums(s, src, p) {
            Ok((v, q)) => Ok((Section::Checksums(v), q)),
            Err(e) => Err(e),
        }
    } else if span_is(s, p, h, "RUBY VERSION") {
        match parse_ruby_version(s, src, p) {
            Ok((v, q)) => Ok((Section::RubyVersion(v), q)),
            Err(e) => Err(e),
        }
    } else if span_is(s, p, h, "BUNDLED WITH") {
        match parse_bundled_with(s, src, p) {
            Ok((v, q)) => Ok((Section::BundledWith(v), q)),
            Err(e) => Err(e),
        }
    } else {
        grammar_fail(p)
    };
    match r {
        Ok((v, q)) => Ok((v, parse_empty_lines(s, q))),
        Err(e) => Err(e),
    }
}

fn add_section<'a>(parsed: &mut GemfileDotLock<'a>, sec: Section<'a>)
    ensures
        final(parsed).deep_view() == g::add_section(old(parsed).deep_view(), sec.deep_view()),
{
    let ghost before = parsed.deep_view();
    match sec {
        Section::Git(v) => {
            let ghost vv = v.deep_view();
            parsed.git.push(v);
            assert(parsed.deep_view().git =~= before.git.push(vv));
        },
        Section::Gem(v) => {
            let ghost vv = v.deep_view();
            parsed.gem.push(v);
            assert(parsed.deep_view().gem =~= before.gem.push(vv));
        },
        Section::Path(v) => {
            let ghost vv = v.deep_view();
            parsed.path.push(v);
            assert(parsed.deep_view().path =~= before.path.push(vv));
        },
        Section::Platforms(v) => {
            parsed.platforms = v;
        },
        Section::Dependencies(v) => {
            parsed.dependencies = v;
        },
        Section::RubyVersion(v) => {
            parsed.ruby_version = Some(v);
        },
        Section::BundledWith(v) => {
            parsed.bundled_with = Some(v);
        },
        Section::Checksums(v) => {
            parsed.checksums = Some(v);
        },
    }
}

fn resume_point(s: &[char], f: usize) -> (r: Option<usize>)
    requires
        f <= s@.len() <= usize::MAX,
    ensures
        same_pos(r, g::resume_point(s@, f as int)),
{
    let mut k = f;
    while s.len() - k > 1
        invariant
            f <= k <= s@.len() <= usize::MAX,
            g::resume_point(s@, f as int) == g::resume_point(s@, k as int),
        decreases s@.len() - k,
    {
        if s[k] == '\n' && !char_is_whitespace(s[k + 1]) {
            return Some(k + 1);
        }
        k = k + 1;
    }
    None
}

/// The message under which a cause is reported.
fn cause_message(c: Cause) -> (m: String)
    ensures
        m@ == crate::lockfile::datatypes::cause_message(c),
{
    match c {
        Cause::Grammar => String::new(),
        Cause::NumberTooLarge => String::from_str("number too large to fit in target type"),
        Cause::OddHexDigits => String::from_str("Odd number of digits"),
    }
}

/// The errors of a parse, as they are reported.
pub open spec fn reported(errs: Seq<g::ErrorAt>) -> Seq<ParseErrorModel> {
    errs.map_values(
        |e: g::ErrorAt|
            ParseErrorModel {
                offset: e.offset,
                msg: crate::lockfile::datatypes::cause_message(e.cause),
            },
    )
}

/// Parses a `Gemfile.lock`.
///
/// Sections are read one after another. A section that does not follow the
/// grammar is reported at the character where reading it stopped, and
/// reading goes on at the next line that starts with a character other than
/// whitespace. The file is accepted when no section failed; otherwise all
/// errors are returned, with the file's contents.
#[verifier::rlimit(60)]
#[verifier::spinoff_prover]
pub fn parse<'i>(file: &'i str) -> (r: Result<GemfileDotLock<'i>, ParseErrors>)
    ensures
        match r {
            Ok(l) => g::lockfile(file@).1.len() == 0 && l.deep_view() == g::lockfile(file@).0,
            Err(e) => {
                &&& g::lockfile(file@).1.len() > 0
                &&& e.lockfile_contents@ == file@
                &&& e.others.deep_view() == reported(g::lockfile(file@).1)
                &&& forall|k: int|
                    0 <= k < e.others@.len() ==> (#[trigger] e.others@[k]).char_offset.length == 1
            },
        },
{
    let chars = chars_of(file);
    let s = chars.as_slice();
    let n = s.len();
    let mut parsed = GemfileDotLock::empty();
    let mut errors: Vec<ParseError> = Vec::new();
    let ghost mut errs: Seq<g::ErrorAt> = seq![];
    let mut i: usize = 0;
    loop
        invariant_except_break
            input_ok(s@, file@, i as int),
            n == s@.len(),
            g::lockfile(file@) == g::sections_from(s@, i as int, parsed.deep_view(), errs),
            errors.deep_view() == reported(errs),
            forall|k: int| 0 <= k < errors@.len() ==> (#[trigger] errors@[k]).char_offset.length == 1,
        ensures
            g::lockfile(file@) == (parsed.deep_view(), errs),
            errors.deep_view() == reported(errs),
            forall|k: int| 0 <= k < errors@.len() ==> (#[trigger] errors@[k]).char_offset.length == 1,
        decreases n - i,
    {
        if i >= n {
            break;
        }
        match parse_section(s, file, i) {
            Ok((sec, q)) => {
                add_section(&mut parsed, sec);
                if !(i < q && q <= n) {
                    break;
                }
                i = q;
            },
            Err(f) => {
                let ghost before = errors.deep_view();
                let err = ParseError {
                    char_offset: SourceSpan { offset: f.pos, length: 1 },
                    msg: cause_message(f.cause),
                };
                let ghost ev = err.deep_view();
                errors.push(err);
                proof {
                    let e = g::ErrorAt { offset: f.pos as int, cause: f.cause };
                    assert(errors.deep_view() =~= before.push(ev));
                    assert(reported(errs.push(e)) =~= reported(errs).push(ev));
                    errs = errs.push(e);
                }
                match resume_point(s, f.pos) {
                    Some(k) => {
                        if !(i < k && k <= n) {
                            break;
                        }
                        i = k;
                    },
                    None => {
                        break;
                    },
                }
            },
        }
    }
    if errors.len() == 0 {
        Ok(parsed)
    } else {
        Err(ParseErrors { lockfile_contents: file.to_owned(), others: errors })
    }
}

/// A `GEM` section, read from the start of `input`.
pub fn parse_gem<'a>(input: &'a str) -> (r: Res<GemSection<'a>>)
    ensures
        agrees(r, g::gem_section(input@, 0)),
{
    let cs = chars_of(input);
    parse_gem_at(cs.as_slice(), input, 0)
}

/// A `GIT` section, read from the start of `input`.
pub fn parse_git_section<'a>(input: &'a str) -> (r: Res<GitSection<'a>>)
    ensures
        agrees(r, g::git_section(input@, 0)),
{
    let cs = chars_of(input);
    parse_git_section_at(cs.as_slice(), input, 0)
}

/// A `PATH` section, read from the start of `input`.
pub fn parse_path<'a>(input: &'a str) -> (r: Res<PathSection<'a>>)
    ensures
        agrees(r, g::path_section(input@, 0)),
{
    let cs = chars_of(input);
    parse_path_at(cs.as_slice(), input, 0)
}

/// A Ruby version such as `ruby 3.3.1p55`, read from the start of `input`.
pub fn parse_ruby_version_inner<'a>(input: &'a str) -> (r: Res<RubyVersion>)
    ensures
        agrees(r, g::ruby_version_inner(input@, 0)),
{
    let cs = chars_of(input);
    parse_ruby_version_inner_at(cs.as_slice(), input, 0)
}

/// A gem version, read from the start of `input`.
pub fn parse_version<'a>(input: &'a str) -> (r: Res<Version>)
    ensures
        agrees(r, g::version(input@, 0)),
{
    let cs = chars_of(input);
    parse_version_at(cs.as_slice(), input, 0)
}

/// A dependency line under a spec, read from the start of `input`.
pub fn parse_spec_dep<'a>(input: &'a str) -> (r: Res<ProjectDependency>)
    ensures
        agrees(r, g::spec_dep(input@, 0)),
{
    let cs = chars_of(input);
    parse_spec_dep_at(cs.as_slice(), input, 0)
}

/// A bracketed list of constraints, read from the start of `input`.
pub fn spec_dep_semver<'a>(input: &'a str) -> (r: Res<Vec<VersionConstraint>>)
    ensures
        agrees(r, g::dep_semver(input@, 0)),
{
    let cs = chars_of(input);
    parse_dep_semver_at(cs.as_slice(), input, 0)
}

/// The title of the section that starts `input`, if a section title line
/// starts it.
pub fn parse_section_header<'a>(input: &'a str) -> (r: Option<&'a str>)
    ensures
        r.deep_view() == g::section_header(input@, 0),
{
    let cs = chars_of(input);
    match parse_section_header_at(cs.as_slice(), 0) {
        Some(q) => Some(text(input, 0, q)),
        None => None,
    }
}

} // verus!
