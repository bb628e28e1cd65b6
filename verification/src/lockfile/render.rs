//! The lockfile text of dependencies, specs and `GIT` sections, as Bundler
//! writes them.

use vstd::prelude::*;
use vstd::string::StringExecFns;
use crate::gem_types::{
    platform_text, ComparisonOperator, ConstraintModel, DependencyModel, ProjectDependency,
    ReleaseTuple, ReleaseTupleModel, RequirementModel, VersionConstraint,
};
use crate::lockfile::datatypes::{GitSection, GitSectionModel, Spec, SpecModel};

verus! {

/// How an operator is written.
pub open spec fn operator_text(op: ComparisonOperator) -> Seq<char> {
    match op {
        ComparisonOperator::Equal => "="@,
        ComparisonOperator::NotEqual => "!="@,
        ComparisonOperator::GreaterThan => ">"@,
        ComparisonOperator::LessThan => "<"@,
        ComparisonOperator::GreaterThanOrEqual => ">="@,
        ComparisonOperator::LessThanOrEqual => "<="@,
        ComparisonOperator::Pessimistic => "~>"@,
    }
}

/// A constraint as `OP VERSION`.
pub open spec fn constraint_lock_text(c: ConstraintModel) -> Seq<char> {
    operator_text(c.operator) + " "@ + c.version.version
}

/// Constraints separated by `, `.
pub open spec fn constraints_lock_text(cs: Seq<ConstraintModel>) -> Seq<char>
    decreases cs.len(),
{
    if cs.len() == 0 {
        seq![]
    } else if cs.len() == 1 {
        constraint_lock_text(cs[0])
    } else {
        constraints_lock_text(cs.drop_last()) + ", "@ + constraint_lock_text(cs.last())
    }
}

/// A requirement that every version meets: no constraints, or only `>= 0`.
pub open spec fn is_any_version(r: RequirementModel) -> bool {
    r.constraints.len() == 0 || (r.constraints.len() == 1 && r.constraints[0].operator
        == ComparisonOperator::GreaterThanOrEqual && r.constraints[0].version.version == "0"@)
}

/// A dependency: its name, then its constraints in brackets unless every
/// version meets them.
pub open spec fn dependency_lock_text(d: DependencyModel) -> Seq<char> {
    if is_any_version(d.requirement) {
        d.name
    } else {
        d.name + " ("@ + constraints_lock_text(d.requirement.constraints) + ")"@
    }
}

/// A release: the name, then in brackets the version and `-PLATFORM` when
/// it names one.
pub open spec fn release_tuple_lock_text(rt: ReleaseTupleModel) -> Seq<char> {
    rt.name + " ("@ + rt.version.version + match rt.platform {
        Some(p) => "-"@ + platform_text(p),
        None => seq![],
    } + ")"@
}

/// Dependency lines, each indented by six spaces.
pub open spec fn dependency_lines_text(ds: Seq<DependencyModel>) -> Seq<char>
    decreases ds.len(),
{
    if ds.len() == 0 {
        seq![]
    } else {
        dependency_lines_text(ds.drop_last()) + "      "@ + dependency_lock_text(ds.last())
            + "\n"@
    }
}

/// A spec: its release indented by four spaces, then its dependency lines.
pub open spec fn spec_lock_text(sp: SpecModel) -> Seq<char> {
    "    "@ + release_tuple_lock_text(sp.release_tuple) + "\n"@ + dependency_lines_text(sp.deps)
}

pub open spec fn specs_lock_text(ss: Seq<SpecModel>) -> Seq<char>
    decreases ss.len(),
{
    if ss.len() == 0 {
        seq![]
    } else {
        specs_lock_text(ss.drop_last()) + spec_lock_text(ss.last())
    }
}

/// An optional field: its key, its value and a line ending, when it is set.
pub open spec fn opt_field_text(key: Seq<char>, v: Option<Seq<char>>) -> Seq<char> {
    match v {
        Some(x) => key + x + "\n"@,
        None => seq![],
    }
}

pub open spec fn submodules_text(b: Option<bool>) -> Seq<char> {
    match b {
        Some(true) => "  submodules: true\n"@,
        Some(false) => "  submodules: false\n"@,
        None => seq![],
    }
}

/// A `GIT` section: title, remote and revision, the optional fields in the
/// order the grammar reads them, then the specs.
pub open spec fn git_section_lock_text(g: GitSectionModel) -> Seq<char> {
    "GIT\n"@ + "  remote: "@ + g.remote + "\n"@ + "  revision: "@ + g.revision + "\n"@
        + opt_field_text("  branch: "@, g.branch) + opt_field_text("  ref: "@, g.git_ref)
        + opt_field_text("  tag: "@, g.tag) + submodules_text(g.submodules) + opt_field_text(
        "  glob: "@,
        g.glob,
    ) + "  specs:\n"@ + specs_lock_text(g.specs)
}

impl ComparisonOperator {
    /// How the operator is written.
    pub fn as_text(&self) -> (t: &'static str)
        ensures
            t@ == operator_text(*self),
    {
        match self {
            ComparisonOperator::Equal => "=",
            ComparisonOperator::NotEqual => "!=",
            ComparisonOperator::GreaterThan => ">",
            ComparisonOperator::LessThan => "<",
            ComparisonOperator::GreaterThanOrEqual => ">=",
            ComparisonOperator::LessThanOrEqual => "<=",
            ComparisonOperator::Pessimistic => "~>",
        }
    }
}

fn append_constraint(out: &mut String, c: &VersionConstraint)
    ensures
        final(out)@ == old(out)@ + constraint_lock_text(c.deep_view()),
{
    out.append(c.operator.as_text());
    out.append(" ");
    out.append(c.version.version.as_str());
}

fn append_constraints(out: &mut String, cs: &Vec<VersionConstraint>)
    ensures
        final(out)@ == old(out)@ + constraints_lock_text(cs.deep_view()),
{
    let ghost start = out@;
    let ghost cv = cs.deep_view();
    let mut i: usize = 0;
    assert(cv.take(0) =~= seq![]);
    assert(out@ =~= start + constraints_lock_text(cv.take(0)));
    while i < cs.len()
        invariant
            i <= cv.len(),
            cv == cs.deep_view(),
            out@ == start + constraints_lock_text(cv.take(i as int)),
        decreases cv.len() - i,
    {
        assert(cv.take(i + 1).drop_last() =~= cv.take(i as int));
        assert(cv.take(i + 1).last() == cv[i as int]);
        if i > 0 {
            out.append(", ");
        }
        append_constraint(out, &cs[i]);
        proof {
            if i == 0 {
                assert(cv.take(1)[0] == cv[0]);
            }
        }
        assert(out@ =~= start + constraints_lock_text(cv.take(i + 1)));
        i = i + 1;
    }
    assert(cv.take(cv.len() as int) =~= cv);
}

impl ProjectDependency {
    /// The dependency as a lockfile writes it, such as `prism (~> 1.0)`.
    pub fn to_gemfile_lock(&self) -> (t: String)
        ensures
            t@ == dependency_lock_text(self.deep_view()),
    {
        let cs = &self.requirement.constraints;
        let any = cs.len() == 0 || (cs.len() == 1 && cs[0].operator
            == ComparisonOperator::GreaterThanOrEqual && crate::text::str_eq(
            cs[0].version.version.as_str(),
            "0",
        ));
        let mut t = self.name.clone();
        if !any {
            t.append(" (");
            append_constraints(&mut t, cs);
            t.append(")");
        }
        t
    }
}

fn append_release_tuple(out: &mut String, rt: &ReleaseTuple)
    ensures
        final(out)@ == old(out)@ + release_tuple_lock_text(rt.deep_view()),
{
    let ghost start = out@;
    out.append(rt.name.as_str());
    out.append(" (");
    out.append(rt.version.version.as_str());
    match &rt.platform {
        Some(p) => {
            out.append("-");
            let pt = p.to_text();
            out.append(pt.as_str());
        },
        None => {},
    }
    out.append(")");
    assert(out@ =~= start + release_tuple_lock_text(rt.deep_view()));
}

fn append_spec(out: &mut String, sp: &Spec)
    ensures
        final(out)@ == old(out)@ + spec_lock_text(sp.deep_view()),
{
    let ghost start = out@;
    out.append("    ");
    append_release_tuple(out, &sp.release_tuple);
    out.append("\n");
    let ghost head = out@;
    let ghost dv = sp.deps.deep_view();
    let mut i: usize = 0;
    assert(dv.take(0) =~= seq![]);
    assert(out@ =~= head + dependency_lines_text(dv.take(0)));
    while i < sp.deps.len()
        invariant
            i <= dv.len(),
            dv == sp.deps.deep_view(),
            out@ == head + dependency_lines_text(dv.take(i as int)),
        decreases dv.len() - i,
    {
        assert(dv.take(i + 1).drop_last() =~= dv.take(i as int));
        assert(dv.take(i + 1).last() == dv[i as int]);
        out.append("      ");
        let d = sp.deps[i].to_gemfile_lock();
        out.append(d.as_str());
        out.append("\n");
        assert(out@ =~= head + dependency_lines_text(dv.take(i + 1)));
        i = i + 1;
    }
    assert(dv.take(dv.len() as int) =~= dv);
    assert(out@ =~= start + spec_lock_text(sp.deep_view()));
}

fn append_opt_field(out: &mut String, key: &str, v: Option<&str>)
    ensures
        final(out)@ == old(out)@ + opt_field_text(key@, v.deep_view()),
{
    let ghost start = out@;
    match v {
        Some(x) => {
            out.append(key);
            out.append(x);
            out.append("\n");
        },
        None => {},
    }
    assert(out@ =~= start + opt_field_text(key@, v.deep_view()));
}

impl<'i> GitSection<'i> {
    /// The section as a lockfile writes it.
    pub fn to_lock_text(&self) -> (t: String)
        ensures
            t@ == git_section_lock_text(self.deep_view()),
    {
        let mut t = String::from_str("GIT\n");
        t.append("  remote: ");
        t.append(self.remote);
        t.append("\n");
        t.append("  revision: ");
        t.append(self.revision);
        t.append("\n");
        append_opt_field(&mut t, "  branch: ", self.branch);
        append_opt_field(&mut t, "  ref: ", self.git_ref);
        append_opt_field(&mut t, "  tag: ", self.tag);
        let ghost before_sub = t@;
        match self.submodules {
            Some(true) => t.append("  submodules: true\n"),
            Some(false) => t.append("  submodules: false\n"),
            None => {},
        }
        assert(t@ =~= before_sub + submodules_text(self.submodules));
        append_opt_field(&mut t, "  glob: ", self.glob);
        t.append("  specs:\n");
        let ghost head = t@;
        let ghost sv = self.specs.deep_view();
        let mut i: usize = 0;
        assert(sv.take(0) =~= seq![]);
        assert(t@ =~= head + specs_lock_text(sv.take(0)));
        while i < self.specs.len()
            invariant
                i <= sv.len(),
                sv == self.specs.deep_view(),
                t@ == head + specs_lock_text(sv.take(i as int)),
            decreases sv.len() - i,
        {
            assert(sv.take(i + 1).drop_last() =~= sv.take(i as int));
            assert(sv.take(i + 1).last() == sv[i as int]);
            append_spec(&mut t, &self.specs[i]);
            assert(t@ =~= head + specs_lock_text(sv.take(i + 1)));
            i = i + 1;
        }
        assert(sv.take(sv.len() as int) =~= sv);
        assert(t@ =~= git_section_lock_text(self.deep_view()));
        t
    }
}

/// Rendering inverts reading: the text written for an operator, followed by
/// the blank that separates it from its version, is read by the lockfile
/// grammar as that same operator, ending where the text ends.
pub proof fn lemma_operator_text_read_back(op: ComparisonOperator, rest: Seq<char>)
    ensures
        ({
            let s = operator_text(op) + " "@ + rest;
            crate::lockfile::grammar::operator(s, 0) matches Ok((read, q)) && read == op && q
                == operator_text(op).len()
        }),
{
    reveal_strlit("=");
    reveal_strlit("!=");
    reveal_strlit(">");
    reveal_strlit("<");
    reveal_strlit(">=");
    reveal_strlit("<=");
    reveal_strlit("~>");
    reveal_strlit(" ");
    let t = operator_text(op);
    let s = t + " "@ + rest;
    assert(s[t.len() as int] == ' ');
    assert(s.subrange(0, t.len() as int) =~= t);
    assert(s[0] == t[0]);
    if t.len() > 1 {
        assert(s[1] == t[1]);
    }
    assert(s.len() >= t.len() + 1);
    if t.len() == 1 {
        assert(s.subrange(0, 2) =~= seq![t[0], ' ']);
    }
}

/// Operator names are read as the renderer writes them: a text names an
/// operator exactly when it is the text written for that operator.
pub proof fn lemma_operator_names(t: Seq<char>, op: ComparisonOperator)
    ensures
        crate::gem_types::operator_named(t) == Some(op) <==> operator_text(op) == t,
{
    reveal_strlit("=");
    reveal_strlit("!=");
    reveal_strlit(">");
    reveal_strlit("<");
    reveal_strlit(">=");
    reveal_strlit("<=");
    reveal_strlit("~>");
    let lits = seq!["="@, "!="@, ">"@, "<"@, ">="@, "<="@, "~>"@];
    assert forall|a: int, b: int| 0 <= a < b < 7 implies lits[a] != lits[b] by {
        if lits[a].len() == lits[b].len() {
            if lits[a].len() == 1 {
                assert(lits[a][0] != lits[b][0]);
            } else {
                assert(lits[a][0] != lits[b][0] || lits[a][1] != lits[b][1]);
            }
        }
    }
    assert(lits[0] == "="@ && lits[1] == "!="@ && lits[2] == ">"@ && lits[3] == "<"@);
    assert(lits[4] == ">="@ && lits[5] == "<="@ && lits[6] == "~>"@);
}

} // verus!
