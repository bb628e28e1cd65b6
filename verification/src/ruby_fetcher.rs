//! Release metadata for prebuilt Rubies: release assets, the RubyInstaller2
//! releases combined into one, asset names split into version and
//! architecture, the `max-age` of a `Cache-Control` header, and the caching
//! decisions around fetching release lists.

use vstd::prelude::*;
use vstd::string::StrSliceExecFns;
use crate::bindings::{regex_captures, regex_groups};
use crate::scan::{decimal_value, digits_value};
use crate::text::{chars_of, is_ascii_digit};

verus! {

/// A downloadable file of a release.
#[derive(Debug, Clone, PartialEq, Eq)]
pub struct Asset {
    pub name: String,
    pub browser_download_url: String,
}

pub struct AssetModel {
    pub name: Seq<char>,
    pub browser_download_url: Seq<char>,
}

impl DeepView for Asset {
    type V = AssetModel;

    open spec fn deep_view(&self) -> AssetModel {
        AssetModel { name: self.name@, browser_download_url: self.browser_download_url@ }
    }
}

/// A release and its files.
#[derive(Debug, Clone, PartialEq, Eq)]
pub struct Release {
    pub name: String,
    pub assets: Vec<Asset>,
}

pub struct ReleaseModel {
    pub name: Seq<char>,
    pub assets: Seq<AssetModel>,
}

impl DeepView for Release {
    type V = ReleaseModel;

    open spec fn deep_view(&self) -> ReleaseModel {
        ReleaseModel { name: self.name@, assets: self.assets.deep_view() }
    }
}

/// The value of unsigned decimal text as `str::parse` reads it: an optional
/// `+`, then one or more ASCII digits, at most `max`.
pub open spec fn unsigned_digits(t: Seq<char>) -> Seq<char> {
    if t.len() > 0 && t[0] == '+' {
        t.subrange(1, t.len() as int)
    } else {
        t
    }
}

pub open spec fn unsigned_value(t: Seq<char>, max: nat) -> Option<nat> {
    let ds = unsigned_digits(t);
    if ds.len() > 0 && (forall|i: int| 0 <= i < ds.len() ==> #[trigger] is_ascii_digit(ds[i]))
        && digits_value(ds) <= max {
        Some(digits_value(ds))
    } else {
        None
    }
}

/// Reads unsigned decimal text as `str::parse` does for an unsigned type
/// whose largest value is `max`.
pub fn parse_unsigned(t: &str, max: u64) -> (r: Option<u64>)
    ensures
        match (r, unsigned_value(t@, max as nat)) {
            (Some(v), Some(mv)) => v as nat == mv,
            (None, None) => true,
            _ => false,
        },
{
    let cs = chars_of(t);
    let n = cs.len();
    let start: usize = if n > 0 && cs[0] == '+' {
        1
    } else {
        0
    };
    let ghost ds = cs@.subrange(start as int, n as int);
    assert(ds =~= unsigned_digits(t@));
    if start == n {
        return None;
    }
    let mut i = start;
    while i < n
        invariant
            start <= i <= n,
            n == cs@.len(),
            cs@ == t@,
            ds == cs@.subrange(start as int, n as int),
            ds == unsigned_digits(t@),
            forall|j: int| start <= j < i ==> #[trigger] is_ascii_digit(cs@[j]),
        decreases n - i,
    {
        if !('0' <= cs[i] && cs[i] <= '9') {
            assert(!is_ascii_digit(ds[i - start]));
            assert(!(forall|j: int| 0 <= j < ds.len() ==> #[trigger] is_ascii_digit(ds[j])));
            return None;
        }
        i = i + 1;
    }
    assert forall|j: int| 0 <= j < ds.len() implies #[trigger] is_ascii_digit(ds[j]) by {
        assert(ds[j] == cs@[start + j]);
    }
    decimal_value(cs.as_slice(), start, n, max)
}

/// The regular expression that finds `max-age` in a `Cache-Control` header.
pub const MAX_AGE_PATTERN: &'static str = "max-age=(\\d+)";

/// The `max-age` that capture groups of `MAX_AGE_PATTERN` give: the digits
/// of the first group, when they make a number that fits in 64 bits.
pub open spec fn max_age_in(groups: Option<Seq<Option<(Seq<char>, Seq<char>)>>>) -> Option<nat> {
    match groups {
        Some(groups) => if groups.len() > 1 {
            match groups[1] {
                Some((_, digits)) => unsigned_value(digits, u64::MAX as nat),
                None => None,
            }
        } else {
            None
        },
        None => None,
    }
}

/// The `max-age` of a `Cache-Control` header, in seconds: the digits after
/// the first `max-age=`, when they make a number that fits in 64 bits.
pub open spec fn max_age_of(header: Seq<char>) -> Option<nat> {
    max_age_in(regex_groups(MAX_AGE_PATTERN@, header))
}

/// The `max-age`, in seconds, that the capture groups of `MAX_AGE_PATTERN`
/// in a header give.
pub fn max_age_from_captures(groups: &Option<Vec<Option<(String, String)>>>) -> (r: Option<u64>)
    ensures
        match (r, max_age_in(groups.deep_view())) {
            (Some(v), Some(mv)) => v as nat == mv,
            (None, None) => true,
            _ => false,
        },
{
    let groups = match groups {
        Some(g) => g,
        None => return None,
    };
    if groups.len() <= 1 {
        return None;
    }
    match &groups[1] {
        Some((_, digits)) => parse_unsigned(digits.as_str(), u64::MAX),
        None => None,
    }
}

/// Parses the `max-age` value, in seconds, from a `Cache-Control` header.
pub fn parse_max_age(header: &str) -> (r: Option<u64>)
    ensures
        match (r, max_age_of(header@)) {
            (Some(v), Some(mv)) => v as nat == mv,
            (None, None) => true,
            _ => false,
        },
{
    let groups = regex_captures(MAX_AGE_PATTERN, header);
    max_age_from_captures(&groups)
}

/// The regular expression that finds the architecture in the name of a
/// prebuilt Ruby archive.
pub const ARCH_PATTERN: &'static str = "ruby-[\\d\\.a-z-]+\\.(?P<arch>[a-zA-Z0-9_]+)\\.(?:tar\\.gz|7z)";

/// The version text and architecture text of an archive name, given the
/// capture groups of `ARCH_PATTERN` in it: the architecture group, and the
/// text before it without the dot that precedes it. Without a match, the
/// whole name and `unknown`.
pub open spec fn asset_parts_in(
    name: Seq<char>,
    groups: Option<Seq<Option<(Seq<char>, Seq<char>)>>>,
) -> (Seq<char>, Seq<char>) {
    match groups {
        Some(groups) => if groups.len() > 1 && groups[1] is Some {
            let (before, arch) = groups[1]->0;
            (
                if before.len() > 0 {
                    before.drop_last()
                } else {
                    before
                },
                arch,
            )
        } else {
            (name, "unknown"@)
        },
        None => (name, "unknown"@),
    }
}

/// The version text and architecture text of an archive name.
pub open spec fn asset_parts(name: Seq<char>) -> (Seq<char>, Seq<char>) {
    asset_parts_in(name, regex_groups(ARCH_PATTERN@, name))
}

/// The version text and architecture text of the archive name `name`, given
/// the capture groups of `ARCH_PATTERN` in it.
pub fn version_and_arch_from_captures(
    name: &str,
    groups: &Option<Vec<Option<(String, String)>>>,
) -> (r: (String, String))
    ensures
        (r.0@, r.1@) == asset_parts_in(name@, groups.deep_view()),
{
    let groups = match groups {
        Some(g) => g,
        None => return (name.to_owned(), String::from_str("unknown")),
    };
    if groups.len() <= 1 {
        return (name.to_owned(), String::from_str("unknown"));
    }
    match &groups[1] {
        Some((before, arch)) => {
            let n = before.as_str().unicode_len();
            let version = if n > 0 {
                before.as_str().substring_char(0, n - 1).to_owned()
            } else {
                before.clone()
            };
            (version, arch.clone())
        },
        None => (name.to_owned(), String::from_str("unknown")),
    }
}

/// Splits the name of a prebuilt Ruby archive, such as
/// `ruby-3.3.0.arm64_sonoma.tar.gz`, into its version text (`ruby-3.3.0`)
/// and architecture text (`arm64_sonoma`).
pub fn asset_version_and_arch(name: &str) -> (r: (String, String))
    ensures
        (r.0@, r.1@) == asset_parts(name@),
{
    let groups = regex_captures(ARCH_PATTERN, name);
    version_and_arch_from_captures(name, &groups)
}

} // verus!

verus! {

/// The regular expression of RubyInstaller2 archive names: version,
/// revision and architecture, as in `rubyinstaller-3.4.8-1-x64.7z`.
pub const RUBYINSTALLER_PATTERN: &'static str = "^rubyinstaller-(.+)-(\\d+)-(x64|x86|arm)\\.7z$";

/// The name prefix of RubyInstaller2 development kits.
pub const DEVKIT_PREFIX: &'static str = "rubyinstaller-devkit-";

/// A RubyInstaller2 archive kept for combining: its version, architecture,
/// revision, and the asset under its normalized name.
pub struct Candidate {
    pub version: Seq<char>,
    pub arch: Seq<char>,
    pub revision: nat,
    pub asset: AssetModel,
}

/// The text of group `i`, if it took part in the match.
pub open spec fn group_text(groups: Seq<Option<(Seq<char>, Seq<char>)>>, i: int) -> Option<
    Seq<char>,
> {
    if 0 <= i < groups.len() {
        match groups[i] {
            Some((_, t)) => Some(t),
            None => None,
        }
    } else {
        None
    }
}

/// The normalized name of a RubyInstaller2 archive: `ruby-VERSION.ARCH.7z`.
pub open spec fn normalized_name(version: Seq<char>, arch: Seq<char>) -> Seq<char> {
    "ruby-"@ + version + "."@ + arch + ".7z"@
}

/// What an asset contributes to the combined release: nothing for a
/// development kit, for a name that is not a RubyInstaller2 archive, and for
/// a 32-bit (`x86`) archive; otherwise the archive, whose revision is read as
/// `str::parse` reads a `u32`, or 0 when that fails.
pub open spec fn candidate(a: AssetModel) -> Option<Candidate> {
    if a.name.len() >= DEVKIT_PREFIX@.len() && a.name.subrange(0, DEVKIT_PREFIX@.len() as int)
        == DEVKIT_PREFIX@ {
        None
    } else {
        candidate_in(a, regex_groups(RUBYINSTALLER_PATTERN@, a.name))
    }
}

/// What an asset that is no development kit contributes, given the capture
/// groups of `RUBYINSTALLER_PATTERN` in its name: nothing without a match
/// or for a 32-bit (`x86`) archive; otherwise the archive, whose revision is
/// read as `str::parse` reads a `u32`, or 0 when that fails.
pub open spec fn candidate_in(
    a: AssetModel,
    groups: Option<Seq<Option<(Seq<char>, Seq<char>)>>>,
) -> Option<Candidate> {
    match groups {
        Some(gs) => match (group_text(gs, 1), group_text(gs, 2), group_text(gs, 3)) {
            (Some(v), Some(r), Some(arch)) => if arch == "x86"@ {
                None
            } else {
                Some(
                    Candidate {
                        version: v,
                        arch: arch,
                        revision: match unsigned_value(r, u32::MAX as nat) {
                            Some(n) => n,
                            None => 0,
                        },
                        asset: AssetModel {
                            name: normalized_name(v, arch),
                            browser_download_url: a.browser_download_url,
                        },
                    },
                )
            },
            _ => None,
        },
        None => None,
    }
}

/// The assets of all releases, in order.
pub open spec fn all_assets(rs: Seq<ReleaseModel>) -> Seq<AssetModel>
    decreases rs.len(),
{
    if rs.len() == 0 {
        seq![]
    } else {
        all_assets(rs.drop_last()) + rs.last().assets
    }
}

/// The position of the entry for `version` and `arch`, if there is one.
pub open spec fn key_index(best: Seq<Candidate>, version: Seq<char>, arch: Seq<char>) -> Option<int>
    decreases best.len(),
{
    if best.len() == 0 {
        None
    } else {
        match key_index(best.drop_last(), version, arch) {
            Some(i) => Some(i),
            None => if best.last().version == version && best.last().arch == arch {
                Some(best.len() - 1)
            } else {
                None
            },
        }
    }
}

/// The entries after considering one more asset: a new version and
/// architecture is added at the end; a higher revision replaces the entry of
/// its version and architecture; anything else leaves them as they were.
pub open spec fn consider(best: Seq<Candidate>, c: Option<Candidate>) -> Seq<Candidate> {
    match c {
        None => best,
        Some(c) => match key_index(best, c.version, c.arch) {
            None => best.push(c),
            Some(i) => if c.revision > best[i].revision {
                best.update(i, c)
            } else {
                best
            },
        },
    }
}

/// For each version and architecture, in the order they first appear, the
/// first archive of the highest revision.
pub open spec fn best_archives(assets: Seq<AssetModel>) -> Seq<Candidate>
    decreases assets.len(),
{
    if assets.len() == 0 {
        seq![]
    } else {
        consider(best_archives(assets.drop_last()), candidate(assets.last()))
    }
}

/// `a` comes before `b`, or is equal to it, in the order of `String`:
/// lexicographic by character.
pub open spec fn lex_le(a: Seq<char>, b: Seq<char>) -> bool
    decreases a.len(),
{
    if a.len() == 0 {
        true
    } else if b.len() == 0 {
        false
    } else if a[0] != b[0] {
        a[0] < b[0]
    } else {
        lex_le(a.drop_first(), b.drop_first())
    }
}

pub proof fn lemma_lex_total(a: Seq<char>, b: Seq<char>)
    ensures
        lex_le(a, b) || lex_le(b, a),
    decreases a.len(),
{
    if a.len() > 0 && b.len() > 0 && a[0] == b[0] {
        lemma_lex_total(a.drop_first(), b.drop_first());
    }
}

pub proof fn lemma_lex_trans(a: Seq<char>, b: Seq<char>, c: Seq<char>)
    requires
        lex_le(a, b),
        lex_le(b, c),
    ensures
        lex_le(a, c),
    decreases a.len(),
{
    if a.len() > 0 && b.len() > 0 && c.len() > 0 && a[0] == b[0] && b[0] == c[0] {
        lemma_lex_trans(a.drop_first(), b.drop_first(), c.drop_first());
    }
}

/// The assets are in order of their names.
pub open spec fn sorted_by_name(assets: Seq<AssetModel>) -> bool {
    forall|i: int, j: int| 0 <= i < j < assets.len() ==> lex_le(#[trigger] assets[i].name, #[trigger] assets[j].name)
}

/// The assets of the entries.
pub open spec fn archive_assets(best: Seq<Candidate>) -> Seq<AssetModel> {
    best.map_values(|c: Candidate| c.asset)
}

/// `a` comes before or equals `b` in the order of `String`.
pub fn name_le(a: &str, b: &str) -> (r: bool)
    ensures
        r == lex_le(a@, b@),
{
    let x = chars_of(a);
    let y = chars_of(b);
    let mut i: usize = 0;
    assert(x@.subrange(0, x@.len() as int) =~= x@);
    assert(y@.subrange(0, y@.len() as int) =~= y@);
    while i < x.len() && i < y.len() && x[i] == y[i]
        invariant
            i <= x@.len(),
            i <= y@.len(),
            x@ == a@,
            y@ == b@,
            lex_le(a@, b@) == lex_le(x@.subrange(i as int, x@.len() as int), y@.subrange(i as int, y@.len() as int)),
        decreases x@.len() - i,
    {
        assert(x@.subrange(i as int, x@.len() as int).drop_first() =~= x@.subrange(i + 1, x@.len() as int));
        assert(y@.subrange(i as int, y@.len() as int).drop_first() =~= y@.subrange(i + 1, y@.len() as int));
        i = i + 1;
    }
    if i == x.len() {
        true
    } else if i == y.len() {
        false
    } else {
        x[i] < y[i]
    }
}

/// A kept archive, as the combining keeps it.
pub struct Archive {
    pub version: String,
    pub arch: String,
    pub revision: u32,
    pub asset: Asset,
}

impl DeepView for Archive {
    type V = Candidate;

    open spec fn deep_view(&self) -> Candidate {
        Candidate {
            version: self.version@,
            arch: self.arch@,
            revision: self.revision as nat,
            asset: self.asset.deep_view(),
        }
    }
}

/// What an asset contributes to the combined release.
pub fn archive_of(a: &Asset) -> (r: Option<Archive>)
    ensures
        r.deep_view() == candidate(a.deep_view()),
{
    let name = chars_of(a.name.as_str());
    if crate::scan::str_at(name.as_slice(), 0, DEVKIT_PREFIX) {
        assert(a.name@.subrange(0, DEVKIT_PREFIX@.len() as int) =~= DEVKIT_PREFIX@);
        return None;
    }
    proof {
        if a.name@.len() >= DEVKIT_PREFIX@.len() && a.name@.subrange(0, DEVKIT_PREFIX@.len() as int) == DEVKIT_PREFIX@ {
            assert(crate::scan::has_at(name@, 0, DEVKIT_PREFIX@));
        }
    }
    let groups = regex_captures(RUBYINSTALLER_PATTERN, a.name.as_str());
    archive_from_captures(a, &groups)
}

/// What an asset that is no development kit contributes, given the capture
/// groups of `RUBYINSTALLER_PATTERN` in its name.
pub fn archive_from_captures(a: &Asset, groups: &Option<Vec<Option<(String, String)>>>) -> (r:
    Option<Archive>)
    ensures
        r.deep_view() == candidate_in(a.deep_view(), groups.deep_view()),
{
    let groups = match groups {
        Some(g) => g,
        None => return None,
    };
    if groups.len() < 4 {
        return None;
    }
    let version = match &groups[1] {
        Some((_, t)) => t,
        None => return None,
    };
    let revision_text = match &groups[2] {
        Some((_, t)) => t,
        None => return None,
    };
    let arch = match &groups[3] {
        Some((_, t)) => t,
        None => return None,
    };
    if crate::text::str_eq(arch.as_str(), "x86") {
        return None;
    }
    let revision = match parse_unsigned(revision_text.as_str(), 0xffff_ffff) {
        Some(n) => n as u32,
        None => 0,
    };
    let mut name = String::from_str("ruby-");
    name.append(version.as_str());
    name.append(".");
    name.append(arch.as_str());
    name.append(".7z");
    Some(
        Archive {
            version: version.clone(),
            arch: arch.clone(),
            revision,
            asset: Asset { name, browser_download_url: a.browser_download_url.clone() },
        },
    )
}


/// The entry that `key_index` finds is the first with that version and
/// architecture; when it finds none, no entry has them.
proof fn lemma_key_index(best: Seq<Candidate>, version: Seq<char>, arch: Seq<char>)
    ensures
        match key_index(best, version, arch) {
            Some(i) => 0 <= i < best.len() && best[i].version == version && best[i].arch == arch
                && forall|j: int|
                0 <= j < i ==> (#[trigger] best[j]).version != version || best[j].arch != arch,
            None => forall|j: int|
                0 <= j < best.len() ==> (#[trigger] best[j]).version != version || best[j].arch
                    != arch,
        },
    decreases best.len(),
{
    if best.len() > 0 {
        lemma_key_index(best.drop_last(), version, arch);
        assert forall|j: int| 0 <= j < best.len() - 1 implies #[trigger] best[j] == best.drop_last()[j] by {}
    }
}

/// Adds what one asset contributes to the kept archives.
fn consider_archive(best: &mut Vec<Archive>, c: Option<Archive>)
    ensures
        final(best).deep_view() == consider(old(best).deep_view(), c.deep_view()),
{
    let ghost old_dv = best.deep_view();
    let ghost c_dv = c.deep_view();
    let arc = match c {
        None => return,
        Some(a) => a,
    };
    let ghost cdv = arc.deep_view();
    assert(c_dv == Some(cdv));
    let mut k: usize = 0;
    while k < best.len()
        invariant
            k <= best@.len(),
            best.deep_view() == old_dv,
            old_dv == old(best).deep_view(),
            c_dv == Some(cdv),
            c_dv == c.deep_view(),
            cdv == arc.deep_view(),
            forall|j: int|
                0 <= j < k ==> (#[trigger] old_dv[j]).version != cdv.version || old_dv[j].arch
                    != cdv.arch,
        decreases best@.len() - k,
    {
        assert(old_dv[k as int] == best@[k as int].deep_view());
        if crate::text::str_eq(best[k].version.as_str(), arc.version.as_str()) && crate::text::str_eq(
            best[k].arch.as_str(),
            arc.arch.as_str(),
        ) {
            assert(old_dv[k as int].version == cdv.version && old_dv[k as int].arch == cdv.arch);
            proof {
                lemma_key_index(old_dv, cdv.version, cdv.arch);
            }
            assert(key_index(old_dv, cdv.version, cdv.arch) == Some(k as int));
            if arc.revision > best[k].revision {
                best[k] = arc;
                assert(best.deep_view() =~= old_dv.update(k as int, cdv));
            }
            return;
        }
        k = k + 1;
    }
    proof {
        lemma_key_index(old_dv, cdv.version, cdv.arch);
    }
    best.push(arc);
    assert(best.deep_view() =~= old_dv.push(cdv));
}

/// Inserting `x` where everything before is no greater and the next is no
/// smaller keeps the assets in order of their names.
proof fn lemma_insert_sorted(s: Seq<AssetModel>, p: int, x: AssetModel)
    requires
        sorted_by_name(s),
        0 <= p <= s.len(),
        forall|q: int| 0 <= q < p ==> lex_le(#[trigger] s[q].name, x.name),
        p < s.len() ==> lex_le(x.name, s[p].name),
    ensures
        sorted_by_name(s.insert(p, x)),
{
    let n = s.insert(p, x);
    assert forall|i: int, j: int| 0 <= i < j < n.len() implies lex_le(
        #[trigger] n[i].name,
        #[trigger] n[j].name,
    ) by {
        if j < p {
        } else if j == p {
            assert(n[i] == s[i]);
        } else if i < p {
            assert(n[i] == s[i] && n[j] == s[j - 1]);
        } else if i == p {
            assert(n[j] == s[j - 1]);
            if j - 1 > p {
                lemma_lex_trans(x.name, s[p].name, s[j - 1].name);
            }
        } else {
            assert(n[i] == s[i - 1] && n[j] == s[j - 1]);
        }
    }
}

fn copy_asset(a: &Asset) -> (r: Asset)
    ensures
        r.deep_view() == a.deep_view(),
{
    Asset { name: a.name.clone(), browser_download_url: a.browser_download_url.clone() }
}

/// Normalizes RubyInstaller2's releases, one per Ruby version, into a single
/// release named `rubyinstaller2-combined`. Development kits, names that are
/// not RubyInstaller2 `.7z` archives and 32-bit (`x86`) archives are left
/// out; each archive is renamed `ruby-VERSION.ARCH.7z`; of the archives of
/// one version and architecture only the first of the highest revision is
/// kept; the assets come out in order of their names.
pub fn combine_rubyinstaller2_releases(releases: Vec<Release>) -> (r: Release)
    ensures
        r.name@ == "rubyinstaller2-combined"@,
        sorted_by_name(r.assets.deep_view()),
        r.assets.deep_view().to_multiset() == archive_assets(
            best_archives(all_assets(releases.deep_view())),
        ).to_multiset(),
{
    let ghost rs = releases.deep_view();
    let mut best: Vec<Archive> = Vec::new();
    let mut i: usize = 0;
    assert(rs.take(0) =~= Seq::<ReleaseModel>::empty());
    while i < releases.len()
        invariant
            i <= rs.len(),
            rs == releases.deep_view(),
            best.deep_view() == best_archives(all_assets(rs.take(i as int))),
        decreases rs.len() - i,
    {
        let assets = &releases[i].assets;
        let ghost before = all_assets(rs.take(i as int));
        let ghost ra = rs[i as int].assets;
        assert(ra == assets.deep_view());
        let mut j: usize = 0;
        assert(before + ra.take(0) =~= before);
        while j < assets.len()
            invariant
                j <= assets@.len(),
                ra == assets.deep_view(),
                best.deep_view() == best_archives(before + ra.take(j as int)),
            decreases assets@.len() - j,
        {
            let c = archive_of(&assets[j]);
            consider_archive(&mut best, c);
            proof {
                let s = before + ra.take(j as int);
                assert(before + ra.take(j + 1) =~= s.push(ra[j as int]));
                assert(s.push(ra[j as int]).drop_last() =~= s);
            }
            j = j + 1;
        }
        proof {
            assert(rs.take(i + 1).drop_last() =~= rs.take(i as int));
            assert(ra.take(ra.len() as int) =~= ra);
        }
        i = i + 1;
    }
    assert(rs.take(rs.len() as int) =~= rs);
    let ghost target = archive_assets(best.deep_view());
    let mut sorted: Vec<Asset> = Vec::new();
    let mut k: usize = 0;
    assert(sorted.deep_view() =~= target.take(0));
    while k < best.len()
        invariant
            k <= best@.len(),
            target == archive_assets(best.deep_view()),
            sorted_by_name(sorted.deep_view()),
            sorted.deep_view().to_multiset() == target.take(k as int).to_multiset(),
        decreases best@.len() - k,
    {
        let a = &best[k].asset;
        assert(target[k as int] == a.deep_view());
        let ghost s = sorted.deep_view();
        let mut p: usize = 0;
        while p < sorted.len()
            invariant
                p <= s.len(),
                s == sorted.deep_view(),
                forall|q: int| 0 <= q < p ==> lex_le(#[trigger] s[q].name, a.name@),
            ensures
                p <= s.len(),
                forall|q: int| 0 <= q < p ==> lex_le(#[trigger] s[q].name, a.name@),
                p < s.len() ==> !lex_le(s[p as int].name, a.name@),
            decreases s.len() - p,
        {
            if !name_le(sorted[p].name.as_str(), a.name.as_str()) {
                break;
            }
            p = p + 1;
        }
        proof {
            if p < s.len() {
                lemma_lex_total(s[p as int].name, a.name@);
            }
            lemma_insert_sorted(s, p as int, a.deep_view());
            vstd::seq_lib::to_multiset_insert(s, p as int, a.deep_view());
            vstd::seq_lib::to_multiset_build(target.take(k as int), target[k as int]);
            assert(target.take(k + 1) =~= target.take(k as int).push(target[k as int]));
        }
        sorted.insert(p, copy_asset(a));
        assert(sorted.deep_view() =~= s.insert(p as int, target[k as int]));
        k = k + 1;
    }
    assert(target.take(target.len() as int) =~= target);
    Release { name: String::from_str("rubyinstaller2-combined"), assets: sorted }
}

/// Where the list of prebuilt Rubies for a host comes from: the cache file
/// it is kept in, the environment variable that overrides its URL, and the
/// URL otherwise.
#[derive(Debug, Clone, Copy, PartialEq, Eq)]
pub struct ReleaseSource {
    pub cache_file: &'static str,
    pub env_var: &'static str,
    pub default_url: &'static str,
}

/// On Windows the releases of `oneclick/rubyinstaller2` (one per Ruby
/// version); elsewhere the latest release of `spinel-coop/rv-ruby` (all
/// versions in one).
pub fn release_source(windows: bool) -> (r: ReleaseSource)
    ensures
        windows ==> r.cache_file@ == "rubyinstaller2.json"@ && r.env_var@ == "RV_WINDOWS_LIST_URL"@
            && r.default_url@
            == "https://api.github.com/repos/oneclick/rubyinstaller2/releases?per_page=100"@,
        !windows ==> r.cache_file@ == "available_rubies.json"@ && r.env_var@ == "RV_LIST_URL"@
            && r.default_url@ == "https://api.github.com/repos/spinel-coop/rv-ruby/releases/latest"@,
{
    if windows {
        ReleaseSource {
            cache_file: "rubyinstaller2.json",
            env_var: "RV_WINDOWS_LIST_URL",
            default_url: "https://api.github.com/repos/oneclick/rubyinstaller2/releases?per_page=100",
        }
    } else {
        ReleaseSource {
            cache_file: "available_rubies.json",
            env_var: "RV_LIST_URL",
            default_url: "https://api.github.com/repos/spinel-coop/rv-ruby/releases/latest",
        }
    }
}

/// A point in time: seconds and nanoseconds since the UNIX epoch.
#[derive(Debug, Clone, Copy, PartialEq, Eq, Structural)]
pub struct Timestamp {
    pub secs: u64,
    pub nanos: u32,
}

/// `a` comes strictly before `b`.
pub open spec fn earlier(a: Timestamp, b: Timestamp) -> bool {
    a.secs < b.secs || (a.secs == b.secs && a.nanos < b.nanos)
}

/// `a` comes strictly before `b`.
pub fn is_earlier(a: Timestamp, b: Timestamp) -> (r: bool)
    ensures
        r == earlier(a, b),
{
    a.secs < b.secs || (a.secs == b.secs && a.nanos < b.nanos)
}

/// The time `secs` seconds after `now`.
pub open spec fn later_by(now: Timestamp, secs: u64) -> Timestamp {
    Timestamp { secs: (now.secs + secs) as u64, nanos: now.nanos }
}

/// A release list kept on disk, with the time it goes stale and the ETag the
/// server sent with it.
#[derive(Debug, Clone, PartialEq, Eq)]
pub struct CachedRelease {
    pub expires_at: Timestamp,
    pub etag: Option<String>,
    pub release: Release,
}

pub struct CachedReleaseModel {
    pub expires_at: Timestamp,
    pub etag: Option<Seq<char>>,
    pub release: ReleaseModel,
}

impl DeepView for CachedRelease {
    type V = CachedReleaseModel;

    open spec fn deep_view(&self) -> CachedReleaseModel {
        CachedReleaseModel {
            expires_at: self.expires_at,
            etag: self.etag.deep_view(),
            release: self.release.deep_view(),
        }
    }
}

/// GitHub's cache lifetime is used, but a list is not checked again sooner
/// than this many seconds.
pub const MINIMUM_CACHE_TTL_SECS: u64 = 60;

/// The cache lifetime when the response gives no usable `max-age`.
pub const DEFAULT_MAX_AGE_SECS: u64 = 60;

/// The cache lifetime, in seconds, for a response with the given `max-age`:
/// the `max-age`, or 60 seconds without one, and never less than 60 seconds.
pub open spec fn ttl_of(max_age: Option<nat>) -> nat {
    let age = match max_age {
        Some(a) => a,
        None => DEFAULT_MAX_AGE_SECS as nat,
    };
    if age < MINIMUM_CACHE_TTL_SECS {
        MINIMUM_CACHE_TTL_SECS as nat
    } else {
        age
    }
}

/// The cache lifetime, in seconds, for a response whose `Cache-Control`
/// header, if it had a readable one, is `cache_control`.
pub fn cache_ttl(cache_control: Option<&str>) -> (ttl: u64)
    ensures
        ttl as nat == ttl_of(
            match cache_control {
                Some(h) => max_age_of(h@),
                None => None,
            },
        ),
        ttl >= MINIMUM_CACHE_TTL_SECS,
{
    let age = match cache_control {
        Some(h) => match parse_max_age(h) {
            Some(a) => a,
            None => DEFAULT_MAX_AGE_SECS,
        },
        None => DEFAULT_MAX_AGE_SECS,
    };
    if age < MINIMUM_CACHE_TTL_SECS {
        MINIMUM_CACHE_TTL_SECS
    } else {
        age
    }
}

/// The time `ttl_secs` seconds after `now`.
pub fn expiry_after(now: Timestamp, ttl_secs: u64) -> (t: Timestamp)
    requires
        now.secs + ttl_secs <= u64::MAX,
    ensures
        t == later_by(now, ttl_secs),
{
    Timestamp { secs: now.secs + ttl_secs, nanos: now.nanos }
}

/// What to do before any request is made for a release list.
#[derive(Debug, Clone, PartialEq, Eq)]
pub enum FetchPlan {
    /// The list is switched off: answer with an empty release.
    EmptyRelease,
    /// The cached list is still fresh: answer with it.
    UseCached,
    /// Ask the server, with the cached ETag if there is one.
    Request { if_none_match: Option<String> },
}

/// The release answered when the list URL is `-`.
pub fn empty_release() -> (r: Release)
    ensures
        r.name@ == "Empty release"@,
        r.assets@.len() == 0,
{
    Release { name: String::from_str("Empty release"), assets: Vec::new() }
}

/// The list URL `-` switches the list off: no request is made and no
/// cache is read.
pub fn list_disabled(url: &str) -> (b: bool)
    ensures
        b == (url@ == "-"@),
{
    crate::text::str_eq(url, "-")
}

/// The text a cache entry's key is derived from: the URL, `-`, and the
/// cache file's name.
pub fn cache_key_text(url: &str, cache_file: &str) -> (t: String)
    ensures
        t@ == url@ + "-"@ + cache_file@,
{
    let mut t = url.to_owned();
    t.append("-");
    t.append(cache_file);
    t
}

/// Decides how to get a release list from `url` at time `now`, given what
/// the cache holds: a URL of `-` asks for nothing and gives an empty
/// release; a cached list that has not expired is used as it is; otherwise
/// the server is asked, conditionally on the cached ETag.
pub fn plan_fetch(url: &str, cached: &Option<CachedRelease>, now: Timestamp) -> (p: FetchPlan)
    ensures
        url@ == "-"@ ==> p is EmptyRelease,
        url@ != "-"@ ==> match cached {
            Some(c) => if earlier(now, c.expires_at) {
                p is UseCached
            } else {
                p matches FetchPlan::Request { if_none_match } && if_none_match.deep_view()
                    == c.etag.deep_view()
            },
            None => p matches FetchPlan::Request { if_none_match } && if_none_match is None,
        },
{
    if list_disabled(url) {
        return FetchPlan::EmptyRelease;
    }
    match cached {
        Some(c) => {
            if is_earlier(now, c.expires_at) {
                FetchPlan::UseCached
            } else {
                let etag = match &c.etag {
                    Some(e) => Some(e.clone()),
                    None => None,
                };
                FetchPlan::Request { if_none_match: etag }
            }
        },
        None => FetchPlan::Request { if_none_match: None },
    }
}

/// What a response to a release-list request leads to.
#[derive(Debug, Clone, Copy, PartialEq, Eq, Structural)]
pub enum ResponseStep {
    /// 304 with a cached list: keep it, with a new expiry.
    Revalidated,
    /// 304 without a cached list: an error.
    MissingCache,
    /// 200: read the body and cache the new list.
    Fresh,
    /// Any other status: an error.
    Failed,
}

/// Classifies the HTTP status of the response to a release-list request.
pub fn response_step(status: u16, has_cache: bool) -> (s: ResponseStep)
    ensures
        status == 304 && has_cache ==> s == ResponseStep::Revalidated,
        status == 304 && !has_cache ==> s == ResponseStep::MissingCache,
        status == 200 ==> s == ResponseStep::Fresh,
        status != 304 && status != 200 ==> s == ResponseStep::Failed,
{
    if status == 304 {
        if has_cache {
            ResponseStep::Revalidated
        } else {
            ResponseStep::MissingCache
        }
    } else if status == 200 {
        ResponseStep::Fresh
    } else {
        ResponseStep::Failed
    }
}

/// The cached list after the server confirmed it unchanged: the same list
/// and ETag, expiring `ttl_secs` seconds after `now`.
pub fn revalidated_entry(cached: CachedRelease, ttl_secs: u64, now: Timestamp) -> (c: CachedRelease)
    requires
        now.secs + ttl_secs <= u64::MAX,
    ensures
        c.release == cached.release,
        c.etag == cached.etag,
        c.expires_at == later_by(now, ttl_secs),
{
    CachedRelease { expires_at: expiry_after(now, ttl_secs), etag: cached.etag, release: cached.release }
}

/// The cache entry for a list the server just sent, with its ETag, expiring
/// `ttl_secs` seconds after `now`.
pub fn fresh_entry(release: Release, etag: Option<String>, ttl_secs: u64, now: Timestamp) -> (c:
    CachedRelease)
    requires
        now.secs + ttl_secs <= u64::MAX,
    ensures
        c.release == release,
        c.etag == etag,
        c.expires_at == later_by(now, ttl_secs),
{
    CachedRelease { expires_at: expiry_after(now, ttl_secs), etag, release }
}

/// The release shown when fetching failed: the cached list, however old, or
/// an empty release named `Empty`.
pub fn stale_cache_fallback(cached: Option<CachedRelease>) -> (r: Release)
    ensures
        match cached {
            Some(c) => r == c.release,
            None => r.name@ == "Empty"@ && r.assets@.len() == 0,
        },
{
    match cached {
        Some(c) => c.release,
        None => Release { name: String::from_str("Empty"), assets: Vec::new() },
    }
}

/// An entry written at `now` with any lifetime the responses give is used
/// without asking the server until at least a minute has passed.
pub proof fn lemma_entry_fresh_for_a_minute(
    now: Timestamp,
    max_age: Option<nat>,
    later: Timestamp,
)
    requires
        now.secs + ttl_of(max_age) <= u64::MAX,
        !earlier(later, now),
        later.secs < now.secs + MINIMUM_CACHE_TTL_SECS,
    ensures
        earlier(later, later_by(now, ttl_of(max_age) as u64)),
{
}

/// Two archives are of the same version and architecture.
pub open spec fn same_key(a: Candidate, b: Candidate) -> bool {
    a.version == b.version && a.arch == b.arch
}

/// Some entry has the version and architecture of `c` and at least its
/// revision.
pub open spec fn covers(best: Seq<Candidate>, c: Candidate) -> bool {
    exists|i: int| 0 <= i < best.len() && same_key(#[trigger] best[i], c) && best[i].revision >= c.revision
}

/// `e` is what one of the assets contributes.
pub open spec fn contributed(assets: Seq<AssetModel>, e: Candidate) -> bool {
    exists|k: int| 0 <= k < assets.len() && #[trigger] candidate(assets[k]) == Some(e)
}

/// Combining keeps, for each version and architecture, one archive of the
/// highest revision among the assets, and nothing that no asset contributed.
pub proof fn lemma_best_archives(assets: Seq<AssetModel>)
    ensures
        forall|i: int, j: int|
            0 <= i < j < best_archives(assets).len() ==> !same_key(
                #[trigger] best_archives(assets)[i],
                #[trigger] best_archives(assets)[j],
            ),
        forall|k: int|
            0 <= k < assets.len() && (#[trigger] candidate(assets[k])) is Some ==> covers(
                best_archives(assets),
                candidate(assets[k])->0,
            ),
        forall|i: int|
            0 <= i < best_archives(assets).len() ==> contributed(
                assets,
                #[trigger] best_archives(assets)[i],
            ),
    decreases assets.len(),
{
    if assets.len() > 0 {
        let prev = assets.drop_last();
        lemma_best_archives(prev);
        let b = best_archives(prev);
        let c = candidate(assets.last());
        let nb = best_archives(assets);
        assert(nb == consider(b, c));
        assert forall|k: int| 0 <= k < prev.len() implies #[trigger] prev[k] == assets[k] by {}
        match c {
            None => {
                assert(nb == b);
                assert forall|k: int|
                    0 <= k < assets.len() && (#[trigger] candidate(assets[k])) is Some implies covers(
                    nb,
                    candidate(assets[k])->0,
                ) by {
                    assert(k < prev.len());
                    assert(candidate(prev[k]) == candidate(assets[k]));
                }
                assert forall|i: int| 0 <= i < nb.len() implies contributed(assets, #[trigger] nb[i]) by {
                    assert(contributed(prev, b[i]));
                    let k = choose|k: int| 0 <= k < prev.len() && #[trigger] candidate(prev[k]) == Some(b[i]);
                    assert(candidate(assets[k]) == Some(nb[i]));
                }
            },
            Some(cc) => {
                lemma_key_index(b, cc.version, cc.arch);
                match key_index(b, cc.version, cc.arch) {
                    None => {
                        assert(nb == b.push(cc));
                        assert forall|i: int, j: int|
                            0 <= i < j < nb.len() implies !same_key(#[trigger] nb[i], #[trigger] nb[j]) by {
                            if j < b.len() {
                                assert(nb[i] == b[i] && nb[j] == b[j]);
                            } else {
                                assert(nb[i] == b[i]);
                            }
                        }
                        assert forall|k: int|
                            0 <= k < assets.len() && (#[trigger] candidate(assets[k])) is Some implies covers(
                            nb,
                            candidate(assets[k])->0,
                        ) by {
                            if k < prev.len() {
                                assert(candidate(prev[k]) == candidate(assets[k]));
                                let ck = candidate(assets[k])->0;
                                assert(covers(b, ck));
                                let i = choose|i: int| 0 <= i < b.len() && same_key(#[trigger] b[i], ck) && b[i].revision >= ck.revision;
                                assert(nb[i] == b[i]);
                            } else {
                                assert(k == assets.len() - 1);
                                assert(nb[b.len() as int] == cc);
                            }
                        }
                        assert forall|i: int| 0 <= i < nb.len() implies contributed(assets, #[trigger] nb[i]) by {
                            if i < b.len() {
                                assert(nb[i] == b[i]);
                                assert(contributed(prev, b[i]));
                                let k = choose|k: int| 0 <= k < prev.len() && #[trigger] candidate(prev[k]) == Some(b[i]);
                                assert(candidate(assets[k]) == Some(nb[i]));
                            } else {
                                assert(candidate(assets[assets.len() - 1]) == Some(nb[i]));
                            }
                        }
                    },
                    Some(p) => {
                        let replaced = cc.revision > b[p].revision;
                        assert(nb == if replaced { b.update(p, cc) } else { b });
                        assert forall|i: int| 0 <= i < nb.len() implies same_key(#[trigger] nb[i], b[i]) by {}
                        assert forall|i: int, j: int|
                            0 <= i < j < nb.len() implies !same_key(#[trigger] nb[i], #[trigger] nb[j]) by {
                            assert(same_key(nb[i], b[i]) && same_key(nb[j], b[j]));
                            assert(!same_key(b[i], b[j]));
                        }
                        assert forall|k: int|
                            0 <= k < assets.len() && (#[trigger] candidate(assets[k])) is Some implies covers(
                            nb,
                            candidate(assets[k])->0,
                        ) by {
                            if k < prev.len() {
                                assert(candidate(prev[k]) == candidate(assets[k]));
                                let ck = candidate(assets[k])->0;
                                assert(covers(b, ck));
                                let i = choose|i: int| 0 <= i < b.len() && same_key(#[trigger] b[i], ck) && b[i].revision >= ck.revision;
                                assert(same_key(nb[i], ck) && nb[i].revision >= ck.revision);
                            } else {
                                assert(k == assets.len() - 1);
                                assert(same_key(nb[p], cc) && nb[p].revision >= cc.revision);
                            }
                        }
                        assert forall|i: int| 0 <= i < nb.len() implies contributed(assets, #[trigger] nb[i]) by {
                            if replaced && i == p {
                                assert(candidate(assets[assets.len() - 1]) == Some(nb[i]));
                            } else {
                                assert(nb[i] == b[i]);
                                assert(contributed(prev, b[i]));
                                let k = choose|k: int| 0 <= k < prev.len() && #[trigger] candidate(prev[k]) == Some(b[i]);
                                assert(candidate(assets[k]) == Some(nb[i]));
                            }
                        }
                    },
                }
            },
        }
    }
}

} // verus!
