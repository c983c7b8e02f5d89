//! Pairwise duplicate grouping: every file is compared against every
//! later file in the collected list, and the later ones whose names are
//! within the distance threshold are reported under the earlier one, the
//! anchor.  An anchor with no duplicate is omitted from the report.

use crate::distance::edit_distance;
use crate::distance::graphemes_of;
use crate::distance::lev;
use crate::scan::FdupeError;
use crate::scan::FdupeErrorV;
use crate::scan::NamePath;
use crate::scan::NamePathV;
use crate::scan::ScanEntry;
use crate::scan::ScanEntryV;
use crate::scan::entries_view;
use crate::scan::filter_view;
use crate::scan::gather;
use crate::scan::get_paths;
use crate::scan::paths_view;
use crate::metric::lemma_lev_self;
use crate::metric::lemma_lev_sym;
use crate::metric::lemma_lev_triangle;
use crate::scan::regex_valid;
use vstd::prelude::*;

verus! {

/// The grapheme-aware edit distance between two names.
pub open spec fn name_dist(n1: Seq<char>, n2: Seq<char>) -> nat {
    lev(graphemes_of(n1), graphemes_of(n2))
}

/// The name distance is symmetric: which of two names anchors a
/// comparison does not change their distance.
pub proof fn lemma_name_dist_sym(a: Seq<char>, b: Seq<char>)
    ensures
        name_dist(a, b) == name_dist(b, a),
{
    lemma_lev_sym(graphemes_of(a), graphemes_of(b));
}

/// The distance from any name to itself is zero.
pub proof fn lemma_name_dist_self(a: Seq<char>)
    ensures
        name_dist(a, a) == 0,
{
    lemma_lev_self(graphemes_of(a));
}

/// The name distance obeys the triangle inequality.
pub proof fn lemma_name_dist_triangle(a: Seq<char>, b: Seq<char>, c: Seq<char>)
    ensures
        name_dist(a, b) <= name_dist(a, c) + name_dist(c, b),
{
    lemma_lev_triangle(graphemes_of(a), graphemes_of(b), graphemes_of(c));
}

/// One reported group: the anchor's index in the collected list and the
/// indices, in list order, of the later files whose names are within the
/// threshold of the anchor's name.
#[derive(Clone, Debug, PartialEq, Eq)]
pub struct DupGroup {
    pub anchor: usize,
    pub dups: Vec<usize>,
}

/// The mathematical content of a `DupGroup`.
pub ghost struct DupGroupV {
    pub anchor: int,
    pub dups: Seq<int>,
}

impl View for DupGroup {
    type V = DupGroupV;

    open spec fn view(&self) -> DupGroupV {
        DupGroupV { anchor: self.anchor as int, dups: self.dups@.map_values(|j: usize| j as int) }
    }
}

/// The views of a sequence of groups.
pub open spec fn groups_view(gs: Seq<DupGroup>) -> Seq<DupGroupV> {
    gs.map_values(|g: DupGroup| g@)
}

/// The duplicates of anchor `i` among the indices below `k`: every `j`
/// with `i < j < k` whose name is within `t` of name `i`, ascending.
pub open spec fn dups_upto(ps: Seq<NamePathV>, t: nat, i: int, k: int) -> Seq<int>
    decreases k - i,
{
    if k <= i + 1 {
        Seq::empty()
    } else {
        let rest = dups_upto(ps, t, i, k - 1);
        if name_dist(ps[i].name, ps[k - 1].name) <= t {
            rest.push(k - 1)
        } else {
            rest
        }
    }
}

/// The duplicates of anchor `i` in the whole list.
pub open spec fn dups_of(ps: Seq<NamePathV>, t: nat, i: int) -> Seq<int> {
    dups_upto(ps, t, i, ps.len() as int)
}

/// The groups of the anchors below `k`, in anchor order, omitting
/// anchors without duplicates.
pub open spec fn groups_upto(ps: Seq<NamePathV>, t: nat, k: int) -> Seq<DupGroupV>
    decreases k,
{
    if k <= 0 {
        Seq::empty()
    } else {
        let rest = groups_upto(ps, t, k - 1);
        if dups_of(ps, t, k - 1).len() > 0 {
            rest.push(DupGroupV { anchor: k - 1, dups: dups_of(ps, t, k - 1) })
        } else {
            rest
        }
    }
}

/// The whole report: one group per anchor that has a duplicate.
pub open spec fn groups_of(ps: Seq<NamePathV>, t: nat) -> Seq<DupGroupV> {
    groups_upto(ps, t, ps.len() as int)
}

/// Compares every file against every later file and reports, per anchor
/// with at least one match, the matching later indices in list order.
pub fn group_duplicates(paths: &Vec<NamePath>, threshold: usize) -> (gs: Vec<DupGroup>)
    ensures
        groups_view(gs@) == groups_of(paths_view(paths@), threshold as nat),
{
    let ghost pv = paths_view(paths@);
    let ghost t = threshold as nat;
    let n = paths.len();
    let mut gs: Vec<DupGroup> = Vec::new();
    let mut i: usize = 0;
    proof {
        assert(groups_view(gs@) =~= Seq::<DupGroupV>::empty());
    }
    while i < n
        invariant
            pv == paths_view(paths@),
            t == threshold as nat,
            n == paths@.len(),
            pv.len() == n,
            i <= n,
            groups_view(gs@) == groups_upto(pv, t, i as int),
        decreases n - i,
    {
        let mut dups: Vec<usize> = Vec::new();
        let mut j: usize = i + 1;
        proof {
            assert(dups@.map_values(|x: usize| x as int) =~= Seq::<int>::empty());
        }
        while j < n
            invariant
                pv == paths_view(paths@),
                t == threshold as nat,
                n == paths@.len(),
                pv.len() == n,
                i < n,
                i < j <= n,
                dups@.map_values(|x: usize| x as int) == dups_upto(pv, t, i as int, j as int),
            decreases n - j,
        {
            proof {
                assert(pv[i as int] == paths@[i as int]@);
                assert(pv[j as int] == paths@[j as int]@);
            }
            let d = edit_distance(paths[i].name.as_str(), paths[j].name.as_str());
            if d <= threshold {
                proof {
                    assert(dups@.push(j).map_values(|x: usize| x as int) =~= dups@.map_values(
                        |x: usize| x as int,
                    ).push(j as int));
                }
                dups.push(j);
            }
            j = j + 1;
        }
        if dups.len() > 0 {
            let g = DupGroup { anchor: i, dups };
            proof {
                assert(groups_view(gs@.push(g)) =~= groups_view(gs@).push(g@));
            }
            gs.push(g);
        }
        i = i + 1;
    }
    gs
}

/// An index stands among the duplicates of anchor `i` below `k` exactly
/// when it lies strictly between them and its name is within `t` of the
/// anchor's name.
proof fn lemma_dups_upto_contains(ps: Seq<NamePathV>, t: nat, i: int, k: int, j: int)
    ensures
        dups_upto(ps, t, i, k).contains(j) <==> (i < j < k && name_dist(ps[i].name, ps[j].name)
            <= t),
    decreases k - i,
{
    if k <= i + 1 {
    } else {
        lemma_dups_upto_contains(ps, t, i, k - 1, j);
        let rest = dups_upto(ps, t, i, k - 1);
        let whole = dups_upto(ps, t, i, k);
        if name_dist(ps[i].name, ps[k - 1].name) <= t {
            assert(whole == rest.push(k - 1));
            if rest.contains(j) {
                let idx = choose|idx: int| 0 <= idx < rest.len() && rest[idx] == j;
                assert(whole[idx] == j);
            }
            if j == k - 1 {
                assert(whole[rest.len() as int] == j);
            }
            if whole.contains(j) {
                let idx = choose|idx: int| 0 <= idx < whole.len() && whole[idx] == j;
                if idx < rest.len() {
                    assert(rest[idx] == j);
                }
            }
        }
    }
}

/// Every reported group has its anchor below `k`, holds the anchor's
/// exact duplicate list, and that list is not empty.
proof fn lemma_groups_upto_sound(ps: Seq<NamePathV>, t: nat, k: int, g: int)
    requires
        0 <= g < groups_upto(ps, t, k).len(),
    ensures
        0 <= groups_upto(ps, t, k)[g].anchor < k,
        groups_upto(ps, t, k)[g].dups == dups_of(ps, t, groups_upto(ps, t, k)[g].anchor),
        groups_upto(ps, t, k)[g].dups.len() > 0,
    decreases k,
{
    if k <= 0 {
    } else {
        let rest = groups_upto(ps, t, k - 1);
        if g < rest.len() {
            lemma_groups_upto_sound(ps, t, k - 1, g);
        }
    }
}

/// Every anchor below `k` that has a duplicate is reported, with its
/// exact duplicate list.
proof fn lemma_groups_upto_complete(ps: Seq<NamePathV>, t: nat, k: int, i: int) -> (g: int)
    requires
        0 <= i < k,
        dups_of(ps, t, i).len() > 0,
    ensures
        0 <= g < groups_upto(ps, t, k).len(),
        groups_upto(ps, t, k)[g].anchor == i,
        groups_upto(ps, t, k)[g].dups == dups_of(ps, t, i),
    decreases k,
{
    if i == k - 1 {
        groups_upto(ps, t, k - 1).len() as int
    } else {
        lemma_groups_upto_complete(ps, t, k - 1, i)
    }
}

/// The anchors of the report: every reported group holds a real anchor
/// with its exact, non-empty duplicate list, so no anchor without a
/// duplicate within the threshold appears.
pub proof fn lemma_groups_sound(ps: Seq<NamePathV>, t: nat)
    ensures
        forall|g: int|
            0 <= g < groups_of(ps, t).len() ==> {
                let gr = #[trigger] groups_of(ps, t)[g];
                0 <= gr.anchor < ps.len() && gr.dups == dups_of(ps, t, gr.anchor)
                    && gr.dups.len() > 0
            },
{
    assert forall|g: int| 0 <= g < groups_of(ps, t).len() implies {
        let gr = #[trigger] groups_of(ps, t)[g];
        0 <= gr.anchor < ps.len() && gr.dups == dups_of(ps, t, gr.anchor) && gr.dups.len() > 0
    } by {
        lemma_groups_upto_sound(ps, t, ps.len() as int, g);
    }
}

/// The pair law: a pair `i < j` of collected files stands in the report
/// — `j` among the duplicates of a group anchored at `i` — exactly when
/// the two names are within the threshold of one another.
pub proof fn lemma_pair_reported(ps: Seq<NamePathV>, t: nat, i: int, j: int)
    ensures
        (0 <= i < j < ps.len() && name_dist(ps[i].name, ps[j].name) <= t) <==> (exists|g: int|
            0 <= g < groups_of(ps, t).len() && (#[trigger] groups_of(ps, t)[g]).anchor == i
                && groups_of(ps, t)[g].dups.contains(j)),
{
    lemma_dups_upto_contains(ps, t, i, ps.len() as int, j);
    if 0 <= i < j < ps.len() && name_dist(ps[i].name, ps[j].name) <= t {
        let g = lemma_groups_upto_complete(ps, t, ps.len() as int, i);
        assert(0 <= g < groups_of(ps, t).len() && groups_of(ps, t)[g].anchor == i && groups_of(
            ps,
            t,
        )[g].dups.contains(j));
    }
    if exists|g: int|
        0 <= g < groups_of(ps, t).len() && (#[trigger] groups_of(ps, t)[g]).anchor == i
            && groups_of(ps, t)[g].dups.contains(j) {
        let g = choose|g: int|
            0 <= g < groups_of(ps, t).len() && (#[trigger] groups_of(ps, t)[g]).anchor == i
                && groups_of(ps, t)[g].dups.contains(j);
        lemma_groups_upto_sound(ps, t, ps.len() as int, g);
    }
}

/// A whole run's outcome: the collected records and the groups over
/// them, the groups holding indices into the records.
#[derive(Clone, Debug, PartialEq, Eq)]
pub struct DupReport {
    pub paths: Vec<NamePath>,
    pub groups: Vec<DupGroup>,
}

/// The mathematical content of a run's result: the record and group
/// views on success, the error's view on failure.
pub open spec fn report_view(r: Result<DupReport, FdupeError>) -> Result<
    (Seq<NamePathV>, Seq<DupGroupV>),
    FdupeErrorV,
> {
    match r {
        Result::Ok(rep) => Result::Ok((paths_view(rep.paths@), groups_view(rep.groups@))),
        Result::Err(e) => Result::Err(e@),
    }
}

/// What a run over the given entries, filter and threshold owes: the
/// pattern error when the filter does not compile, else the error of the
/// first unrepresentable entry, else the collected records with their
/// duplicate groups.
pub open spec fn run_outcome(
    s: Seq<ScanEntryV>,
    f: Option<Seq<char>>,
    t: nat,
    r: Result<(Seq<NamePathV>, Seq<DupGroupV>), FdupeErrorV>,
) -> bool {
    if f is Some && !regex_valid(f->Some_0) {
        r == Result::<(Seq<NamePathV>, Seq<DupGroupV>), FdupeErrorV>::Err(
            FdupeErrorV::InvalidPattern,
        )
    } else {
        match gather(s, f) {
            Result::Ok(ps) => r == Result::<(Seq<NamePathV>, Seq<DupGroupV>), FdupeErrorV>::Ok(
                (ps, groups_of(ps, t)),
            ),
            Result::Err(e) => r == Result::<(Seq<NamePathV>, Seq<DupGroupV>), FdupeErrorV>::Err(e),
        }
    }
}

/// Determinism: the outcome a run owes is a function of the entries, the
/// filter and the threshold alone, so any two runs over an unchanged
/// entry list with identical arguments have the same content.
pub proof fn lemma_run_deterministic(
    s: Seq<ScanEntryV>,
    f: Option<Seq<char>>,
    t: nat,
    r1: Result<(Seq<NamePathV>, Seq<DupGroupV>), FdupeErrorV>,
    r2: Result<(Seq<NamePathV>, Seq<DupGroupV>), FdupeErrorV>,
)
    requires
        run_outcome(s, f, t, r1),
        run_outcome(s, f, t, r2),
    ensures
        r1 == r2,
{
}

/// Collects the walked entries under the optional name filter and
/// reports the duplicate groups at the given distance threshold.  An
/// invalid filter pattern, or an entry that is not representable as
/// text, aborts with the corresponding error and no partial report.
pub fn find_duplicates(entries: &Vec<ScanEntry>, threshold: usize, filter: Option<&str>) -> (r:
    Result<DupReport, FdupeError>)
    ensures
        run_outcome(entries_view(entries@), filter_view(filter), threshold as nat, report_view(r)),
{
    match get_paths(entries, filter) {
        Err(e) => Err(e),
        Ok(paths) => {
            let groups = group_duplicates(&paths, threshold);
            Ok(DupReport { paths, groups })
        },
    }
}

} // verus!
