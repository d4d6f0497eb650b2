//! Multi-source fusion: combining the per-service validation results for
//! one entry into a consensus verdict.
//!
//! The fused view only keeps discrepancies that enough independent services
//! agree on: a year or title error needs at least two witnesses, so a single
//! dissenting service can never produce one.

use vstd::prelude::*;
use vstd::string::StringExecFns;
use crate::entry::{
    ApiSource, Discrepancy, DiscrepancyField, DiscrepancyModel, Entry, EntryModel, Severity,
    ValidationResult, ValidationResultModel,
};
use crate::matcher::{author_count_disc, missing_doi_disc};
use crate::strutil::{dec_seq, i32_to_string, int_seq, join_seq, join_strings, u64_to_string};

verus! {

/// The consensus result of fusing several services' reports.
#[derive(Debug)]
pub struct FusedResult {
    /// The services that contributed an acceptable match, first
    /// contribution first, without repetition.
    pub sources: Vec<ApiSource>,
    /// The consensus discrepancies.
    pub discrepancies: Vec<Discrepancy>,
    /// Whether any acceptable match was found at all.
    pub has_matches: bool,
}

/// Mathematical model of a [`FusedResult`].
#[verifier::ext_equal]
pub ghost struct FusedResultModel {
    pub sources: Seq<ApiSource>,
    pub discrepancies: Seq<DiscrepancyModel>,
    pub has_matches: bool,
}

impl View for FusedResult {
    type V = FusedResultModel;

    open spec fn view(&self) -> FusedResultModel {
        FusedResultModel {
            sources: self.sources@,
            discrepancies: self.discrepancies.deep_view(),
            has_matches: self.has_matches,
        }
    }
}

/// A result takes part in fusion when it matched an entry with positive
/// confidence.
pub open spec fn is_valid_result(r: ValidationResultModel) -> bool {
    r.matched_entry is Some && r.confidence > 0
}

/// The results retained for fusion, in their original order.
pub open spec fn retained(rs: Seq<ValidationResultModel>) -> Seq<ValidationResultModel>
    decreases rs.len(),
{
    if rs.len() == 0 {
        Seq::empty()
    } else {
        retained(rs.drop_last()) + (if is_valid_result(rs.last()) {
            seq![rs.last()]
        } else {
            Seq::empty()
        })
    }
}

/// The sources of the results, in order.
pub open spec fn result_sources(rs: Seq<ValidationResultModel>) -> Seq<ApiSource> {
    rs.map_values(|r: ValidationResultModel| r.source)
}

/// The sources with repetitions dropped; the first occurrence keeps its
/// place.
pub open spec fn dedup_sources(ss: Seq<ApiSource>) -> Seq<ApiSource>
    decreases ss.len(),
{
    if ss.len() == 0 {
        Seq::empty()
    } else {
        let d = dedup_sources(ss.drop_last());
        if d.contains(ss.last()) {
            d
        } else {
            d.push(ss.last())
        }
    }
}

/// The display names of the sources.
pub open spec fn source_names(ss: Seq<ApiSource>) -> Seq<Seq<char>> {
    ss.map_values(|s: ApiSource| s.name_spec())
}

// ---------------------------------------------------------------------------
// Year consensus.
// ---------------------------------------------------------------------------

/// One vote per matched entry that carries a year, with the reporting
/// service as witness.
pub open spec fn year_votes(rs: Seq<ValidationResultModel>) -> Seq<(i32, ApiSource)>
    decreases rs.len(),
{
    if rs.len() == 0 {
        Seq::empty()
    } else {
        year_votes(rs.drop_last()) + (match rs.last().matched_entry {
            Some(m) => match m.year {
                Some(y) => seq![(y, rs.last().source)],
                None => Seq::empty(),
            },
            None => Seq::empty(),
        })
    }
}

/// The witnesses that voted for the year `y`, in vote order.
pub open spec fn year_witnesses(votes: Seq<(i32, ApiSource)>, y: i32) -> Seq<ApiSource>
    decreases votes.len(),
{
    if votes.len() == 0 {
        Seq::empty()
    } else {
        year_witnesses(votes.drop_last(), y) + (if votes.last().0 == y {
            seq![votes.last().1]
        } else {
            Seq::empty()
        })
    }
}

/// The years voted for, first vote first, without repetition.
pub open spec fn distinct_years(votes: Seq<(i32, ApiSource)>) -> Seq<i32>
    decreases votes.len(),
{
    if votes.len() == 0 {
        Seq::empty()
    } else {
        let d = distinct_years(votes.drop_last());
        if d.contains(votes.last().0) {
            d
        } else {
            d.push(votes.last().0)
        }
    }
}

/// The index into `ys` of the year with the most witnesses, scanned from
/// `k` with current best `b`; the first highest count wins.
pub open spec fn modal_year_from(votes: Seq<(i32, ApiSource)>, ys: Seq<i32>, k: int, b: int) -> int
    decreases ys.len() - k,
{
    if k < 0 || k >= ys.len() {
        b
    } else {
        modal_year_from(votes, ys, k + 1, if year_witnesses(votes, ys[k]).len() > year_witnesses(
            votes,
            ys[b],
        ).len() {
            k
        } else {
            b
        })
    }
}

/// The year with the most witnesses; on ties the one voted for first.
pub open spec fn modal_year(votes: Seq<(i32, ApiSource)>) -> i32 {
    let ys = distinct_years(votes);
    ys[modal_year_from(votes, ys, 1, 0)]
}

/// The fused year discrepancy.
pub open spec fn fused_year_disc(ly: i32, my: i32, w: Seq<ApiSource>) -> DiscrepancyModel {
    DiscrepancyModel {
        field: DiscrepancyField::Year,
        severity: Severity::Error,
        local_value: int_seq(ly as int),
        remote_value: int_seq(my as int),
        message: "Year mismatch: "@ + int_seq(ly as int) + " vs "@ + int_seq(my as int)
            + " (agreed by "@ + join_seq(source_names(w), ", "@) + ")"@,
    }
}

/// The year part of the fused view: an error only when the modal remote
/// year differs from the local year and at least two services witnessed it.
pub open spec fn fused_year_opt(local: EntryModel, rs: Seq<ValidationResultModel>) -> Seq<
    DiscrepancyModel,
> {
    match local.year {
        Some(ly) => {
            let votes = year_votes(rs);
            if votes.len() == 0 {
                Seq::empty()
            } else {
                let my = modal_year(votes);
                let w = year_witnesses(votes, my);
                if my != ly && w.len() >= 2 {
                    seq![fused_year_disc(ly, my, w)]
                } else {
                    Seq::empty()
                }
            }
        },
        None => Seq::empty(),
    }
}

// ---------------------------------------------------------------------------
// Title consensus.
// ---------------------------------------------------------------------------

/// The index of the first error-severity title discrepancy at or after
/// `k`, or `-1`.
pub open spec fn first_title_error_idx(ds: Seq<DiscrepancyModel>, k: int) -> int
    decreases ds.len() - k,
{
    if k < 0 || k >= ds.len() {
        -1
    } else if ds[k].field is Title && ds[k].severity is Error {
        k
    } else {
        first_title_error_idx(ds, k + 1)
    }
}

/// The services that flagged a title error, each with the discrepancy it
/// flagged first.
pub open spec fn title_issues(rs: Seq<ValidationResultModel>) -> Seq<(ApiSource, DiscrepancyModel)>
    decreases rs.len(),
{
    if rs.len() == 0 {
        Seq::empty()
    } else {
        title_issues(rs.drop_last()) + ({
            let i = first_title_error_idx(rs.last().discrepancies, 0);
            if i >= 0 {
                seq![(rs.last().source, rs.last().discrepancies[i])]
            } else {
                Seq::empty()
            }
        })
    }
}

/// The title part of the fused view: one error, reusing the first issue's
/// values, only when at least two services flagged a title error.
pub open spec fn fused_title_opt(rs: Seq<ValidationResultModel>) -> Seq<DiscrepancyModel> {
    let iss = title_issues(rs);
    if iss.len() >= 2 {
        seq![
            (DiscrepancyModel {
                field: DiscrepancyField::Title,
                severity: Severity::Error,
                local_value: iss[0].1.local_value,
                remote_value: iss[0].1.remote_value,
                message: iss[0].1.message + " (confirmed by "@ + join_seq(
                    source_names(iss.map_values(|p: (ApiSource, DiscrepancyModel)| p.0)),
                    ", "@,
                ) + ")"@,
            }),
        ]
    } else {
        Seq::empty()
    }
}

// ---------------------------------------------------------------------------
// Author count consensus.
// ---------------------------------------------------------------------------

/// One vote per matched entry whose nonempty author list disagrees with
/// the local count; the vote is the remote count.
pub open spec fn len_votes(rs: Seq<ValidationResultModel>, ll: nat) -> Seq<u64>
    decreases rs.len(),
{
    if rs.len() == 0 {
        Seq::empty()
    } else {
        len_votes(rs.drop_last(), ll) + (match rs.last().matched_entry {
            Some(m) => if m.authors.len() > 0 && m.authors.len() != ll {
                seq![m.authors.len() as u64]
            } else {
                Seq::empty()
            },
            None => Seq::empty(),
        })
    }
}

/// How many votes the value got.
pub open spec fn vote_count(votes: Seq<u64>, v: u64) -> nat
    decreases votes.len(),
{
    if votes.len() == 0 {
        0
    } else {
        vote_count(votes.drop_last(), v) + (if votes.last() == v {
            1nat
        } else {
            0nat
        })
    }
}

/// The values voted for, first vote first, without repetition.
pub open spec fn distinct_votes(votes: Seq<u64>) -> Seq<u64>
    decreases votes.len(),
{
    if votes.len() == 0 {
        Seq::empty()
    } else {
        let d = distinct_votes(votes.drop_last());
        if d.contains(votes.last()) {
            d
        } else {
            d.push(votes.last())
        }
    }
}

/// The index into `vs` of the value with the most votes, scanned from `k`
/// with current best `b`; the first highest count wins.
pub open spec fn modal_vote_from(votes: Seq<u64>, vs: Seq<u64>, k: int, b: int) -> int
    decreases vs.len() - k,
{
    if k < 0 || k >= vs.len() {
        b
    } else {
        modal_vote_from(votes, vs, k + 1, if vote_count(votes, vs[k]) > vote_count(votes, vs[b]) {
            k
        } else {
            b
        })
    }
}

/// The value with the most votes; on ties the one voted for first.
pub open spec fn modal_vote(votes: Seq<u64>) -> u64 {
    let vs = distinct_votes(votes);
    vs[modal_vote_from(votes, vs, 1, 0)]
}

/// The author part of the fused view: a count warning when at least two
/// services agree on a differing count, or when the single matching
/// service reports one.
pub open spec fn fused_authors_seq(local: EntryModel, rs: Seq<ValidationResultModel>) -> Seq<
    DiscrepancyModel,
> {
    let votes = len_votes(rs, local.authors.len());
    if votes.len() == 0 {
        Seq::empty()
    } else {
        let ml = modal_vote(votes);
        let cnt = vote_count(votes, ml);
        if cnt >= 2 || (rs.len() == 1 && cnt == 1) {
            seq![author_count_disc(local.authors.len(), ml as nat)]
        } else {
            Seq::empty()
        }
    }
}

// ---------------------------------------------------------------------------
// Missing DOI.
// ---------------------------------------------------------------------------

/// The index of the first result whose matched entry carries a DOI, at or
/// after `k`, or `-1`.
pub open spec fn first_remote_doi_idx(rs: Seq<ValidationResultModel>, k: int) -> int
    decreases rs.len() - k,
{
    if k < 0 || k >= rs.len() {
        -1
    } else if rs[k].matched_entry is Some && rs[k].matched_entry->0.doi is Some {
        k
    } else {
        first_remote_doi_idx(rs, k + 1)
    }
}

/// The DOI part of the fused view: a warning carrying the first remote
/// DOI, when the local entry has none.
pub open spec fn fused_doi_opt(local: EntryModel, rs: Seq<ValidationResultModel>) -> Seq<
    DiscrepancyModel,
> {
    if local.doi is Some {
        Seq::empty()
    } else {
        let i = first_remote_doi_idx(rs, 0);
        if i >= 0 {
            seq![missing_doi_disc(rs[i].matched_entry->0.doi->0)]
        } else {
            Seq::empty()
        }
    }
}

// ---------------------------------------------------------------------------
// The fused result.
// ---------------------------------------------------------------------------

/// The fused discrepancies, in the order year, title, authors, DOI.
pub open spec fn fused_discs(local: EntryModel, rs: Seq<ValidationResultModel>) -> Seq<
    DiscrepancyModel,
> {
    fused_year_opt(local, rs) + fused_title_opt(rs) + fused_authors_seq(local, rs) + fused_doi_opt(
        local,
        rs,
    )
}

/// The fused result of the raw result list `rs`: nothing when no result is
/// retained, else the deduplicated sources and the consensus
/// discrepancies, derived from the retained results only.
pub open spec fn fused_model(local: EntryModel, rs: Seq<ValidationResultModel>) -> FusedResultModel {
    let ret = retained(rs);
    if ret.len() == 0 {
        FusedResultModel { sources: Seq::empty(), discrepancies: Seq::empty(), has_matches: false }
    } else {
        FusedResultModel {
            sources: dedup_sources(result_sources(ret)),
            discrepancies: fused_discs(local, ret),
            has_matches: true,
        }
    }
}

// ---------------------------------------------------------------------------
// The two-witness rules, stated on their own.
// ---------------------------------------------------------------------------

/// Fusion never emits a year error on the word of fewer than two
/// witnesses: whenever the year part of the fused view is nonempty, the
/// modal remote year was reported by at least two services.
pub proof fn lemma_year_error_needs_two_witnesses(
    local: EntryModel,
    rs: Seq<ValidationResultModel>,
)
    ensures
        fused_year_opt(local, rs).len() > 0 ==> year_witnesses(
            year_votes(rs),
            modal_year(year_votes(rs)),
        ).len() >= 2,
{
}

/// Fusion never emits a title error on the word of fewer than two
/// services: whenever the title part of the fused view is nonempty, at
/// least two services flagged an error-severity title discrepancy.
pub proof fn lemma_title_error_needs_two_confirmations(rs: Seq<ValidationResultModel>)
    ensures
        fused_title_opt(rs).len() > 0 ==> title_issues(rs).len() >= 2,
{
}

// ---------------------------------------------------------------------------
// Small search helpers.
// ---------------------------------------------------------------------------

/// Whether the year list holds `y`.
fn contains_i32(v: &Vec<i32>, y: i32) -> (b: bool)
    ensures
        b == v@.contains(y),
{
    let n = v.len();
    let mut i: usize = 0;
    while i < n
        invariant
            i <= n,
            n == v@.len(),
            forall|p: int| 0 <= p < i ==> v@[p] != y,
        decreases n - i,
    {
        if v[i] == y {
            return true;
        }
        i += 1;
    }
    false
}

/// Whether the count list holds `y`.
fn contains_u64(v: &Vec<u64>, y: u64) -> (b: bool)
    ensures
        b == v@.contains(y),
{
    let n = v.len();
    let mut i: usize = 0;
    while i < n
        invariant
            i <= n,
            n == v@.len(),
            forall|p: int| 0 <= p < i ==> v@[p] != y,
        decreases n - i,
    {
        if v[i] == y {
            return true;
        }
        i += 1;
    }
    false
}

/// Whether the source list holds `s`.
fn contains_source(v: &Vec<ApiSource>, s: ApiSource) -> (b: bool)
    ensures
        b == v@.contains(s),
{
    let n = v.len();
    let mut i: usize = 0;
    while i < n
        invariant
            i <= n,
            n == v@.len(),
            forall|p: int| 0 <= p < i ==> v@[p] != s,
        decreases n - i,
    {
        if v[i] == s {
            return true;
        }
        i += 1;
    }
    false
}

/// Counts the votes for the year `y`.
fn count_year_votes(votes: &Vec<(i32, ApiSource)>, y: i32) -> (c: usize)
    ensures
        c == year_witnesses(votes@, y).len(),
{
    let n = votes.len();
    let mut c: usize = 0;
    let mut i: usize = 0;
    while i < n
        invariant
            i <= n,
            n == votes@.len(),
            c <= i,
            c == year_witnesses(votes@.take(i as int), y).len(),
        decreases n - i,
    {
        proof {
            let t = votes@.take(i + 1 as int);
            assert(t.drop_last() =~= votes@.take(i as int));
            assert(t.last() == votes@[i as int]);
        }
        if votes[i].0 == y {
            c += 1;
        }
        i += 1;
    }
    proof {
        assert(votes@.take(n as int) =~= votes@);
    }
    c
}

/// Collects the witnesses that voted for the year `y`, in order.
fn collect_year_witnesses(votes: &Vec<(i32, ApiSource)>, y: i32) -> (w: Vec<ApiSource>)
    ensures
        w@ == year_witnesses(votes@, y),
{
    let n = votes.len();
    let mut w: Vec<ApiSource> = Vec::new();
    let mut i: usize = 0;
    while i < n
        invariant
            i <= n,
            n == votes@.len(),
            w@ == year_witnesses(votes@.take(i as int), y),
        decreases n - i,
    {
        proof {
            let t = votes@.take(i + 1 as int);
            assert(t.drop_last() =~= votes@.take(i as int));
            assert(t.last() == votes@[i as int]);
        }
        if votes[i].0 == y {
            w.push(votes[i].1);
            proof {
                assert(year_witnesses(votes@.take(i as int), y).push(votes@[i as int].1)
                    =~= year_witnesses(votes@.take(i as int), y) + seq![votes@[i as int].1]);
            }
        }
        i += 1;
    }
    proof {
        assert(votes@.take(n as int) =~= votes@);
    }
    w
}

/// Counts the votes for the value `v`.
fn count_u64_votes(votes: &Vec<u64>, v: u64) -> (c: usize)
    ensures
        c == vote_count(votes@, v),
{
    let n = votes.len();
    let mut c: usize = 0;
    let mut i: usize = 0;
    while i < n
        invariant
            i <= n,
            n == votes@.len(),
            c <= i,
            c == vote_count(votes@.take(i as int), v),
        decreases n - i,
    {
        proof {
            let t = votes@.take(i + 1 as int);
            assert(t.drop_last() =~= votes@.take(i as int));
            assert(t.last() == votes@[i as int]);
        }
        if votes[i] == v {
            c += 1;
        }
        i += 1;
    }
    proof {
        assert(votes@.take(n as int) =~= votes@);
    }
    c
}

/// Turns a list of sources into their display names.
fn source_name_strings(ss: &Vec<ApiSource>) -> (names: Vec<String>)
    ensures
        names.deep_view() == source_names(ss@),
{
    let n = ss.len();
    let mut names: Vec<String> = Vec::new();
    let mut i: usize = 0;
    while i < n
        invariant
            i <= n,
            n == ss@.len(),
            names@.len() == i,
            forall|p: int| 0 <= p < i ==> names.deep_view()[p] == ss@[p].name_spec(),
        decreases n - i,
    {
        let owned = ss[i].name().to_owned();
        let ghost prevdv = names.deep_view();
        names.push(owned);
        proof {
            assert(names.deep_view() =~= prevdv.push(ss@[i as int].name_spec()));
        }
        i += 1;
    }
    proof {
        assert(names.deep_view() =~= source_names(ss@));
    }
    names
}

// ---------------------------------------------------------------------------
// The fusion steps, executed.
// ---------------------------------------------------------------------------

/// Fuses the year information of the given results against the local
/// entry: a year error is emitted only when the modal remote year differs
/// from the local year and at least two services agree on it.
pub fn fuse_year(local: &Entry, results: &Vec<&ValidationResult>) -> (r: Option<Discrepancy>)
    ensures
        (match r {
            Some(d) => seq![d@],
            None => Seq::<DiscrepancyModel>::empty(),
        }) == fused_year_opt(local@, results.deep_view()),
        r is Some ==> year_witnesses(
            year_votes(results.deep_view()),
            modal_year(year_votes(results.deep_view())),
        ).len() >= 2,
        local@.year is None ==> r is None,
{
    let ghost rv = results.deep_view();
    proof {
        assert(rv.len() == results@.len());
    }
    let ly = match local.year {
        Some(y) => y,
        None => {
            return None;
        },
    };

    // Tally one vote per matched entry that carries a year.
    let n = results.len();
    let mut votes: Vec<(i32, ApiSource)> = Vec::new();
    let mut i: usize = 0;
    while i < n
        invariant
            i <= n,
            n == results@.len(),
            rv == results.deep_view(),
            rv.len() == n,
            votes@ == year_votes(rv.take(i as int)),
        decreases n - i,
    {
        proof {
            let t = rv.take(i + 1 as int);
            assert(t.drop_last() =~= rv.take(i as int));
            assert(t.last() == rv[i as int]);
        }
        match &results[i].matched_entry {
            Some(m) => {
                match m.year {
                    Some(y) => {
                        votes.push((y, results[i].source));
                        proof {
                            assert(year_votes(rv.take(i as int)).push((y, rv[i as int].source))
                                =~= year_votes(rv.take(i as int)) + seq![(y, rv[i as int].source)]);
                        }
                    },
                    None => {},
                }
            },
            None => {},
        }
        i += 1;
    }
    proof {
        assert(rv.take(n as int) =~= rv);
    }

    if votes.len() == 0 {
        proof {
            assert(year_votes(rv).len() == 0);
        }
        return None;
    }

    // The distinct years, first vote first.
    let vn = votes.len();
    let mut years: Vec<i32> = Vec::new();
    let mut k: usize = 0;
    while k < vn
        invariant
            k <= vn,
            vn == votes@.len(),
            years@ == distinct_years(votes@.take(k as int)),
        decreases vn - k,
    {
        proof {
            let t = votes@.take(k + 1 as int);
            assert(t.drop_last() =~= votes@.take(k as int));
            assert(t.last() == votes@[k as int]);
        }
        let y = votes[k].0;
        if !contains_i32(&years, y) {
            years.push(y);
        }
        k += 1;
    }
    proof {
        assert(votes@.take(vn as int) =~= votes@);
        assert(distinct_years(votes@).len() > 0) by {
            assert(votes@.len() > 0);
            assert(votes@.drop_last().len() < votes@.len());
        }
    }

    // The modal year: most witnesses, first vote first on ties.
    let yn = years.len();
    let mut best: usize = 0;
    let mut best_cnt: usize = count_year_votes(&votes, years[0]);
    let mut k: usize = 1;
    while k < yn
        invariant
            1 <= k <= yn,
            yn == years@.len(),
            best < k,
            best_cnt == year_witnesses(votes@, years@[best as int]).len(),
            modal_year_from(votes@, years@, 1, 0) == modal_year_from(
                votes@,
                years@,
                k as int,
                best as int,
            ),
        decreases yn - k,
    {
        let c = count_year_votes(&votes, years[k]);
        if c > best_cnt {
            best = k;
            best_cnt = c;
        }
        k += 1;
    }
    let my = years[best];
    proof {
        assert(modal_year(votes@) == years@[best as int]);
    }

    if my != ly && best_cnt >= 2 {
        let w = collect_year_witnesses(&votes, my);
        let names = source_name_strings(&w);
        let joined = join_strings(&names, ", ");
        let msg = {
            let mut s = String::new();
            s.append("Year mismatch: ");
            s.append(i32_to_string(ly).as_str());
            s.append(" vs ");
            s.append(i32_to_string(my).as_str());
            s.append(" (agreed by ");
            s.append(joined.as_str());
            s.append(")");
            s
        };
        let d = Discrepancy {
            field: DiscrepancyField::Year,
            severity: Severity::Error,
            local_value: i32_to_string(ly),
            remote_value: i32_to_string(my),
            message: msg,
        };
        proof {
            assert(d@ =~= fused_year_disc(ly, my, w@)) by {
                assert(d@.message =~= fused_year_disc(ly, my, w@).message);
            }
            assert(seq![d@] =~= fused_year_opt(local@, rv));
        }
        Some(d)
    } else {
        proof {
            assert(fused_year_opt(local@, rv) =~= Seq::<DiscrepancyModel>::empty());
        }
        None
    }
}

/// Finds the first error-severity title discrepancy, if any.
fn first_title_error(ds: &Vec<Discrepancy>) -> (o: Option<usize>)
    ensures
        (match o {
            Some(k) => first_title_error_idx(ds.deep_view(), 0) == k
                && k < ds.deep_view().len(),
            None => first_title_error_idx(ds.deep_view(), 0) == -1,
        }),
{
    let ghost dv = ds.deep_view();
    let n = ds.len();
    let mut k: usize = 0;
    proof {
        assert(dv.len() == ds@.len());
    }
    while k < n
        invariant
            k <= n,
            n == ds@.len(),
            dv == ds.deep_view(),
            dv.len() == n,
            first_title_error_idx(dv, 0) == first_title_error_idx(dv, k as int),
        decreases n - k,
    {
        let is_title = match ds[k].field {
            DiscrepancyField::Title => true,
            _ => false,
        };
        let is_error = match ds[k].severity {
            Severity::Error => true,
            _ => false,
        };
        if is_title && is_error {
            return Some(k);
        }
        k += 1;
    }
    None
}

/// Fuses the title information of the given results: a title error is
/// emitted only when at least two services flagged one; it reuses the
/// first issue's values and names every confirming service.
pub fn fuse_title(_local: &Entry, results: &Vec<&ValidationResult>) -> (r: Option<Discrepancy>)
    ensures
        (match r {
            Some(d) => seq![d@],
            None => Seq::<DiscrepancyModel>::empty(),
        }) == fused_title_opt(results.deep_view()),
        r is Some ==> title_issues(results.deep_view()).len() >= 2,
{
    let ghost rv = results.deep_view();
    proof {
        assert(rv.len() == results@.len());
    }
    let n = results.len();
    let mut iss_sources: Vec<ApiSource> = Vec::new();
    let mut first: Option<Discrepancy> = None;
    let ghost mut iss: Seq<(ApiSource, DiscrepancyModel)> = Seq::empty();
    let mut i: usize = 0;
    proof {
        assert(iss =~= title_issues(rv.take(0)));
    }
    while i < n
        invariant
            i <= n,
            n == results@.len(),
            rv == results.deep_view(),
            rv.len() == n,
            iss == title_issues(rv.take(i as int)),
            iss_sources@ == iss.map_values(|p: (ApiSource, DiscrepancyModel)| p.0),
            (match first {
                Some(d) => iss.len() > 0 && d@ == iss[0].1,
                None => iss.len() == 0,
            }),
        decreases n - i,
    {
        proof {
            let t = rv.take(i + 1 as int);
            assert(t.drop_last() =~= rv.take(i as int));
            assert(t.last() == rv[i as int]);
        }
        match first_title_error(&results[i].discrepancies) {
            Some(k) => {
                let d = results[i].discrepancies[k].clone();
                proof {
                    assert(d@ == rv[i as int].discrepancies[k as int]);
                    let entry = (rv[i as int].source, rv[i as int].discrepancies[k as int]);
                    assert(title_issues(rv.take(i + 1 as int)) =~= iss.push(entry));
                }
                iss_sources.push(results[i].source);
                if first.is_none() {
                    proof {
                        assert(iss.len() == 0);
                    }
                    first = Some(d);
                }
                proof {
                    let entry = (rv[i as int].source, rv[i as int].discrepancies[k as int]);
                    iss = iss.push(entry);
                    assert(iss_sources@ =~= iss.map_values(
                        |p: (ApiSource, DiscrepancyModel)| p.0,
                    ));
                }
            },
            None => {
                proof {
                    assert(title_issues(rv.take(i + 1 as int)) =~= iss);
                }
            },
        }
        i += 1;
    }
    proof {
        assert(rv.take(n as int) =~= rv);
        assert(iss == title_issues(rv));
    }

    if iss_sources.len() >= 2 {
        match first {
            Some(f) => {
                let names = source_name_strings(&iss_sources);
                let joined = join_strings(&names, ", ");
                let msg = {
                    let mut s = f.message.clone();
                    s.append(" (confirmed by ");
                    s.append(joined.as_str());
                    s.append(")");
                    s
                };
                let d = Discrepancy {
                    field: DiscrepancyField::Title,
                    severity: Severity::Error,
                    local_value: f.local_value.clone(),
                    remote_value: f.remote_value.clone(),
                    message: msg,
                };
                proof {
                    assert(d@ =~= fused_title_opt(rv)[0]) by {
                        assert(d@.message =~= fused_title_opt(rv)[0].message);
                    }
                    assert(seq![d@] =~= fused_title_opt(rv));
                }
                Some(d)
            },
            None => {
                proof {
                    assert(false);
                }
                None
            },
        }
    } else {
        proof {
            assert(fused_title_opt(rv) =~= Seq::<DiscrepancyModel>::empty());
        }
        None
    }
}

/// Fuses the author counts of the given results: a count warning is
/// emitted when at least two services agree on a differing count, or when
/// the single matching service reports one.
pub fn fuse_authors(local: &Entry, results: &Vec<&ValidationResult>) -> (r: Vec<Discrepancy>)
    ensures
        r.deep_view() == fused_authors_seq(local@, results.deep_view()),
{
    let ghost rv = results.deep_view();
    proof {
        assert(rv.len() == results@.len());
        assert(local@.authors.len() == local.authors@.len());
    }
    let ghost ll = local@.authors.len();
    let local_len = local.authors.len();

    let n = results.len();
    let mut votes: Vec<u64> = Vec::new();
    let mut i: usize = 0;
    while i < n
        invariant
            i <= n,
            n == results@.len(),
            rv == results.deep_view(),
            rv.len() == n,
            ll == local@.authors.len(),
            local_len == ll,
            votes@ == len_votes(rv.take(i as int), ll),
        decreases n - i,
    {
        proof {
            let t = rv.take(i + 1 as int);
            assert(t.drop_last() =~= rv.take(i as int));
            assert(t.last() == rv[i as int]);
        }
        match &results[i].matched_entry {
            Some(m) => {
                if m.authors.len() > 0 && m.authors.len() != local_len {
                    proof {
                        assert(rv[i as int].matched_entry->0.authors.len()
                            == m.authors@.len());
                    }
                    votes.push(m.authors.len() as u64);
                    proof {
                        assert(len_votes(rv.take(i as int), ll).push(
                            rv[i as int].matched_entry->0.authors.len() as u64,
                        ) =~= len_votes(rv.take(i as int), ll) + seq![
                            rv[i as int].matched_entry->0.authors.len() as u64,
                        ]);
                    }
                }
            },
            None => {},
        }
        i += 1;
    }
    proof {
        assert(rv.take(n as int) =~= rv);
    }

    let mut out: Vec<Discrepancy> = Vec::new();
    if votes.len() == 0 {
        proof {
            assert(out.deep_view() =~= fused_authors_seq(local@, rv));
        }
        return out;
    }

    // The distinct counts, first vote first.
    let vn = votes.len();
    let mut vals: Vec<u64> = Vec::new();
    let mut k: usize = 0;
    while k < vn
        invariant
            k <= vn,
            vn == votes@.len(),
            vals@ == distinct_votes(votes@.take(k as int)),
        decreases vn - k,
    {
        proof {
            let t = votes@.take(k + 1 as int);
            assert(t.drop_last() =~= votes@.take(k as int));
            assert(t.last() == votes@[k as int]);
        }
        let v = votes[k];
        if !contains_u64(&vals, v) {
            vals.push(v);
        }
        k += 1;
    }
    proof {
        assert(votes@.take(vn as int) =~= votes@);
        assert(distinct_votes(votes@).len() > 0) by {
            assert(votes@.len() > 0);
        }
    }

    // The modal count.
    let mut best: usize = 0;
    let mut best_cnt: usize = count_u64_votes(&votes, vals[0]);
    let vln = vals.len();
    let mut k: usize = 1;
    while k < vln
        invariant
            1 <= k <= vln,
            vln == vals@.len(),
            best < k,
            best_cnt == vote_count(votes@, vals@[best as int]),
            modal_vote_from(votes@, vals@, 1, 0) == modal_vote_from(
                votes@,
                vals@,
                k as int,
                best as int,
            ),
        decreases vln - k,
    {
        let c = count_u64_votes(&votes, vals[k]);
        if c > best_cnt {
            best = k;
            best_cnt = c;
        }
        k += 1;
    }
    let ml = vals[best];
    proof {
        assert(modal_vote(votes@) == vals@[best as int]);
    }

    if best_cnt >= 2 || (results.len() == 1 && best_cnt == 1) {
        let lv = {
            let mut s = u64_to_string(local_len as u64);
            s.append(" authors");
            s
        };
        let rv_str = {
            let mut s = u64_to_string(ml);
            s.append(" authors");
            s
        };
        let msg = {
            let mut s = String::new();
            s.append("Author count differs: ");
            s.append(u64_to_string(local_len as u64).as_str());
            s.append(" (local) vs ");
            s.append(u64_to_string(ml).as_str());
            s.append(" (remote)");
            s
        };
        let d = Discrepancy {
            field: DiscrepancyField::Authors,
            severity: Severity::Warning,
            local_value: lv,
            remote_value: rv_str,
            message: msg,
        };
        proof {
            assert(d@ =~= author_count_disc(ll, ml as nat)) by {
                assert(d@.message =~= author_count_disc(ll, ml as nat).message);
                assert(d@.local_value =~= author_count_disc(ll, ml as nat).local_value);
                assert(d@.remote_value =~= author_count_disc(ll, ml as nat).remote_value);
            }
        }
        out.push(d);
        proof {
            assert(out.deep_view() =~= fused_authors_seq(local@, rv));
        }
    } else {
        proof {
            assert(out.deep_view() =~= fused_authors_seq(local@, rv));
        }
    }
    out
}

/// Reports the first remote DOI when the local entry has none.
pub fn check_missing_doi(local: &Entry, results: &Vec<&ValidationResult>) -> (r: Option<
    Discrepancy,
>)
    ensures
        (match r {
            Some(d) => seq![d@],
            None => Seq::<DiscrepancyModel>::empty(),
        }) == fused_doi_opt(local@, results.deep_view()),
{
    let ghost rv = results.deep_view();
    proof {
        assert(rv.len() == results@.len());
    }
    if local.doi.is_some() {
        return None;
    }
    let n = results.len();
    let mut i: usize = 0;
    while i < n
        invariant
            i <= n,
            n == results@.len(),
            rv == results.deep_view(),
            rv.len() == n,
            local@.doi is None,
            first_remote_doi_idx(rv, 0) == first_remote_doi_idx(rv, i as int),
        decreases n - i,
    {
        match &results[i].matched_entry {
            Some(m) => {
                match &m.doi {
                    Some(doi) => {
                        let d = Discrepancy {
                            field: DiscrepancyField::Doi,
                            severity: Severity::Warning,
                            local_value: {
                                let mut s = String::new();
                                s.append("(none)");
                                s
                            },
                            remote_value: doi.clone(),
                            message: {
                                let mut s = String::new();
                                s.append("Missing DOI in local entry");
                                s
                            },
                        };
                        proof {
                            assert(first_remote_doi_idx(rv, i as int) == i as int);
                            assert(d@ =~= missing_doi_disc(rv[i as int].matched_entry->0.doi->0))
                                by {
                                assert(d@.local_value =~= "(none)"@);
                                assert(d@.message =~= "Missing DOI in local entry"@);
                            }
                            assert(seq![d@] =~= fused_doi_opt(local@, rv));
                        }
                        return Some(d);
                    },
                    None => {},
                }
            },
            None => {},
        }
        i += 1;
    }
    proof {
        assert(first_remote_doi_idx(rv, n as int) == -1);
        assert(fused_doi_opt(local@, rv) =~= Seq::<DiscrepancyModel>::empty());
    }
    None
}

/// Fuses the raw results for one entry into the consensus view: only the
/// results with a matched entry and positive confidence take part; the
/// sources are listed without repetition in first-contribution order, and
/// the discrepancies are the consensus ones, in the order year, title,
/// authors, DOI.
pub fn fuse_results(local: &Entry, results: &Vec<ValidationResult>) -> (r: FusedResult)
    ensures
        r@ == fused_model(local@, results.deep_view()),
{
    let ghost rsv = results.deep_view();
    proof {
        assert(rsv.len() == results@.len());
    }
    let n = results.len();
    let mut valid: Vec<&ValidationResult> = Vec::new();
    let mut i: usize = 0;
    while i < n
        invariant
            i <= n,
            n == results@.len(),
            rsv == results.deep_view(),
            rsv.len() == n,
            valid.deep_view() == retained(rsv.take(i as int)),
        decreases n - i,
    {
        proof {
            let t = rsv.take(i + 1 as int);
            assert(t.drop_last() =~= rsv.take(i as int));
            assert(t.last() == rsv[i as int]);
        }
        if results[i].matched_entry.is_some() && results[i].confidence > 0 {
            let ghost prev = valid.deep_view();
            valid.push(&results[i]);
            proof {
                assert(valid.deep_view() =~= prev.push(rsv[i as int]));
                assert(prev.push(rsv[i as int]) =~= retained(rsv.take(i as int)) + seq![
                    rsv[i as int],
                ]);
            }
        }
        i += 1;
    }
    proof {
        assert(rsv.take(n as int) =~= rsv);
    }
    let ghost ret = retained(rsv);

    if valid.len() == 0 {
        let r = FusedResult { sources: Vec::new(), discrepancies: Vec::new(), has_matches: false };
        proof {
            assert(r@ =~= fused_model(local@, rsv)) by {
                assert(r@.sources =~= Seq::<ApiSource>::empty());
                assert(r@.discrepancies =~= Seq::<DiscrepancyModel>::empty());
            }
        }
        return r;
    }

    // The contributing sources, without repetition.
    let vn = valid.len();
    let mut sources: Vec<ApiSource> = Vec::new();
    let mut k: usize = 0;
    proof {
        assert(ret == valid.deep_view());
        assert(result_sources(ret.take(0)) =~= Seq::<ApiSource>::empty());
        assert(sources@ =~= dedup_sources(result_sources(ret.take(0))));
    }
    while k < vn
        invariant
            k <= vn,
            vn == valid@.len(),
            ret == valid.deep_view(),
            ret.len() == vn,
            sources@ == dedup_sources(result_sources(ret.take(k as int))),
        decreases vn - k,
    {
        proof {
            let t = result_sources(ret.take(k + 1 as int));
            assert(t.drop_last() =~= result_sources(ret.take(k as int)));
            assert(t.last() == ret[k as int].source);
        }
        let s = valid[k].source;
        if !contains_source(&sources, s) {
            sources.push(s);
        }
        k += 1;
    }
    proof {
        assert(ret.take(vn as int) =~= ret);
    }

    // The consensus discrepancies.
    let mut discs: Vec<Discrepancy> = Vec::new();
    match fuse_year(local, &valid) {
        Some(d) => {
            let ghost prev = discs.deep_view();
            discs.push(d);
            proof {
                assert(discs.deep_view() =~= prev.push(d@));
                assert(discs.deep_view() =~= fused_year_opt(local@, ret));
            }
        },
        None => {
            proof {
                assert(discs.deep_view() =~= fused_year_opt(local@, ret));
            }
        },
    }
    let ghost py = fused_year_opt(local@, ret);
    match fuse_title(local, &valid) {
        Some(d) => {
            let ghost prev = discs.deep_view();
            discs.push(d);
            proof {
                assert(discs.deep_view() =~= prev.push(d@));
                assert(discs.deep_view() =~= py + fused_title_opt(ret));
            }
        },
        None => {
            proof {
                assert(discs.deep_view() =~= py + fused_title_opt(ret));
            }
        },
    }
    let ghost pt = py + fused_title_opt(ret);
    let mut au = fuse_authors(local, &valid);
    let ghost aup = au.deep_view();
    let ghost prev = discs.deep_view();
    discs.append(&mut au);
    proof {
        assert(discs.deep_view() =~= prev + aup);
    }
    let ghost pa = pt + fused_authors_seq(local@, ret);
    match check_missing_doi(local, &valid) {
        Some(d) => {
            let ghost prev2 = discs.deep_view();
            discs.push(d);
            proof {
                assert(discs.deep_view() =~= prev2.push(d@));
                assert(discs.deep_view() =~= pa + fused_doi_opt(local@, ret));
            }
        },
        None => {
            proof {
                assert(discs.deep_view() =~= pa + fused_doi_opt(local@, ret));
            }
        },
    }

    let r = FusedResult { sources, discrepancies: discs, has_matches: true };
    proof {
        assert(r@ =~= fused_model(local@, rsv));
    }
    r
}

} // verus!
