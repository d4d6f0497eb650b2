//! Fuzzy comparison of bibliography records: title similarity, per-field
//! discrepancy derivation and best-candidate selection.

use vstd::prelude::*;
use vstd::string::StringExecFns;
use crate::entry::{Discrepancy, DiscrepancyField, DiscrepancyModel, Entry, EntryModel, Severity};
use crate::norm::{norm_seq, normalize_string};
use crate::sim::{
    jaro_winkler_bits, jaro_winkler_sim, percent_from_bits, sim_percent, AUTHOR_MATCH_THRESHOLD_BITS,
    SIM_ONE_BITS, TITLE_MATCH_THRESHOLD_BITS, TITLE_WARNING_THRESHOLD_BITS,
    VENUE_INFO_THRESHOLD_BITS,
};
use crate::strutil::{dec_seq, i32_to_string, int_seq, u64_to_string};

verus! {

/// The title similarity of two records: Jaro-Winkler of the normalized
/// titles, or 0 when either title is absent.
pub open spec fn title_sim_spec(a: EntryModel, b: EntryModel) -> u64 {
    match (a.title, b.title) {
        (Some(ta), Some(tb)) => jaro_winkler_bits(norm_seq(ta), norm_seq(tb)),
        _ => 0u64,
    }
}

/// Jaro-Winkler similarity of the two normalized titles; 0 when either
/// title is absent, and exactly 1.0 when the titles are equal.
pub fn title_similarity(a: &Entry, b: &Entry) -> (r: u64)
    ensures
        r == title_sim_spec(a@, b@),
        r <= SIM_ONE_BITS,
        (a@.title is None || b@.title is None) ==> r == 0,
        (a@.title is Some && a@.title == b@.title) ==> r == SIM_ONE_BITS,
{
    match (&a.title, &b.title) {
        (Some(ta), Some(tb)) => {
            let na = normalize_string(ta.as_str());
            let nb = normalize_string(tb.as_str());
            jaro_winkler_sim(na.as_str(), nb.as_str())
        },
        _ => 0,
    }
}

/// Years are compatible when either is missing or both are equal.
pub open spec fn years_compat_spec(a: EntryModel, b: EntryModel) -> bool {
    match (a.year, b.year) {
        (Some(la), Some(ra)) => la == ra,
        _ => true,
    }
}

/// True when either year is missing, or both are equal.
pub fn years_compatible(a: &Entry, b: &Entry) -> (r: bool)
    ensures
        r == years_compat_spec(a@, b@),
{
    match (a.year, b.year) {
        (Some(la), Some(ra)) => la == ra,
        _ => true,
    }
}

// ---------------------------------------------------------------------------
// Discrepancy construction, at the model level.
// ---------------------------------------------------------------------------

/// Title discrepancy: error below the match threshold, warning below the
/// warning threshold.
pub open spec fn title_disc(lt: Seq<char>, rt: Seq<char>, sim: u64, sev: Severity) -> DiscrepancyModel {
    DiscrepancyModel {
        field: DiscrepancyField::Title,
        severity: sev,
        local_value: lt,
        remote_value: rt,
        message: (if sev is Error {
            "Title significantly different (similarity: "@
        } else {
            "Title slightly different (similarity: "@
        }) + dec_seq(sim_percent(sim) as nat) + "%)"@,
    }
}

/// Year mismatch between the two records.
pub open spec fn year_disc(ly: int, ry: int) -> DiscrepancyModel {
    DiscrepancyModel {
        field: DiscrepancyField::Year,
        severity: Severity::Error,
        local_value: int_seq(ly),
        remote_value: int_seq(ry),
        message: "Year mismatch: "@ + int_seq(ly) + " vs "@ + int_seq(ry),
    }
}

/// The `"N authors"` display value.
pub open spec fn authors_value(n: nat) -> Seq<char> {
    dec_seq(n) + " authors"@
}

/// Author count mismatch between the two records.
pub open spec fn author_count_disc(l: nat, r: nat) -> DiscrepancyModel {
    DiscrepancyModel {
        field: DiscrepancyField::Authors,
        severity: Severity::Warning,
        local_value: authors_value(l),
        remote_value: authors_value(r),
        message: "Author count differs: "@ + dec_seq(l) + " (local) vs "@ + dec_seq(r)
            + " (remote)"@,
    }
}

/// Author name spelling difference.
pub open spec fn author_name_disc(l: Seq<char>, r: Seq<char>) -> DiscrepancyModel {
    DiscrepancyModel {
        field: DiscrepancyField::Authors,
        severity: Severity::Warning,
        local_value: l,
        remote_value: r,
        message: "Author name spelling may differ: '"@ + l + "' vs '"@ + r + "'"@,
    }
}

/// DOI present remotely but missing locally.
pub open spec fn missing_doi_disc(rd: Seq<char>) -> DiscrepancyModel {
    DiscrepancyModel {
        field: DiscrepancyField::Doi,
        severity: Severity::Warning,
        local_value: "(none)"@,
        remote_value: rd,
        message: "Missing DOI in local entry"@,
    }
}

/// Venue names differ.
pub open spec fn venue_disc(lv: Seq<char>, rv: Seq<char>) -> DiscrepancyModel {
    DiscrepancyModel {
        field: DiscrepancyField::Venue,
        severity: Severity::Info,
        local_value: lv,
        remote_value: rv,
        message: "Venue name differs"@,
    }
}

// ---------------------------------------------------------------------------
// The comparison, at the model level.
// ---------------------------------------------------------------------------

/// Title part of the comparison.
pub open spec fn compare_title(a: EntryModel, b: EntryModel) -> Seq<DiscrepancyModel> {
    match (a.title, b.title) {
        (Some(lt), Some(rt)) => {
            let s = jaro_winkler_bits(norm_seq(lt), norm_seq(rt));
            if s < TITLE_MATCH_THRESHOLD_BITS {
                seq![title_disc(lt, rt, s, Severity::Error)]
            } else if s < TITLE_WARNING_THRESHOLD_BITS {
                seq![title_disc(lt, rt, s, Severity::Warning)]
            } else {
                Seq::empty()
            }
        },
        _ => Seq::empty(),
    }
}

/// Year part of the comparison.
pub open spec fn compare_year(a: EntryModel, b: EntryModel) -> Seq<DiscrepancyModel> {
    match (a.year, b.year) {
        (Some(ly), Some(ry)) => if ly != ry {
            seq![year_disc(ly as int, ry as int)]
        } else {
            Seq::empty()
        },
        _ => Seq::empty(),
    }
}

/// The index of the remote author most similar to the local name `l`,
/// scanned from index `k` with current best index `b`; the first highest
/// similarity wins.
pub open spec fn best_author_from(l: Seq<char>, ra: Seq<Seq<char>>, k: int, b: int) -> int
    decreases ra.len() - k,
{
    if k < 0 || k >= ra.len() {
        b
    } else {
        let s = jaro_winkler_bits(norm_seq(l), norm_seq(ra[k]));
        let sb = jaro_winkler_bits(norm_seq(l), norm_seq(ra[b]));
        best_author_from(l, ra, k + 1, if s > sb {
            k
        } else {
            b
        })
    }
}

/// The index of the remote author most similar to the local name `l`.
pub open spec fn best_author(l: Seq<char>, ra: Seq<Seq<char>>) -> int {
    best_author_from(l, ra, 1, 0)
}

/// The name-spelling warning for one local author, if its best remote
/// counterpart is still too dissimilar.
pub open spec fn author_warn_one(l: Seq<char>, ra: Seq<Seq<char>>) -> Seq<DiscrepancyModel> {
    let b = best_author(l, ra);
    if jaro_winkler_bits(norm_seq(l), norm_seq(ra[b])) < AUTHOR_MATCH_THRESHOLD_BITS {
        seq![author_name_disc(l, ra[b])]
    } else {
        Seq::empty()
    }
}

/// The name-spelling warnings for the first `i` local authors.
pub open spec fn author_warns_upto(la: Seq<Seq<char>>, ra: Seq<Seq<char>>, i: int) -> Seq<
    DiscrepancyModel,
>
    decreases i,
{
    if i <= 0 {
        Seq::empty()
    } else {
        author_warns_upto(la, ra, i - 1) + author_warn_one(la[i - 1], ra)
    }
}

/// Author part of the comparison: nothing when either list is empty, else
/// a count warning when the lengths differ, then one warning per local
/// author whose best remote counterpart is too dissimilar.
pub open spec fn compare_authors_spec(la: Seq<Seq<char>>, ra: Seq<Seq<char>>) -> Seq<
    DiscrepancyModel,
> {
    if la.len() == 0 || ra.len() == 0 {
        Seq::empty()
    } else {
        (if la.len() != ra.len() {
            seq![author_count_disc(la.len(), ra.len())]
        } else {
            Seq::empty()
        }) + author_warns_upto(la, ra, la.len() as int)
    }
}

/// Missing-DOI part of the comparison.
pub open spec fn compare_doi(a: EntryModel, b: EntryModel) -> Seq<DiscrepancyModel> {
    if a.doi is None && b.doi is Some {
        seq![missing_doi_disc(b.doi->0)]
    } else {
        Seq::empty()
    }
}

/// Venue part of the comparison.
pub open spec fn compare_venue(a: EntryModel, b: EntryModel) -> Seq<DiscrepancyModel> {
    match (a.venue, b.venue) {
        (Some(lv), Some(rv)) => if jaro_winkler_bits(norm_seq(lv), norm_seq(rv))
            < VENUE_INFO_THRESHOLD_BITS {
            seq![venue_disc(lv, rv)]
        } else {
            Seq::empty()
        },
        _ => Seq::empty(),
    }
}

/// The full comparison of a local record against a remote one: title, year,
/// authors, missing DOI, then venue.
pub open spec fn compare_spec(a: EntryModel, b: EntryModel) -> Seq<DiscrepancyModel> {
    compare_title(a, b) + compare_year(a, b) + compare_authors_spec(a.authors, b.authors)
        + compare_doi(a, b) + compare_venue(a, b)
}

// ---------------------------------------------------------------------------
// The comparison, executed.
// ---------------------------------------------------------------------------

/// Compares the author lists; warnings as [`compare_authors_spec`] says.
fn compare_authors(local: &Vec<String>, remote: &Vec<String>) -> (r: Vec<Discrepancy>)
    ensures
        r.deep_view() == compare_authors_spec(local.deep_view(), remote.deep_view()),
        local.deep_view() == remote.deep_view() ==> r@.len() == 0,
{
    let ghost la = local.deep_view();
    let ghost ra = remote.deep_view();
    let mut discs: Vec<Discrepancy> = Vec::new();
    proof {
        assert(la.len() == local@.len());
        assert(ra.len() == remote@.len());
    }

    if local.len() == 0 || remote.len() == 0 {
        proof {
            assert(discs.deep_view() =~= compare_authors_spec(la, ra));
        }
        return discs;
    }

    if local.len() != remote.len() {
        let lv = {
            let mut s = u64_to_string(local.len() as u64);
            s.append(" authors");
            s
        };
        let rv = {
            let mut s = u64_to_string(remote.len() as u64);
            s.append(" authors");
            s
        };
        let msg = {
            let mut s = String::new();
            s.append("Author count differs: ");
            s.append(u64_to_string(local.len() as u64).as_str());
            s.append(" (local) vs ");
            s.append(u64_to_string(remote.len() as u64).as_str());
            s.append(" (remote)");
            s
        };
        let d = Discrepancy {
            field: DiscrepancyField::Authors,
            severity: Severity::Warning,
            local_value: lv,
            remote_value: rv,
            message: msg,
        };
        proof {
            assert(d@ =~= author_count_disc(la.len(), ra.len())) by {
                assert(d@.message =~= author_count_disc(la.len(), ra.len()).message);
                assert(d@.local_value =~= authors_value(la.len()));
                assert(d@.remote_value =~= authors_value(ra.len()));
            }
        }
        discs.push(d);
    }
    let ghost count_part = if la.len() != ra.len() {
        seq![author_count_disc(la.len(), ra.len())]
    } else {
        Seq::<DiscrepancyModel>::empty()
    };
    proof {
        assert(discs.deep_view() =~= count_part);
    }

    let n = local.len();
    let rn = remote.len();
    let mut i: usize = 0;
    while i < n
        invariant
            i <= n,
            n == local@.len(),
            rn == remote@.len(),
            rn > 0,
            la == local.deep_view(),
            ra == remote.deep_view(),
            la.len() == n,
            ra.len() == rn,
            discs.deep_view() == count_part + author_warns_upto(la, ra, i as int),
            la == ra ==> discs@.len() == count_part.len(),
        decreases n - i,
    {
        let l_norm = normalize_string(local[i].as_str());
        // Find the most similar remote author; the first highest wins.
        let mut best: usize = 0;
        let mut best_sim: u64 = {
            let r0 = normalize_string(remote[0].as_str());
            jaro_winkler_sim(l_norm.as_str(), r0.as_str())
        };
        let mut k: usize = 1;
        while k < rn
            invariant
                1 <= k <= rn,
                rn == remote@.len(),
                la == local.deep_view(),
                ra == remote.deep_view(),
                ra.len() == rn,
                i < la.len(),
                l_norm@ == norm_seq(la[i as int]),
                best < k,
                best_sim == jaro_winkler_bits(norm_seq(la[i as int]), norm_seq(ra[best as int])),
                best_sim <= SIM_ONE_BITS,
                best_author(la[i as int], ra) == best_author_from(la[i as int], ra, k as int, best as int),
                forall|j: int|
                    0 <= j < k ==> jaro_winkler_bits(
                        norm_seq(la[i as int]),
                        norm_seq(#[trigger] ra[j]),
                    ) <= best_sim,
                la == ra && i < k ==> best_sim == SIM_ONE_BITS,
            decreases rn - k,
        {
            let r_norm = normalize_string(remote[k].as_str());
            let s = jaro_winkler_sim(l_norm.as_str(), r_norm.as_str());
            proof {
                if la == ra && k as int == i {
                    assert(norm_seq(la[i as int]) == norm_seq(ra[k as int]));
                }
            }
            if s > best_sim {
                best = k;
                best_sim = s;
            }
            k += 1;
        }
        proof {
            assert(best_author(la[i as int], ra) == best as int);
        }
        if best_sim < AUTHOR_MATCH_THRESHOLD_BITS {
            let msg = {
                let mut s = String::new();
                s.append("Author name spelling may differ: '");
                s.append(local[i].as_str());
                s.append("' vs '");
                s.append(remote[best].as_str());
                s.append("'");
                s
            };
            let d = Discrepancy {
                field: DiscrepancyField::Authors,
                severity: Severity::Warning,
                local_value: local[i].clone(),
                remote_value: remote[best].clone(),
                message: msg,
            };
            proof {
                assert(d@ =~= author_name_disc(la[i as int], ra[best as int])) by {
                    assert(d@.message =~= author_name_disc(la[i as int], ra[best as int]).message);
                }
            }
            proof {
                assert(author_warn_one(la[i as int], ra) =~= seq![
                    author_name_disc(la[i as int], ra[best as int]),
                ]);
            }
            let ghost prev = discs.deep_view();
            discs.push(d);
            proof {
                assert(discs.deep_view() =~= prev.push(d@));
                assert(author_warns_upto(la, ra, i + 1 as int) == author_warns_upto(
                    la,
                    ra,
                    i as int,
                ) + author_warn_one(la[i as int], ra));
                assert(prev.push(d@) =~= count_part + author_warns_upto(la, ra, i + 1 as int));
            }
        } else {
            proof {
                assert(author_warn_one(la[i as int], ra) =~= Seq::<DiscrepancyModel>::empty());
                assert(count_part + author_warns_upto(la, ra, i as int) =~= count_part
                    + author_warns_upto(la, ra, i + 1 as int));
            }
        }
        i += 1;
    }
    proof {
        assert(discs.deep_view() == compare_authors_spec(la, ra));
        if la == ra {
            assert(count_part =~= Seq::<DiscrepancyModel>::empty());
        }
    }
    discs
}

/// Compares two records field by field and returns the discrepancies, in
/// the order title, year, authors, missing DOI, venue.
///
/// A record compared against itself yields no discrepancies.
pub fn compare_entries(local: &Entry, remote: &Entry) -> (r: Vec<Discrepancy>)
    ensures
        r.deep_view() == compare_spec(local@, remote@),
        local@ == remote@ ==> r@.len() == 0,
{
    let mut discs: Vec<Discrepancy> = Vec::new();

    // Title.
    if let (Some(lt), Some(rt)) = (&local.title, &remote.title) {
        let ln = normalize_string(lt.as_str());
        let rn = normalize_string(rt.as_str());
        let sim = jaro_winkler_sim(ln.as_str(), rn.as_str());
        if sim < TITLE_MATCH_THRESHOLD_BITS || sim < TITLE_WARNING_THRESHOLD_BITS {
            let error = sim < TITLE_MATCH_THRESHOLD_BITS;
            let pct = percent_from_bits(sim);
            let msg = {
                let mut s = String::new();
                if error {
                    s.append("Title significantly different (similarity: ");
                } else {
                    s.append("Title slightly different (similarity: ");
                }
                s.append(u64_to_string(pct).as_str());
                s.append("%)");
                s
            };
            let d = Discrepancy {
                field: DiscrepancyField::Title,
                severity: if error {
                    Severity::Error
                } else {
                    Severity::Warning
                },
                local_value: lt.clone(),
                remote_value: rt.clone(),
                message: msg,
            };
            proof {
                let sev = if error {
                    Severity::Error
                } else {
                    Severity::Warning
                };
                assert(d@ =~= title_disc(local@.title->0, remote@.title->0, sim, sev)) by {
                    assert(d@.message =~= title_disc(
                        local@.title->0,
                        remote@.title->0,
                        sim,
                        sev,
                    ).message);
                }
            }
            discs.push(d);
        }
    }
    proof {
        assert(discs.deep_view() =~= compare_title(local@, remote@));
        if local@ == remote@ {
            assert(discs@.len() == 0);
        }
    }
    let ghost part1 = compare_title(local@, remote@);

    // Year.
    if let (Some(ly), Some(ry)) = (local.year, remote.year) {
        if ly != ry {
            let d = Discrepancy {
                field: DiscrepancyField::Year,
                severity: Severity::Error,
                local_value: i32_to_string(ly),
                remote_value: i32_to_string(ry),
                message: {
                    let mut s = String::new();
                    s.append("Year mismatch: ");
                    s.append(i32_to_string(ly).as_str());
                    s.append(" vs ");
                    s.append(i32_to_string(ry).as_str());
                    s
                },
            };
            proof {
                assert(d@ =~= year_disc(ly as int, ry as int)) by {
                    assert(d@.message =~= year_disc(ly as int, ry as int).message);
                }
            }
            discs.push(d);
        }
    }
    proof {
        assert(discs.deep_view() =~= part1 + compare_year(local@, remote@));
    }
    let ghost part2 = part1 + compare_year(local@, remote@);

    // Authors.
    let mut author_issues = compare_authors(&local.authors, &remote.authors);
    proof {
        assert(local@.authors == local.authors.deep_view());
    }
    let ghost author_part = author_issues.deep_view();
    let an = author_issues.len();
    proof {
        assert(author_part.len() == author_issues@.len());
        assert(discs.deep_view() =~= part2 + author_part.take(0));
    }
    let mut ai: usize = 0;
    while ai < an
        invariant
            ai <= an,
            an == author_issues@.len(),
            author_part == author_issues.deep_view(),
            discs.deep_view() == part2 + author_part.take(ai as int),
        decreases an - ai,
    {
        let d = author_issues[ai].clone();
        proof {
            assert(author_part.take(ai + 1 as int) =~= author_part.take(ai as int).push(
                author_part[ai as int],
            ));
            assert(d@ == author_part[ai as int]);
        }
        let ghost prev = discs.deep_view();
        discs.push(d);
        proof {
            assert(discs.deep_view() =~= prev.push(d@));
            assert(prev.push(d@) =~= part2 + author_part.take(ai + 1 as int));
        }
        ai += 1;
    }
    proof {
        assert(author_part.take(an as int) =~= author_part);
        assert(discs.deep_view() =~= part2 + author_part);
    }
    let ghost part3 = part2 + compare_authors_spec(local@.authors, remote@.authors);

    // Missing DOI.
    if local.doi.is_none() && remote.doi.is_some() {
        let rd = match &remote.doi {
            Some(d) => d.clone(),
            None => String::new(),
        };
        let d = Discrepancy {
            field: DiscrepancyField::Doi,
            severity: Severity::Warning,
            local_value: {
                let mut s = String::new();
                s.append("(none)");
                s
            },
            remote_value: rd,
            message: {
                let mut s = String::new();
                s.append("Missing DOI in local entry");
                s
            },
        };
        proof {
            assert(d@ =~= missing_doi_disc(remote@.doi->0)) by {
                assert(d@.local_value =~= "(none)"@);
                assert(d@.message =~= "Missing DOI in local entry"@);
            }
        }
        discs.push(d);
    }
    proof {
        assert(discs.deep_view() =~= part3 + compare_doi(local@, remote@));
    }
    let ghost part4 = part3 + compare_doi(local@, remote@);

    // Venue.
    if let (Some(lv), Some(rv)) = (&local.venue, &remote.venue) {
        let ln = normalize_string(lv.as_str());
        let rn = normalize_string(rv.as_str());
        let sim = jaro_winkler_sim(ln.as_str(), rn.as_str());
        if sim < VENUE_INFO_THRESHOLD_BITS {
            let d = Discrepancy {
                field: DiscrepancyField::Venue,
                severity: Severity::Info,
                local_value: lv.clone(),
                remote_value: rv.clone(),
                message: {
                    let mut s = String::new();
                    s.append("Venue name differs");
                    s
                },
            };
            proof {
                assert(d@ =~= venue_disc(local@.venue->0, remote@.venue->0)) by {
                    assert(d@.message =~= "Venue name differs"@);
                }
            }
            discs.push(d);
        }
    }
    proof {
        assert(discs.deep_view() =~= part4 + compare_venue(local@, remote@));
        assert(discs.deep_view() =~= compare_spec(local@, remote@));
        if local@ == remote@ {
            assert(discs@.len() == 0);
        }
    }
    discs
}

// ---------------------------------------------------------------------------
// Best-candidate selection.
// ---------------------------------------------------------------------------

/// The index of the best qualifying candidate, scanned from index `k` with
/// current best `b` (`-1` when none qualifies so far). A candidate
/// qualifies when its title similarity reaches the match threshold; the
/// first highest similarity wins.
pub open spec fn best_match_from(t: EntryModel, cs: Seq<EntryModel>, k: int, b: int) -> int
    decreases cs.len() - k,
{
    if k < 0 || k >= cs.len() {
        b
    } else {
        let s = title_sim_spec(t, cs[k]);
        let better = s >= TITLE_MATCH_THRESHOLD_BITS && (b < 0 || s > title_sim_spec(t, cs[b]));
        best_match_from(t, cs, k + 1, if better {
            k
        } else {
            b
        })
    }
}

/// The index of the best qualifying candidate, or `-1` when none reaches
/// the match threshold.
pub open spec fn best_match_idx(t: EntryModel, cs: Seq<EntryModel>) -> int {
    best_match_from(t, cs, 0, -1)
}

/// Picks the candidate whose title is most similar to the target's, among
/// those reaching the match threshold, together with that similarity; the
/// first highest wins. Returns nothing when no candidate qualifies.
pub fn find_best_match<'a>(target: &Entry, candidates: &'a Vec<Entry>) -> (r: Option<
    (&'a Entry, u64),
>)
    ensures
        r is Some <==> best_match_idx(target@, candidates.deep_view()) >= 0,
        r is None ==> forall|j: int|
            0 <= j < candidates.deep_view().len() ==> title_sim_spec(
                target@,
                #[trigger] candidates.deep_view()[j],
            ) < TITLE_MATCH_THRESHOLD_BITS,
        r is Some ==> {
            let b = best_match_idx(target@, candidates.deep_view());
            &&& 0 <= b < candidates.deep_view().len()
            &&& (r->0).0@ == candidates.deep_view()[b]
            &&& (r->0).1 == title_sim_spec(target@, candidates.deep_view()[b])
            &&& (r->0).1 >= TITLE_MATCH_THRESHOLD_BITS
            &&& forall|j: int|
                0 <= j < candidates.deep_view().len() ==> title_sim_spec(
                    target@,
                    #[trigger] candidates.deep_view()[j],
                ) <= (r->0).1
        },
{
    let ghost cs = candidates.deep_view();
    let n = candidates.len();
    proof {
        assert(cs.len() == candidates@.len());
    }
    let mut found = false;
    let mut best_i: usize = 0;
    let mut best_s: u64 = 0;
    let mut k: usize = 0;
    while k < n
        invariant
            k <= n,
            n == candidates@.len(),
            cs == candidates.deep_view(),
            cs.len() == n,
            best_match_idx(target@, cs) == best_match_from(
                target@,
                cs,
                k as int,
                if found {
                    best_i as int
                } else {
                    -1
                },
            ),
            found ==> best_i < k && best_s == title_sim_spec(target@, cs[best_i as int]) && best_s
                >= TITLE_MATCH_THRESHOLD_BITS,
            !found ==> forall|j: int|
                0 <= j < k ==> title_sim_spec(target@, #[trigger] cs[j])
                    < TITLE_MATCH_THRESHOLD_BITS,
            found ==> forall|j: int|
                0 <= j < k ==> title_sim_spec(target@, #[trigger] cs[j]) <= best_s,
        decreases n - k,
    {
        let s = title_similarity(target, &candidates[k]);
        if s >= TITLE_MATCH_THRESHOLD_BITS && (!found || s > best_s) {
            found = true;
            best_i = k;
            best_s = s;
        }
        k += 1;
    }
    if found {
        proof {
            assert(best_match_idx(target@, cs) == best_i as int);
        }
        Some((&candidates[best_i], best_s))
    } else {
        proof {
            assert(best_match_idx(target@, cs) == -1);
        }
        None
    }
}

} // verus!
