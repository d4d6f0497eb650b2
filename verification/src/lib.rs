//! Validation of bibliography entries against remote scholarly metadata
//! services: string normalization, fuzzy matching, multi-source fusion and
//! per-entry status assignment.
//!
//! The per-entry lookup strategy lives here as pure decision logic: which
//! probes to run for an entry, how to judge what a probe brought back, and
//! how to turn the accumulated results into a verdict. Performing the
//! probes (HTTP, caching, concurrency) is the caller's business; every
//! decision about their outcomes is made, and specified, in this crate.

pub mod entry;
pub mod fusion;
pub mod matcher;
pub mod norm;
pub mod parser;
pub mod report;
pub mod sim;
pub mod strutil;
pub mod validators;

use vstd::prelude::*;
use vstd::string::StringExecFns;
use crate::entry::{ApiSource, Entry, EntryModel, ValidationResult, ValidationResultModel};
use crate::entry::{clone_discrepancies, Discrepancy, DiscrepancyModel, Severity};
use crate::fusion::{fuse_results, fused_model, FusedResult, FusedResultModel};
use crate::matcher::{
    best_match_idx, compare_entries, compare_spec, find_best_match, title_sim_spec,
    title_similarity, years_compat_spec, years_compatible,
};
use crate::report::{EntryReport, EntryStatus, StatusModel};
use crate::sim::{
    CONF_ARXIV_BITS, CONF_DOI_DISCREPANT_BITS, CONF_SEMANTIC_ARXIV_BITS,
    MIN_TITLE_SIM_FOR_ID_LOOKUP_BITS, SIM_ONE_BITS,
};
use crate::strutil::{join_seq, join_strings};
use crate::validators::{error_message, ValidatorError};

verus! {

/// Which services take part in a validation run, and whether lookups may
/// be cached.
#[derive(Debug, Clone, Copy, PartialEq, Eq, Structural)]
pub struct ValidatorConfig {
    pub use_crossref: bool,
    pub use_dblp: bool,
    pub use_arxiv: bool,
    pub use_semantic: bool,
    pub use_openalex: bool,
    pub use_openlibrary: bool,
    pub use_openreview: bool,
    pub use_zenodo: bool,
    pub cache_enabled: bool,
}

impl Default for ValidatorConfig {
    /// Every service except OpenReview, with caching on.
    fn default() -> (r: Self)
        ensures
            r == (ValidatorConfig {
                use_crossref: true,
                use_dblp: true,
                use_arxiv: true,
                use_semantic: true,
                use_openalex: true,
                use_openlibrary: true,
                use_openreview: false,
                use_zenodo: true,
                cache_enabled: true,
            }),
    {
        ValidatorConfig {
            use_crossref: true,
            use_dblp: true,
            use_arxiv: true,
            use_semantic: true,
            use_openalex: true,
            use_openlibrary: true,
            use_openreview: false,
            use_zenodo: true,
            cache_enabled: true,
        }
    }
}

/// A match found through an identifier is trusted only if the titles are
/// similar enough and the years do not contradict each other.
pub open spec fn is_valid_id_match_spec(a: EntryModel, b: EntryModel) -> bool {
    title_sim_spec(a, b) >= MIN_TITLE_SIM_FOR_ID_LOOKUP_BITS && years_compat_spec(a, b)
}

/// Whether a record returned by a DOI or arXiv lookup really is the local
/// work: the title similarity reaches the identifier-lookup floor and the
/// years are compatible.
pub fn is_valid_id_match(local: &Entry, remote: &Entry) -> (r: bool)
    ensures
        r == is_valid_id_match_spec(local@, remote@),
        r ==> title_sim_spec(local@, remote@) >= MIN_TITLE_SIM_FOR_ID_LOOKUP_BITS
            && years_compat_spec(local@, remote@),
{
    let title_sim = title_similarity(local, remote);
    let years_ok = years_compatible(local, remote);
    title_sim >= MIN_TITLE_SIM_FOR_ID_LOOKUP_BITS && years_ok
}

// ---------------------------------------------------------------------------
// Status assignment.
// ---------------------------------------------------------------------------

/// Whether any discrepancy of the list has the given severity.
pub open spec fn has_severity(ds: Seq<DiscrepancyModel>, sev: Severity) -> bool {
    exists|i: int| 0 <= i < ds.len() && ds[i].severity == sev
}

/// Whether any of the results carries a discrepancy of the given severity.
pub open spec fn any_result_severity(rs: Seq<ValidationResultModel>, sev: Severity) -> bool {
    exists|i: int| 0 <= i < rs.len() && has_severity(rs[i].discrepancies, sev)
}

/// The status the fused view alone assigns: `NotFound` without matches,
/// else the worst fused severity, else `Validated` by the first source.
pub open spec fn base_status(f: FusedResultModel) -> StatusModel {
    if !f.has_matches {
        StatusModel::NotFound
    } else if has_severity(f.discrepancies, Severity::Error) {
        StatusModel::Error
    } else if has_severity(f.discrepancies, Severity::Warning) {
        StatusModel::Warning
    } else {
        StatusModel::Validated(
            if f.sources.len() > 0 {
                f.sources[0]
            } else {
                ApiSource::CrossRef
            },
        )
    }
}

/// The final status: the fused status, downgraded when any individual
/// result carries issues the consensus suppressed, and `NotFound` promoted
/// to `Failed` when services errored.
pub open spec fn computed_status(
    f: FusedResultModel,
    rs: Seq<ValidationResultModel>,
    errs: Seq<Seq<char>>,
) -> StatusModel {
    let base = base_status(f);
    let down = if base is Validated {
        if any_result_severity(rs, Severity::Error) {
            StatusModel::Error
        } else if any_result_severity(rs, Severity::Warning) {
            StatusModel::Warning
        } else {
            base
        }
    } else {
        base
    };
    if down is NotFound && errs.len() > 0 {
        StatusModel::Failed(join_seq(errs, "; "@))
    } else {
        down
    }
}

/// Whether any discrepancy in the list has the given severity.
fn vec_has_severity(ds: &Vec<Discrepancy>, sev: Severity) -> (b: bool)
    ensures
        b == has_severity(ds.deep_view(), sev),
{
    let ghost dv = ds.deep_view();
    let n = ds.len();
    let mut i: usize = 0;
    proof {
        assert(dv.len() == ds@.len());
    }
    while i < n
        invariant
            i <= n,
            n == ds@.len(),
            dv == ds.deep_view(),
            dv.len() == n,
            forall|p: int| 0 <= p < i ==> (#[trigger] dv[p]).severity != sev,
        decreases n - i,
    {
        if ds[i].severity == sev {
            proof {
                assert(dv[i as int].severity == sev);
            }
            return true;
        }
        i += 1;
    }
    false
}

/// Whether any result in the list carries a discrepancy of the given
/// severity.
fn any_result_has_severity(rs: &Vec<ValidationResult>, sev: Severity) -> (b: bool)
    ensures
        b == any_result_severity(rs.deep_view(), sev),
{
    let ghost rv = rs.deep_view();
    let n = rs.len();
    let mut i: usize = 0;
    proof {
        assert(rv.len() == rs@.len());
    }
    while i < n
        invariant
            i <= n,
            n == rs@.len(),
            rv == rs.deep_view(),
            rv.len() == n,
            forall|p: int| 0 <= p < i ==> !has_severity((#[trigger] rv[p]).discrepancies, sev),
        decreases n - i,
    {
        if vec_has_severity(&rs[i].discrepancies, sev) {
            proof {
                assert(has_severity(rv[i as int].discrepancies, sev));
            }
            return true;
        }
        i += 1;
    }
    false
}

/// The status the fused view alone assigns.
pub fn determine_status(fused: &FusedResult) -> (r: EntryStatus)
    ensures
        r@ == base_status(fused@),
{
    if !fused.has_matches {
        return EntryStatus::NotFound;
    }
    if vec_has_severity(&fused.discrepancies, Severity::Error) {
        EntryStatus::Error
    } else if vec_has_severity(&fused.discrepancies, Severity::Warning) {
        EntryStatus::Warning
    } else {
        let source = if fused.sources.len() > 0 {
            fused.sources[0]
        } else {
            ApiSource::CrossRef
        };
        EntryStatus::Validated(source)
    }
}

/// Assigns the final status for one entry.
///
/// The downgrade step is monotonic: a fused `Error` stays an `Error` and a
/// fused `Warning` stays a `Warning`; only a fused `Validated` verdict can
/// be downgraded by issues an individual service reported.
pub fn compute_status(
    fused: &FusedResult,
    validation_results: &Vec<ValidationResult>,
    api_errors: &Vec<String>,
) -> (r: EntryStatus)
    ensures
        r@ == computed_status(fused@, validation_results.deep_view(), api_errors.deep_view()),
        base_status(fused@) is Error ==> r@ is Error,
        base_status(fused@) is Warning ==> r@ is Warning,
{
    let mut status = determine_status(fused);

    if matches!(status, EntryStatus::Validated(_)) {
        if any_result_has_severity(validation_results, Severity::Error) {
            status = EntryStatus::Error;
        } else if any_result_has_severity(validation_results, Severity::Warning) {
            status = EntryStatus::Warning;
        }
    }

    if matches!(status, EntryStatus::NotFound) && api_errors.len() > 0 {
        return EntryStatus::Failed(join_strings(api_errors, "; "));
    }

    status
}

// ---------------------------------------------------------------------------
// The per-entry lookup plan.
// ---------------------------------------------------------------------------

/// One remote lookup the strategy wants performed.
#[derive(Debug)]
pub enum Probe {
    /// Ask CrossRef for the work with this DOI.
    CrossrefDoi { doi: String },
    /// Ask the arXiv service for this identifier.
    ArxivId { id: String },
    /// Ask the Semantic Scholar service for this arXiv identifier.
    SemanticArxiv { id: String },
    /// Ask the given service to search for this title.
    TitleSearch { source: ApiSource, title: String },
}

/// Mathematical model of a [`Probe`].
#[verifier::ext_equal]
pub ghost enum ProbeModel {
    CrossrefDoi { doi: Seq<char> },
    ArxivId { id: Seq<char> },
    SemanticArxiv { id: Seq<char> },
    TitleSearch { source: ApiSource, title: Seq<char> },
}

impl View for Probe {
    type V = ProbeModel;

    open spec fn view(&self) -> ProbeModel {
        match self {
            Probe::CrossrefDoi { doi } => ProbeModel::CrossrefDoi { doi: doi@ },
            Probe::ArxivId { id } => ProbeModel::ArxivId { id: id@ },
            Probe::SemanticArxiv { id } => ProbeModel::SemanticArxiv { id: id@ },
            Probe::TitleSearch { source, title } => ProbeModel::TitleSearch {
                source: *source,
                title: title@,
            },
        }
    }
}

impl DeepView for Probe {
    type V = ProbeModel;

    open spec fn deep_view(&self) -> ProbeModel {
        self.view()
    }
}

/// The service a probe is addressed to.
pub open spec fn probe_source(p: ProbeModel) -> ApiSource {
    match p {
        ProbeModel::CrossrefDoi { .. } => ApiSource::CrossRef,
        ProbeModel::ArxivId { .. } => ApiSource::ArXiv,
        ProbeModel::SemanticArxiv { .. } => ApiSource::SemanticScholar,
        ProbeModel::TitleSearch { source, .. } => source,
    }
}

/// The identifier-based probes for an entry: the DOI to CrossRef, then the
/// arXiv identifier to the arXiv service and to Semantic Scholar, each
/// only when the entry has the identifier and the service is enabled.
pub open spec fn id_probes_spec(e: EntryModel, c: ValidatorConfig) -> Seq<ProbeModel> {
    (if e.doi is Some && c.use_crossref {
        seq![ProbeModel::CrossrefDoi { doi: e.doi->0 }]
    } else {
        Seq::empty()
    }) + (if e.arxiv_id is Some && c.use_arxiv {
        seq![ProbeModel::ArxivId { id: e.arxiv_id->0 }]
    } else {
        Seq::empty()
    }) + (if e.arxiv_id is Some && c.use_semantic {
        seq![ProbeModel::SemanticArxiv { id: e.arxiv_id->0 }]
    } else {
        Seq::empty()
    })
}

/// The identifier-based probes for an entry, in the order they are to be
/// performed.
pub fn id_probes(entry: &Entry, config: &ValidatorConfig) -> (r: Vec<Probe>)
    ensures
        r.deep_view() == id_probes_spec(entry@, *config),
{
    let mut probes: Vec<Probe> = Vec::new();
    if config.use_crossref {
        match &entry.doi {
            Some(doi) => {
                probes.push(Probe::CrossrefDoi { doi: doi.clone() });
            },
            None => {},
        }
    }
    if config.use_arxiv {
        match &entry.arxiv_id {
            Some(id) => {
                probes.push(Probe::ArxivId { id: id.clone() });
            },
            None => {},
        }
    }
    if config.use_semantic {
        match &entry.arxiv_id {
            Some(id) => {
                probes.push(Probe::SemanticArxiv { id: id.clone() });
            },
            None => {},
        }
    }
    proof {
        assert(probes.deep_view() =~= id_probes_spec(entry@, *config));
    }
    probes
}

/// The title-search probes for an entry: DBLP, Semantic Scholar, then
/// Zenodo, each only when enabled, and none when the entry has no title.
pub open spec fn title_probes_spec(e: EntryModel, c: ValidatorConfig) -> Seq<ProbeModel> {
    match e.title {
        Some(t) => (if c.use_dblp {
            seq![ProbeModel::TitleSearch { source: ApiSource::Dblp, title: t }]
        } else {
            Seq::empty()
        }) + (if c.use_semantic {
            seq![ProbeModel::TitleSearch { source: ApiSource::SemanticScholar, title: t }]
        } else {
            Seq::empty()
        }) + (if c.use_zenodo {
            seq![ProbeModel::TitleSearch { source: ApiSource::Zenodo, title: t }]
        } else {
            Seq::empty()
        }),
        None => Seq::empty(),
    }
}

/// The title-search probes for an entry, in the order they are to be
/// performed. They are meant to run only when no identifier-based probe
/// produced an accepted result.
pub fn title_probes(entry: &Entry, config: &ValidatorConfig) -> (r: Vec<Probe>)
    ensures
        r.deep_view() == title_probes_spec(entry@, *config),
{
    let mut probes: Vec<Probe> = Vec::new();
    match &entry.title {
        Some(t) => {
            if config.use_dblp {
                probes.push(Probe::TitleSearch { source: ApiSource::Dblp, title: t.clone() });
            }
            if config.use_semantic {
                probes.push(
                    Probe::TitleSearch { source: ApiSource::SemanticScholar, title: t.clone() },
                );
            }
            if config.use_zenodo {
                probes.push(Probe::TitleSearch { source: ApiSource::Zenodo, title: t.clone() });
            }
        },
        None => {},
    }
    proof {
        assert(probes.deep_view() =~= title_probes_spec(entry@, *config));
    }
    probes
}

/// Whether the strategy still wants a title search: only when nothing has
/// been accepted yet.
pub fn needs_title_search(results: &Vec<ValidationResult>) -> (r: bool)
    ensures
        r == (results@.len() == 0),
{
    results.len() == 0
}

// ---------------------------------------------------------------------------
// Judging probe outcomes.
// ---------------------------------------------------------------------------

/// The confidence attached to an accepted identifier-based match: a clean
/// CrossRef DOI match is certain, one with discrepancies slightly less so,
/// and arXiv-identifier matches carry fixed confidences.
pub open spec fn id_confidence_spec(p: ProbeModel, ds: Seq<DiscrepancyModel>) -> u64 {
    match p {
        ProbeModel::CrossrefDoi { .. } => if ds.len() == 0 {
            SIM_ONE_BITS
        } else {
            CONF_DOI_DISCREPANT_BITS
        },
        ProbeModel::ArxivId { .. } => CONF_ARXIV_BITS,
        ProbeModel::SemanticArxiv { .. } => CONF_SEMANTIC_ARXIV_BITS,
        ProbeModel::TitleSearch { .. } => 0u64,
    }
}

/// The words put in front of a failed title search's error.
pub open spec fn title_error_prefix(source: ApiSource) -> Seq<char> {
    match source {
        ApiSource::CrossRef => "CrossRef lookup failed: "@,
        ApiSource::Dblp => "DBLP lookup failed: "@,
        ApiSource::ArXiv => "ArXiv lookup failed: "@,
        ApiSource::SemanticScholar => "Semantic Scholar lookup failed: "@,
        ApiSource::Zenodo => "Zenodo lookup failed: "@,
    }
}

/// The words put in front of a failed identifier probe's error.
pub open spec fn probe_error_prefix(p: ProbeModel) -> Seq<char> {
    match p {
        ProbeModel::CrossrefDoi { .. } => "CrossRef DOI lookup failed: "@,
        ProbeModel::ArxivId { .. } => "ArXiv lookup failed: "@,
        ProbeModel::SemanticArxiv { .. } => "Semantic Scholar arXiv lookup failed: "@,
        ProbeModel::TitleSearch { source, .. } => title_error_prefix(source),
    }
}

/// The result recorded for an accepted identifier-based match.
pub open spec fn id_result_model(
    local: EntryModel,
    p: ProbeModel,
    e: EntryModel,
) -> ValidationResultModel {
    ValidationResultModel {
        source: probe_source(p),
        matched_entry: Some(e),
        confidence: id_confidence_spec(p, compare_spec(local, e)),
        discrepancies: compare_spec(local, e),
    }
}

/// Renders the words put in front of a failed probe's error.
fn probe_error_prefix_str(probe: &Probe) -> (r: &'static str)
    ensures
        r@ == probe_error_prefix(probe@),
{
    match probe {
        Probe::CrossrefDoi { .. } => "CrossRef DOI lookup failed: ",
        Probe::ArxivId { .. } => "ArXiv lookup failed: ",
        Probe::SemanticArxiv { .. } => "Semantic Scholar arXiv lookup failed: ",
        Probe::TitleSearch { source, .. } => match source {
            ApiSource::CrossRef => "CrossRef lookup failed: ",
            ApiSource::Dblp => "DBLP lookup failed: ",
            ApiSource::ArXiv => "ArXiv lookup failed: ",
            ApiSource::SemanticScholar => "Semantic Scholar lookup failed: ",
            ApiSource::Zenodo => "Zenodo lookup failed: ",
        },
    }
}

/// Judges what an identifier-based probe brought back.
///
/// A returned record is accepted only when it passes
/// [`is_valid_id_match`]; a rejected record is dropped silently, since a
/// wrong local identifier is the likelier explanation. A probe failure is
/// recorded as an error message and never aborts the entry's validation.
pub fn record_id_lookup(
    local: &Entry,
    probe: &Probe,
    outcome: Result<Option<Entry>, ValidatorError>,
    results: &mut Vec<ValidationResult>,
    errors: &mut Vec<String>,
)
    requires
        !(probe@ is TitleSearch),
    ensures
        (match outcome {
            Result::Ok(found) => match found {
                Some(e) => {
                    &&& final(errors).deep_view() == old(errors).deep_view()
                    &&& (is_valid_id_match_spec(local@, e@) ==> final(results).deep_view() == old(
                        results,
                    ).deep_view().push(id_result_model(local@, probe@, e@)))
                    &&& (!is_valid_id_match_spec(local@, e@) ==> final(results).deep_view() == old(
                        results,
                    ).deep_view())
                },
                None => final(results).deep_view() == old(results).deep_view()
                    && final(errors).deep_view() == old(errors).deep_view(),
            },
            Result::Err(er) => final(results).deep_view() == old(results).deep_view()
                && final(errors).deep_view() == old(errors).deep_view().push(
                probe_error_prefix(probe@) + error_message(er@),
            ),
        }),
{
    match outcome {
        Result::Ok(found) => match found {
            Some(e) => {
                if is_valid_id_match(local, &e) {
                    let discrepancies = compare_entries(local, &e);
                    let confidence: u64 = match probe {
                        Probe::CrossrefDoi { .. } => if discrepancies.len() == 0 {
                            SIM_ONE_BITS
                        } else {
                            CONF_DOI_DISCREPANT_BITS
                        },
                        Probe::ArxivId { .. } => CONF_ARXIV_BITS,
                        Probe::SemanticArxiv { .. } => CONF_SEMANTIC_ARXIV_BITS,
                        Probe::TitleSearch { .. } => 0,
                    };
                    let source = match probe {
                        Probe::CrossrefDoi { .. } => ApiSource::CrossRef,
                        Probe::ArxivId { .. } => ApiSource::ArXiv,
                        Probe::SemanticArxiv { .. } => ApiSource::SemanticScholar,
                        Probe::TitleSearch { source, .. } => *source,
                    };
                    let ghost em = e@;
                    let vr = ValidationResult {
                        source,
                        matched_entry: Some(e),
                        confidence,
                        discrepancies,
                    };
                    let ghost prev = results.deep_view();
                    let ghost vrm = vr@;
                    results.push(vr);
                    proof {
                        assert(results.deep_view() =~= prev.push(vrm));
                        assert(vrm =~= id_result_model(local@, probe@, em));
                    }
                }
            },
            None => {},
        },
        Result::Err(er) => {
            let mut msg = String::new();
            msg.append(probe_error_prefix_str(probe));
            msg.append(er.message().as_str());
            let ghost prev = errors.deep_view();
            let ghost msgv = msg@;
            errors.push(msg);
            proof {
                assert(errors.deep_view() =~= prev.push(msgv));
            }
        },
    }
}

/// The result recorded for an accepted title-search match.
pub open spec fn title_result_model(
    local: EntryModel,
    source: ApiSource,
    e: EntryModel,
) -> ValidationResultModel {
    ValidationResultModel {
        source,
        matched_entry: Some(e),
        confidence: title_sim_spec(local, e),
        discrepancies: compare_spec(local, e),
    }
}

/// Judges what a title search brought back: the best candidate at or above
/// the match threshold is recorded with the matcher's similarity as
/// confidence; when none qualifies, nothing is recorded. A probe failure
/// is recorded as an error message.
pub fn record_title_search(
    local: &Entry,
    source: ApiSource,
    outcome: Result<Vec<Entry>, ValidatorError>,
    results: &mut Vec<ValidationResult>,
    errors: &mut Vec<String>,
)
    ensures
        (match outcome {
            Result::Ok(candidates) => {
                &&& final(errors).deep_view() == old(errors).deep_view()
                &&& ({
                    let b = best_match_idx(local@, candidates.deep_view());
                    if b >= 0 {
                        final(results).deep_view() == old(results).deep_view().push(
                            title_result_model(local@, source, candidates.deep_view()[b]),
                        )
                    } else {
                        final(results).deep_view() == old(results).deep_view()
                    }
                })
            },
            Result::Err(er) => final(results).deep_view() == old(results).deep_view()
                && final(errors).deep_view() == old(errors).deep_view().push(
                title_error_prefix(source) + error_message(er@),
            ),
        }),
{
    match outcome {
        Result::Ok(candidates) => {
            match find_best_match(local, &candidates) {
                Some((matched, confidence)) => {
                    let discrepancies = compare_entries(local, matched);
                    let vr = ValidationResult {
                        source,
                        matched_entry: Some(matched.clone()),
                        confidence,
                        discrepancies,
                    };
                    let ghost prev = results.deep_view();
                    let ghost vrm = vr@;
                    results.push(vr);
                    proof {
                        let b = best_match_idx(local@, candidates.deep_view());
                        assert(results.deep_view() =~= prev.push(vrm));
                        assert(vrm =~= title_result_model(local@, source, candidates.deep_view()[b]));
                    }
                },
                None => {},
            }
        },
        Result::Err(er) => {
            let prefix: &'static str = match source {
                ApiSource::CrossRef => "CrossRef lookup failed: ",
                ApiSource::Dblp => "DBLP lookup failed: ",
                ApiSource::ArXiv => "ArXiv lookup failed: ",
                ApiSource::SemanticScholar => "Semantic Scholar lookup failed: ",
                ApiSource::Zenodo => "Zenodo lookup failed: ",
            };
            let mut msg = String::new();
            msg.append(prefix);
            msg.append(er.message().as_str());
            let ghost prev = errors.deep_view();
            let ghost msgv = msg@;
            errors.push(msg);
            proof {
                assert(errors.deep_view() =~= prev.push(msgv));
            }
        },
    }
}

// ---------------------------------------------------------------------------
// Assembling the verdict.
// ---------------------------------------------------------------------------

/// The synthetic result that carries the fused discrepancies in the
/// retained result list.
pub open spec fn synthetic_result(f: FusedResultModel) -> ValidationResultModel {
    ValidationResultModel {
        source: if f.sources.len() > 0 {
            f.sources[0]
        } else {
            ApiSource::CrossRef
        },
        matched_entry: None,
        confidence: SIM_ONE_BITS,
        discrepancies: f.discrepancies,
    }
}

/// The result list an entry's report retains: the raw results, plus the
/// synthetic fused result last when there were matches.
pub open spec fn report_results_model(
    rs: Seq<ValidationResultModel>,
    f: FusedResultModel,
) -> Seq<ValidationResultModel> {
    if f.has_matches {
        rs.push(synthetic_result(f))
    } else {
        rs
    }
}

/// Clones a result list; the copy models the same list.
fn clone_validation_results(v: &Vec<ValidationResult>) -> (r: Vec<ValidationResult>)
    ensures
        r.deep_view() == v.deep_view(),
{
    let mut r: Vec<ValidationResult> = Vec::new();
    let n = v.len();
    let mut i: usize = 0;
    while i < n
        invariant
            i <= n,
            n == v@.len(),
            r@.len() == i,
            forall|k: int| 0 <= k < i ==> r.deep_view()[k] == v.deep_view()[k],
        decreases n - i,
    {
        r.push(v[i].clone());
        i += 1;
    }
    proof {
        assert(r.deep_view() =~= v.deep_view());
    }
    r
}

/// Builds the verdict for one entry out of the accumulated results and
/// error messages: the results are fused, the fused discrepancies are
/// appended as a synthetic last result when there were matches, and the
/// status is assigned with the downgrade and failure-promotion rules.
pub fn assemble_report(local: &Entry, results: &Vec<ValidationResult>, errors: &Vec<String>) -> (r:
    EntryReport)
    ensures
        r@.entry == local@,
        r@.status == computed_status(
            fused_model(local@, results.deep_view()),
            results.deep_view(),
            errors.deep_view(),
        ),
        r@.validation_results == report_results_model(
            results.deep_view(),
            fused_model(local@, results.deep_view()),
        ),
{
    let fused = fuse_results(local, results);
    let mut report_results = clone_validation_results(results);
    if fused.has_matches {
        let source = if fused.sources.len() > 0 {
            fused.sources[0]
        } else {
            ApiSource::CrossRef
        };
        let synth = ValidationResult {
            source,
            matched_entry: None,
            confidence: SIM_ONE_BITS,
            discrepancies: clone_discrepancies(&fused.discrepancies),
        };
        let ghost prev = report_results.deep_view();
        let ghost sm = synth@;
        report_results.push(synth);
        proof {
            assert(report_results.deep_view() =~= prev.push(sm));
            assert(sm =~= synthetic_result(fused@));
        }
    }
    let status = compute_status(&fused, results, errors);
    let r = EntryReport { entry: local.clone(), status, validation_results: report_results };
    proof {
        assert(r@.validation_results =~= report_results_model(
            results.deep_view(),
            fused_model(local@, results.deep_view()),
        ));
    }
    r
}

} // verus!
