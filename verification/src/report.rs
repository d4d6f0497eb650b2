//! The per-entry verdicts and the report that collects them.

use vstd::prelude::*;
use vstd::string::StringExecFns;
use crate::entry::{ApiSource, Entry, EntryModel, ValidationResult, ValidationResultModel};

verus! {

/// The verdict for one entry.
#[derive(Debug, PartialEq, Eq)]
pub enum EntryStatus {
    /// Validated with no issues, by the given service.
    Validated(ApiSource),
    /// Has warnings but is likely correct.
    Warning,
    /// Has errors that need attention.
    Error,
    /// No service found an acceptable match.
    NotFound,
    /// Could not be validated because services failed.
    Failed(String),
}

/// Mathematical model of an [`EntryStatus`].
#[verifier::ext_equal]
pub ghost enum StatusModel {
    Validated(ApiSource),
    Warning,
    Error,
    NotFound,
    Failed(Seq<char>),
}

impl View for EntryStatus {
    type V = StatusModel;

    open spec fn view(&self) -> StatusModel {
        match self {
            EntryStatus::Validated(s) => StatusModel::Validated(*s),
            EntryStatus::Warning => StatusModel::Warning,
            EntryStatus::Error => StatusModel::Error,
            EntryStatus::NotFound => StatusModel::NotFound,
            EntryStatus::Failed(m) => StatusModel::Failed(m@),
        }
    }
}

impl Clone for EntryStatus {
    /// The copy models the same status.
    fn clone(&self) -> (r: Self)
        ensures
            r@ == self@,
    {
        match self {
            EntryStatus::Validated(s) => EntryStatus::Validated(*s),
            EntryStatus::Warning => EntryStatus::Warning,
            EntryStatus::Error => EntryStatus::Error,
            EntryStatus::NotFound => EntryStatus::NotFound,
            EntryStatus::Failed(m) => EntryStatus::Failed(m.clone()),
        }
    }
}

/// The full verdict for one entry: the entry itself, its status, and the
/// retained per-service results.
#[derive(Debug)]
pub struct EntryReport {
    pub entry: Entry,
    pub status: EntryStatus,
    pub validation_results: Vec<ValidationResult>,
}

/// Mathematical model of an [`EntryReport`].
#[verifier::ext_equal]
pub ghost struct EntryReportModel {
    pub entry: EntryModel,
    pub status: StatusModel,
    pub validation_results: Seq<ValidationResultModel>,
}

impl View for EntryReport {
    type V = EntryReportModel;

    open spec fn view(&self) -> EntryReportModel {
        EntryReportModel {
            entry: self.entry@,
            status: self.status@,
            validation_results: self.validation_results.deep_view(),
        }
    }
}

impl DeepView for EntryReport {
    type V = EntryReportModel;

    open spec fn deep_view(&self) -> EntryReportModel {
        self.view()
    }
}

/// The report for a whole bibliography: one verdict per entry, in the
/// order they were added.
#[derive(Debug)]
pub struct Report {
    pub entries: Vec<EntryReport>,
}

impl View for Report {
    type V = Seq<EntryReportModel>;

    open spec fn view(&self) -> Seq<EntryReportModel> {
        self.entries.deep_view()
    }
}

/// How many verdicts are `Validated`.
pub open spec fn count_ok_spec(rs: Seq<EntryReportModel>) -> nat
    decreases rs.len(),
{
    if rs.len() == 0 {
        0
    } else {
        count_ok_spec(rs.drop_last()) + (if rs.last().status is Validated {
            1nat
        } else {
            0nat
        })
    }
}

/// How many verdicts are `Warning`.
pub open spec fn count_warning_spec(rs: Seq<EntryReportModel>) -> nat
    decreases rs.len(),
{
    if rs.len() == 0 {
        0
    } else {
        count_warning_spec(rs.drop_last()) + (if rs.last().status is Warning {
            1nat
        } else {
            0nat
        })
    }
}

/// How many verdicts are `Error`.
pub open spec fn count_error_spec(rs: Seq<EntryReportModel>) -> nat
    decreases rs.len(),
{
    if rs.len() == 0 {
        0
    } else {
        count_error_spec(rs.drop_last()) + (if rs.last().status is Error {
            1nat
        } else {
            0nat
        })
    }
}

/// How many verdicts are `NotFound`.
pub open spec fn count_not_found_spec(rs: Seq<EntryReportModel>) -> nat
    decreases rs.len(),
{
    if rs.len() == 0 {
        0
    } else {
        count_not_found_spec(rs.drop_last()) + (if rs.last().status is NotFound {
            1nat
        } else {
            0nat
        })
    }
}

impl Report {
    /// An empty report.
    pub fn new() -> (r: Self)
        ensures
            r@.len() == 0,
    {
        let r = Report { entries: Vec::new() };
        proof {
            assert(r@ =~= Seq::<EntryReportModel>::empty());
        }
        r
    }

    /// Appends one entry's verdict.
    pub fn add(&mut self, report: EntryReport)
        ensures
            final(self)@ == old(self)@.push(report@),
    {
        let ghost prev = self@;
        self.entries.push(report);
        proof {
            assert(self@ =~= prev.push(self.entries@.last()@));
        }
    }

    /// How many entries validated with no issues.
    pub fn count_ok(&self) -> (c: usize)
        ensures
            c == count_ok_spec(self@),
    {
        let ghost ev = self@;
        let n = self.entries.len();
        let mut c: usize = 0;
        let mut i: usize = 0;
        proof {
            assert(ev.len() == self.entries@.len());
        }
        while i < n
            invariant
                i <= n,
                n == self.entries@.len(),
                ev == self@,
                ev.len() == n,
                c <= i,
                c == count_ok_spec(ev.take(i as int)),
            decreases n - i,
        {
            proof {
                let t = ev.take(i + 1 as int);
                assert(t.drop_last() =~= ev.take(i as int));
                assert(t.last() == ev[i as int]);
            }
            if matches!(self.entries[i].status, EntryStatus::Validated(_)) {
                c += 1;
            }
            i += 1;
        }
        proof {
            assert(ev.take(n as int) =~= ev);
        }
        c
    }

    /// How many entries carry warnings.
    pub fn count_warnings(&self) -> (c: usize)
        ensures
            c == count_warning_spec(self@),
    {
        let ghost ev = self@;
        let n = self.entries.len();
        let mut c: usize = 0;
        let mut i: usize = 0;
        proof {
            assert(ev.len() == self.entries@.len());
        }
        while i < n
            invariant
                i <= n,
                n == self.entries@.len(),
                ev == self@,
                ev.len() == n,
                c <= i,
                c == count_warning_spec(ev.take(i as int)),
            decreases n - i,
        {
            proof {
                let t = ev.take(i + 1 as int);
                assert(t.drop_last() =~= ev.take(i as int));
                assert(t.last() == ev[i as int]);
            }
            if matches!(self.entries[i].status, EntryStatus::Warning) {
                c += 1;
            }
            i += 1;
        }
        proof {
            assert(ev.take(n as int) =~= ev);
        }
        c
    }

    /// How many entries carry errors.
    pub fn count_errors(&self) -> (c: usize)
        ensures
            c == count_error_spec(self@),
    {
        let ghost ev = self@;
        let n = self.entries.len();
        let mut c: usize = 0;
        let mut i: usize = 0;
        proof {
            assert(ev.len() == self.entries@.len());
        }
        while i < n
            invariant
                i <= n,
                n == self.entries@.len(),
                ev == self@,
                ev.len() == n,
                c <= i,
                c == count_error_spec(ev.take(i as int)),
            decreases n - i,
        {
            proof {
                let t = ev.take(i + 1 as int);
                assert(t.drop_last() =~= ev.take(i as int));
                assert(t.last() == ev[i as int]);
            }
            if matches!(self.entries[i].status, EntryStatus::Error) {
                c += 1;
            }
            i += 1;
        }
        proof {
            assert(ev.take(n as int) =~= ev);
        }
        c
    }

    /// How many entries no service could match.
    pub fn count_not_found(&self) -> (c: usize)
        ensures
            c == count_not_found_spec(self@),
    {
        let ghost ev = self@;
        let n = self.entries.len();
        let mut c: usize = 0;
        let mut i: usize = 0;
        proof {
            assert(ev.len() == self.entries@.len());
        }
        while i < n
            invariant
                i <= n,
                n == self.entries@.len(),
                ev == self@,
                ev.len() == n,
                c <= i,
                c == count_not_found_spec(ev.take(i as int)),
            decreases n - i,
        {
            proof {
                let t = ev.take(i + 1 as int);
                assert(t.drop_last() =~= ev.take(i as int));
                assert(t.last() == ev[i as int]);
            }
            if matches!(self.entries[i].status, EntryStatus::NotFound) {
                c += 1;
            }
            i += 1;
        }
        proof {
            assert(ev.take(n as int) =~= ev);
        }
        c
    }
}

impl Default for Report {
    /// The default report is empty.
    fn default() -> (r: Self)
        ensures
            r@.len() == 0,
    {
        Report::new()
    }
}

/// Shortens a display string to at most `max_len` characters; a longer
/// string keeps its first `max_len - 3` characters and ends in `...`.
pub fn truncate(s: &str, max_len: usize) -> (r: String)
    requires
        max_len >= 3,
    ensures
        s@.len() <= max_len ==> r@ == s@,
        s@.len() > max_len ==> r@ == s@.take(max_len - 3) + "..."@,
{
    let n = s.unicode_len();
    if n <= max_len {
        s.to_owned()
    } else {
        let head = s.substring_char(0, max_len - 3);
        let mut r = head.to_owned();
        r.append("...");
        proof {
            assert(s@.subrange(0, max_len - 3) =~= s@.take(max_len - 3));
        }
        r
    }
}

} // verus!
