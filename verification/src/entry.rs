//! The canonical in-memory record for one bibliography entry, together with
//! the types that describe what a remote lookup reported about it.

use vstd::prelude::*;

verus! {

/// A bibliography record, used both for local entries and for entries
/// returned by remote services.
#[derive(Debug)]
pub struct Entry {
    /// Citation key from the bibliography file, or a provider-minted key.
    pub key: String,
    /// Entry type tag (`article`, `inproceedings`, `book`, ...).
    pub entry_type: String,
    /// Work title.
    pub title: Option<String>,
    /// Ordered author display names.
    pub authors: Vec<String>,
    /// Publication year.
    pub year: Option<i32>,
    /// Journal or conference venue.
    pub venue: Option<String>,
    /// DOI identifier.
    pub doi: Option<String>,
    /// arXiv identifier, e.g. `2301.12345`.
    pub arxiv_id: Option<String>,
    /// URL.
    pub url: Option<String>,
}

/// Mathematical model of an [`Entry`]: every string as a sequence of
/// characters.
#[verifier::ext_equal]
pub ghost struct EntryModel {
    pub key: Seq<char>,
    pub entry_type: Seq<char>,
    pub title: Option<Seq<char>>,
    pub authors: Seq<Seq<char>>,
    pub year: Option<i32>,
    pub venue: Option<Seq<char>>,
    pub doi: Option<Seq<char>>,
    pub arxiv_id: Option<Seq<char>>,
    pub url: Option<Seq<char>>,
}

/// The model of an optional string.
pub open spec fn opt_view(o: Option<String>) -> Option<Seq<char>> {
    match o {
        Some(s) => Some(s@),
        None => None,
    }
}

impl View for Entry {
    type V = EntryModel;

    open spec fn view(&self) -> EntryModel {
        EntryModel {
            key: self.key@,
            entry_type: self.entry_type@,
            title: opt_view(self.title),
            authors: self.authors.deep_view(),
            year: self.year,
            venue: opt_view(self.venue),
            doi: opt_view(self.doi),
            arxiv_id: opt_view(self.arxiv_id),
            url: opt_view(self.url),
        }
    }
}

impl DeepView for Entry {
    type V = EntryModel;

    open spec fn deep_view(&self) -> EntryModel {
        self.view()
    }
}

/// Clones an optional string; the copy has the same characters.
pub fn clone_opt_string(o: &Option<String>) -> (r: Option<String>)
    ensures
        opt_view(r) == opt_view(*o),
{
    match o {
        Some(s) => Some(s.clone()),
        None => None,
    }
}

/// Clones a list of strings; the copy has the same characters, in order.
pub fn clone_string_vec(v: &Vec<String>) -> (r: Vec<String>)
    ensures
        r.deep_view() == v.deep_view(),
        r@.len() == v@.len(),
{
    let mut r: Vec<String> = Vec::new();
    let n = v.len();
    let mut i: usize = 0;
    while i < n
        invariant
            i <= n,
            n == v@.len(),
            r@.len() == i,
            forall|k: int| 0 <= k < i ==> r.deep_view()[k] == v.deep_view()[k],
        decreases n - i,
    {
        r.push(v[i].clone());
        i += 1;
    }
    assert(r.deep_view() =~= v.deep_view());
    r
}

impl Clone for Entry {
    /// The copy models the same record.
    fn clone(&self) -> (r: Self)
        ensures
            r@ == self@,
    {
        let r = Entry {
            key: self.key.clone(),
            entry_type: self.entry_type.clone(),
            title: clone_opt_string(&self.title),
            authors: clone_string_vec(&self.authors),
            year: self.year,
            venue: clone_opt_string(&self.venue),
            doi: clone_opt_string(&self.doi),
            arxiv_id: clone_opt_string(&self.arxiv_id),
            url: clone_opt_string(&self.url),
        };
        assert(r@ == self@);
        r
    }
}

impl Entry {
    /// A fresh record with the given key and type and every other field empty.
    pub fn new(key: String, entry_type: String) -> (r: Self)
        ensures
            r@.key == key@,
            r@.entry_type == entry_type@,
            r@.title is None,
            r@.authors.len() == 0,
            r@.year is None,
            r@.venue is None,
            r@.doi is None,
            r@.arxiv_id is None,
            r@.url is None,
    {
        let r = Entry {
            key,
            entry_type,
            title: None,
            authors: Vec::new(),
            year: None,
            venue: None,
            doi: None,
            arxiv_id: None,
            url: None,
        };
        assert(r@.authors =~= Seq::<Seq<char>>::empty());
        r
    }
}

/// The remote services a record can be validated against.
#[derive(Debug, Clone, Copy, PartialEq, Eq, Structural)]
pub enum ApiSource {
    CrossRef,
    Dblp,
    ArXiv,
    SemanticScholar,
    Zenodo,
}

impl ApiSource {
    /// Display name of the service.
    pub open spec fn name_spec(self) -> Seq<char> {
        match self {
            ApiSource::CrossRef => "CrossRef"@,
            ApiSource::Dblp => "DBLP"@,
            ApiSource::ArXiv => "ArXiv"@,
            ApiSource::SemanticScholar => "Semantic Scholar"@,
            ApiSource::Zenodo => "Zenodo"@,
        }
    }

    /// Display name of the service.
    pub fn name(&self) -> (r: &'static str)
        ensures
            r@ == self.name_spec(),
    {
        match self {
            ApiSource::CrossRef => "CrossRef",
            ApiSource::Dblp => "DBLP",
            ApiSource::ArXiv => "ArXiv",
            ApiSource::SemanticScholar => "Semantic Scholar",
            ApiSource::Zenodo => "Zenodo",
        }
    }
}

/// Which field of the record a discrepancy is about.
#[derive(Debug, Clone, Copy, PartialEq, Eq, Structural)]
pub enum DiscrepancyField {
    Title,
    Authors,
    Year,
    Venue,
    Doi,
}

impl DiscrepancyField {
    /// Display name of the field.
    pub open spec fn label_spec(self) -> Seq<char> {
        match self {
            DiscrepancyField::Title => "Title"@,
            DiscrepancyField::Authors => "Authors"@,
            DiscrepancyField::Year => "Year"@,
            DiscrepancyField::Venue => "Venue"@,
            DiscrepancyField::Doi => "DOI"@,
        }
    }

    /// Display name of the field.
    pub fn label(&self) -> (r: &'static str)
        ensures
            r@ == self.label_spec(),
    {
        match self {
            DiscrepancyField::Title => "Title",
            DiscrepancyField::Authors => "Authors",
            DiscrepancyField::Year => "Year",
            DiscrepancyField::Venue => "Venue",
            DiscrepancyField::Doi => "DOI",
        }
    }
}

/// Severity of a reported discrepancy, ordered `Info < Warning < Error`.
#[derive(Debug, Clone, Copy, PartialEq, Eq, PartialOrd, Ord, Structural)]
pub enum Severity {
    Info,
    Warning,
    Error,
}

impl Severity {
    /// Position of this severity in the `Info < Warning < Error` order.
    pub open spec fn rank(self) -> int {
        match self {
            Severity::Info => 0,
            Severity::Warning => 1,
            Severity::Error => 2,
        }
    }

    /// Display name of the severity.
    pub open spec fn label_spec(self) -> Seq<char> {
        match self {
            Severity::Info => "INFO"@,
            Severity::Warning => "WARNING"@,
            Severity::Error => "ERROR"@,
        }
    }

    /// Display name of the severity.
    pub fn label(&self) -> (r: &'static str)
        ensures
            r@ == self.label_spec(),
    {
        match self {
            Severity::Info => "INFO",
            Severity::Warning => "WARNING",
            Severity::Error => "ERROR",
        }
    }
}

/// One typed difference between the local record and a remote one.
#[derive(Debug)]
pub struct Discrepancy {
    pub field: DiscrepancyField,
    pub severity: Severity,
    pub local_value: String,
    pub remote_value: String,
    pub message: String,
}

/// Mathematical model of a [`Discrepancy`].
#[verifier::ext_equal]
pub ghost struct DiscrepancyModel {
    pub field: DiscrepancyField,
    pub severity: Severity,
    pub local_value: Seq<char>,
    pub remote_value: Seq<char>,
    pub message: Seq<char>,
}

impl View for Discrepancy {
    type V = DiscrepancyModel;

    open spec fn view(&self) -> DiscrepancyModel {
        DiscrepancyModel {
            field: self.field,
            severity: self.severity,
            local_value: self.local_value@,
            remote_value: self.remote_value@,
            message: self.message@,
        }
    }
}

impl DeepView for Discrepancy {
    type V = DiscrepancyModel;

    open spec fn deep_view(&self) -> DiscrepancyModel {
        self.view()
    }
}

impl Clone for Discrepancy {
    /// The copy models the same discrepancy.
    fn clone(&self) -> (r: Self)
        ensures
            r@ == self@,
    {
        Discrepancy {
            field: self.field,
            severity: self.severity,
            local_value: self.local_value.clone(),
            remote_value: self.remote_value.clone(),
            message: self.message.clone(),
        }
    }
}

/// Clones a list of discrepancies; the copy models the same list.
pub fn clone_discrepancies(v: &Vec<Discrepancy>) -> (r: Vec<Discrepancy>)
    ensures
        r.deep_view() == v.deep_view(),
        r@.len() == v@.len(),
{
    let mut r: Vec<Discrepancy> = Vec::new();
    let n = v.len();
    let mut i: usize = 0;
    while i < n
        invariant
            i <= n,
            n == v@.len(),
            r@.len() == i,
            forall|k: int| 0 <= k < i ==> r.deep_view()[k] == v.deep_view()[k],
        decreases n - i,
    {
        r.push(v[i].clone());
        i += 1;
    }
    assert(r.deep_view() =~= v.deep_view());
    r
}

/// What one remote service reported for one local entry.
///
/// `confidence` carries the IEEE-754 bit pattern of a double in `[0, 1]`;
/// for such doubles the unsigned order of the bit patterns is exactly the
/// numeric order, so thresholds compare the same way they would on the
/// underlying number.
#[derive(Debug)]
pub struct ValidationResult {
    /// Which service this result came from.
    pub source: ApiSource,
    /// The matched remote record, absent when the lookup found no
    /// acceptable match.
    pub matched_entry: Option<Entry>,
    /// Confidence in `[0, 1]`, as the bit pattern of a double.
    pub confidence: u64,
    /// Differences found between the local and the matched record.
    pub discrepancies: Vec<Discrepancy>,
}

/// Mathematical model of a [`ValidationResult`].
#[verifier::ext_equal]
pub ghost struct ValidationResultModel {
    pub source: ApiSource,
    pub matched_entry: Option<EntryModel>,
    pub confidence: u64,
    pub discrepancies: Seq<DiscrepancyModel>,
}

impl View for ValidationResult {
    type V = ValidationResultModel;

    open spec fn view(&self) -> ValidationResultModel {
        ValidationResultModel {
            source: self.source,
            matched_entry: match self.matched_entry {
                Some(e) => Some(e@),
                None => None,
            },
            confidence: self.confidence,
            discrepancies: self.discrepancies.deep_view(),
        }
    }
}

impl DeepView for ValidationResult {
    type V = ValidationResultModel;

    open spec fn deep_view(&self) -> ValidationResultModel {
        self.view()
    }
}

impl Clone for ValidationResult {
    /// The copy models the same result.
    fn clone(&self) -> (r: Self)
        ensures
            r@ == self@,
    {
        ValidationResult {
            source: self.source,
            matched_entry: match &self.matched_entry {
                Some(e) => Some(e.clone()),
                None => None,
            },
            confidence: self.confidence,
            discrepancies: clone_discrepancies(&self.discrepancies),
        }
    }
}

} // verus!
