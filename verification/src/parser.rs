//! Identifier extraction helpers for bibliography records: recognizing
//! arXiv identifiers, pulling identifiers out of URLs, and finding a
//! publication year inside a date string.

use vstd::prelude::*;
use vstd::string::StringExecFns;
use crate::norm::{char_is_space, chars_to_string, is_space_char, str_to_chars};

verus! {

/// Why a bibliography file could not be parsed.
#[derive(Debug)]
pub enum ParseError {
    /// The file could not be read; the rendered cause is kept.
    IoError(String),
    /// The text is not well-formed BibTeX; the rendered cause is kept.
    ParseError(String),
}

/// Mathematical model of a [`ParseError`].
#[verifier::ext_equal]
pub ghost enum ParseErrorModel {
    IoError(Seq<char>),
    ParseError(Seq<char>),
}

impl View for ParseError {
    type V = ParseErrorModel;

    open spec fn view(&self) -> ParseErrorModel {
        match self {
            ParseError::IoError(m) => ParseErrorModel::IoError(m@),
            ParseError::ParseError(m) => ParseErrorModel::ParseError(m@),
        }
    }
}

/// The rendered description of a parse failure.
pub open spec fn parse_error_message(e: ParseErrorModel) -> Seq<char> {
    match e {
        ParseErrorModel::IoError(m) => "Failed to read file: "@ + m,
        ParseErrorModel::ParseError(m) => "Failed to parse BibTeX: "@ + m,
    }
}

impl ParseError {
    /// Renders the error for display.
    pub fn message(&self) -> (r: String)
        ensures
            r@ == parse_error_message(self@),
    {
        match self {
            ParseError::IoError(m) => {
                let mut s = String::new();
                s.append("Failed to read file: ");
                s.append(m.as_str());
                proof {
                    assert(s@ =~= parse_error_message(self@));
                }
                s
            },
            ParseError::ParseError(m) => {
                let mut s = String::new();
                s.append("Failed to parse BibTeX: ");
                s.append(m.as_str());
                proof {
                    assert(s@ =~= parse_error_message(self@));
                }
                s
            },
        }
    }
}

// ---------------------------------------------------------------------------
// Character and substring basics.
// ---------------------------------------------------------------------------

/// An ASCII decimal digit.
pub open spec fn is_digit(c: char) -> bool {
    48 <= (c as u32) && (c as u32) <= 57
}

/// The numeric value of an ASCII digit.
pub open spec fn digit_val(c: char) -> int {
    (c as u32) - 48
}

/// ASCII digit test.
pub fn char_is_digit(c: char) -> (r: bool)
    ensures
        r == is_digit(c),
{
    let u: u32 = c as u32;
    48 <= u && u <= 57
}

/// How often the character occurs in the sequence.
pub open spec fn count_char(s: Seq<char>, c: char) -> nat
    decreases s.len(),
{
    if s.len() == 0 {
        0
    } else {
        count_char(s.drop_last(), c) + (if s.last() == c {
            1nat
        } else {
            0nat
        })
    }
}

/// The first index at or after `k` where the character occurs, or `-1`.
pub open spec fn first_idx_from(s: Seq<char>, c: char, k: int) -> int
    decreases s.len() - k,
{
    if k < 0 || k >= s.len() {
        -1
    } else if s[k] == c {
        k
    } else {
        first_idx_from(s, c, k + 1)
    }
}

/// Whether every character in `[from, to)` is an ASCII digit.
pub open spec fn all_digits_range(s: Seq<char>, from: int, to: int) -> bool {
    forall|j: int| from <= j < to ==> is_digit(#[trigger] s[j])
}

/// Counts the occurrences of a character.
fn count_char_in(v: &Vec<char>, c: char) -> (r: usize)
    ensures
        r == count_char(v@, c),
{
    let n = v.len();
    let mut r: usize = 0;
    let mut i: usize = 0;
    while i < n
        invariant
            i <= n,
            n == v@.len(),
            r <= i,
            r == count_char(v@.take(i as int), c),
        decreases n - i,
    {
        proof {
            let t = v@.take(i + 1 as int);
            assert(t.drop_last() =~= v@.take(i as int));
            assert(t.last() == v@[i as int]);
        }
        if v[i] == c {
            r += 1;
        }
        i += 1;
    }
    proof {
        assert(v@.take(n as int) =~= v@);
    }
    r
}

/// Finds the first occurrence of a character at or after `from`.
fn find_char_from(v: &Vec<char>, c: char, from: usize) -> (r: Option<usize>)
    ensures
        (match r {
            Some(k) => first_idx_from(v@, c, from as int) == k && from <= k < v@.len(),
            None => first_idx_from(v@, c, from as int) == -1,
        }),
{
    let n = v.len();
    let mut i: usize = from;
    if i > n {
        return None;
    }
    while i < n
        invariant
            from <= i <= n,
            n == v@.len(),
            first_idx_from(v@, c, from as int) == first_idx_from(v@, c, i as int),
        decreases n - i,
    {
        if v[i] == c {
            return Some(i);
        }
        i += 1;
    }
    None
}

/// Whether every character in `[from, to)` is an ASCII digit.
fn check_all_digits(v: &Vec<char>, from: usize, to: usize) -> (r: bool)
    requires
        from <= to <= v@.len(),
    ensures
        r == all_digits_range(v@, from as int, to as int),
{
    let mut i: usize = from;
    while i < to
        invariant
            from <= i <= to,
            to <= v@.len(),
            forall|j: int| from <= j < i ==> is_digit(#[trigger] v@[j]),
        decreases to - i,
    {
        if !char_is_digit(v[i]) {
            return false;
        }
        i += 1;
    }
    true
}

/// The first index at or after `k` where the pattern starts, or `-1`.
pub open spec fn find_sub(s: Seq<char>, p: Seq<char>, k: int) -> int
    decreases s.len() - k + 1,
{
    if k < 0 || k + p.len() > s.len() {
        -1
    } else if s.subrange(k, k + p.len() as int) == p {
        k
    } else {
        find_sub(s, p, k + 1)
    }
}

/// Whether the pattern occurs anywhere in the sequence.
pub open spec fn contains_sub(s: Seq<char>, p: Seq<char>) -> bool {
    find_sub(s, p, 0) >= 0
}

/// Whether the pattern starts at `i`.
fn matches_at(v: &Vec<char>, p: &Vec<char>, i: usize) -> (r: bool)
    requires
        i + p@.len() <= v@.len(),
    ensures
        r == (v@.subrange(i as int, i + p@.len()) == p@),
{
    let m = p.len();
    let vn = v.len();
    let mut j: usize = 0;
    while j < m
        invariant
            j <= m,
            m == p@.len(),
            vn == v@.len(),
            i + m <= vn,
            forall|q: int| 0 <= q < j ==> v@[i + q] == p@[q],
        decreases m - j,
    {
        if v[i + j] != p[j] {
            proof {
                assert(v@.subrange(i as int, i + p@.len())[j as int] != p@[j as int]);
            }
            return false;
        }
        j += 1;
    }
    proof {
        assert(v@.subrange(i as int, i + p@.len()) =~= p@);
    }
    true
}

/// Finds the first occurrence of the pattern at or after `from`.
pub(crate) fn find_sub_in(v: &Vec<char>, p: &Vec<char>, from: usize) -> (r: Option<usize>)
    requires
        p@.len() >= 1,
    ensures
        (match r {
            Some(k) => find_sub(v@, p@, from as int) == k && k + p@.len() <= v@.len(),
            None => find_sub(v@, p@, from as int) == -1,
        }),
{
    let n = v.len();
    let m = p.len();
    if from > n || m > n || from > n - m {
        proof {
            assert(find_sub(v@, p@, from as int) == -1);
        }
        return None;
    }
    let mut i: usize = from;
    while i <= n - m
        invariant
            from <= i,
            i <= n - m + 1,
            1 <= m <= n,
            n == v@.len(),
            m == p@.len(),
            find_sub(v@, p@, from as int) == find_sub(v@, p@, i as int),
        decreases n - i,
    {
        if matches_at(v, p, i) {
            return Some(i);
        }
        i += 1;
    }
    proof {
        assert(find_sub(v@, p@, i as int) == -1);
    }
    None
}

// ---------------------------------------------------------------------------
// Trimming.
// ---------------------------------------------------------------------------

/// The sequence without its leading whitespace.
pub open spec fn trim_front(s: Seq<char>) -> Seq<char>
    decreases s.len(),
{
    if s.len() > 0 && is_space_char(s.first()) {
        trim_front(s.drop_first())
    } else {
        s
    }
}

/// The sequence without its trailing whitespace.
pub open spec fn trim_back(s: Seq<char>) -> Seq<char>
    decreases s.len(),
{
    if s.len() > 0 && is_space_char(s.last()) {
        trim_back(s.drop_last())
    } else {
        s
    }
}

/// The sequence without leading and trailing whitespace.
pub open spec fn trim_spec(s: Seq<char>) -> Seq<char> {
    trim_back(trim_front(s))
}

/// Trims leading and trailing whitespace from a character vector.
pub(crate) fn trim_chars(v: &Vec<char>) -> (r: Vec<char>)
    ensures
        r@ == trim_spec(v@),
{
    let n = v.len();
    let mut a: usize = 0;
    proof {
        assert(v@.skip(0) =~= v@);
    }
    while a < n && char_is_space(v[a])
        invariant
            a <= n,
            n == v@.len(),
            trim_front(v@) == trim_front(v@.skip(a as int)),
        decreases n - a,
    {
        proof {
            assert(v@.skip(a as int).len() > 0);
            assert(v@.skip(a as int).first() == v@[a as int]);
            assert(v@.skip(a as int).drop_first() =~= v@.skip(a + 1 as int));
        }
        a += 1;
    }
    proof {
        if a == n {
            assert(v@.skip(n as int) =~= Seq::<char>::empty());
        }
    }
    let ghost front = trim_front(v@);
    proof {
        assert(front == v@.skip(a as int));
    }
    let mut b: usize = n;
    proof {
        assert(v@.skip(a as int).take(n - a) =~= v@.skip(a as int));
    }
    while b > a && char_is_space(v[b - 1])
        invariant
            a <= b <= n,
            n == v@.len(),
            front == v@.skip(a as int),
            trim_back(front) == trim_back(v@.skip(a as int).take(b - a)),
        decreases b,
    {
        proof {
            let cur = v@.skip(a as int).take(b - a);
            assert(cur.len() == b - a);
            assert(cur.last() == v@[b - 1 as int]);
            assert(cur.drop_last() =~= v@.skip(a as int).take(b - 1 - a));
        }
        b -= 1;
    }
    proof {
        if b == a {
            assert(v@.skip(a as int).take(0) =~= Seq::<char>::empty());
        }
        assert(trim_back(front) == trim_back(v@.skip(a as int).take(b - a)));
        let cur = v@.skip(a as int).take(b - a);
        if b > a {
            assert(cur.len() > 0 && !is_space_char(cur.last()));
            assert(trim_back(cur) == cur);
        } else {
            assert(trim_back(cur) == cur);
        }
    }
    let mut r: Vec<char> = Vec::new();
    let mut i: usize = a;
    while i < b
        invariant
            a <= i <= b,
            b <= n,
            n == v@.len(),
            r@ == v@.skip(a as int).take(i - a),
        decreases b - i,
    {
        proof {
            let t = v@.skip(a as int).take(i + 1 - a);
            assert(t.drop_last() =~= v@.skip(a as int).take(i - a));
            assert(t.last() == v@[i as int]);
            assert(v@.skip(a as int).take(i - a).push(v@[i as int]) =~= t);
        }
        r.push(v[i]);
        i += 1;
    }
    proof {
        assert(r@ == v@.skip(a as int).take(b - a));
        assert(trim_spec(v@) == trim_back(front));
    }
    r
}

// ---------------------------------------------------------------------------
// The arXiv identifier recognizer.
// ---------------------------------------------------------------------------

/// The old arXiv form `category/NNNNNNN`: exactly one slash, everything
/// after it a digit.
pub open spec fn arxiv_old_format(t: Seq<char>) -> bool {
    count_char(t, '/') == 1 && all_digits_range(t, first_idx_from(t, '/', 0) + 1, t.len() as int)
}

/// The new arXiv form `NNNN.NNNNN[vN]`: exactly one dot, preceded by
/// exactly four digits, followed by digits up to an optional `v` suffix.
pub open spec fn arxiv_new_format(t: Seq<char>) -> bool {
    let dot = first_idx_from(t, '.', 0);
    let stop = first_idx_from(t, 'v', dot + 1);
    count_char(t, '.') == 1 && dot == 4 && all_digits_range(t, 0, 4) && all_digits_range(
        t,
        dot + 1,
        if stop >= 0 {
            stop
        } else {
            t.len() as int
        },
    )
}

/// Whether the string, once trimmed, is an arXiv identifier in the old
/// `category/NNNNNNN` or the new `NNNN.NNNNN[vN]` form.
pub open spec fn is_arxiv_id_spec(s: Seq<char>) -> bool {
    let t = trim_spec(s);
    if count_char(t, '/') > 0 {
        arxiv_old_format(t)
    } else {
        arxiv_new_format(t)
    }
}

/// Recognizes an arXiv identifier over a character vector.
fn is_arxiv_id_chars(v: &Vec<char>) -> (r: bool)
    ensures
        r == is_arxiv_id_spec(v@),
{
    let t = trim_chars(v);
    let slashes = count_char_in(&t, '/');
    if slashes > 0 {
        if slashes != 1 {
            return false;
        }
        let tn = t.len();
        match find_char_from(&t, '/', 0) {
            Some(i) => check_all_digits(&t, i + 1, tn),
            None => {
                proof {
                    assert(false) by {
                        assert(count_char(t@, '/') > 0);
                        lemma_count_char_first_idx(t@, '/');
                    }
                }
                false
            },
        }
    } else {
        let dots = count_char_in(&t, '.');
        if dots != 1 {
            return false;
        }
        match find_char_from(&t, '.', 0) {
            Some(dot) => {
                if dot != 4 {
                    return false;
                }
                if !check_all_digits(&t, 0, 4) {
                    return false;
                }
                let stop = match find_char_from(&t, 'v', dot + 1) {
                    Some(s) => s,
                    None => t.len(),
                };
                check_all_digits(&t, dot + 1, stop)
            },
            None => {
                proof {
                    assert(false) by {
                        assert(count_char(t@, '.') > 0);
                        lemma_count_char_first_idx(t@, '.');
                    }
                }
                false
            },
        }
    }
}

/// A character with a positive count occurs, so the first index exists.
proof fn lemma_count_char_first_idx(s: Seq<char>, c: char)
    requires
        count_char(s, c) > 0,
    ensures
        first_idx_from(s, c, 0) >= 0,
    decreases s.len(),
{
    lemma_count_char_occurs(s, c);
    let w = choose|w: int| 0 <= w < s.len() && s[w] == c;
    lemma_first_idx_finds(s, c, 0, w);
}

/// A positive count means some index holds the character.
proof fn lemma_count_char_occurs(s: Seq<char>, c: char)
    requires
        count_char(s, c) > 0,
    ensures
        exists|w: int| 0 <= w < s.len() && s[w] == c,
    decreases s.len(),
{
    if s.len() > 0 {
        if s.last() == c {
            assert(s[s.len() - 1] == c);
        } else {
            lemma_count_char_occurs(s.drop_last(), c);
            let w = choose|w: int| 0 <= w < s.drop_last().len() && s.drop_last()[w] == c;
            assert(s[w] == c);
        }
    }
}

/// If some index at or after `k` holds the character, the scan from `k`
/// succeeds.
proof fn lemma_first_idx_finds(s: Seq<char>, c: char, k: int, w: int)
    requires
        0 <= k <= w < s.len(),
        s[w] == c,
    ensures
        first_idx_from(s, c, k) >= 0,
    decreases w - k,
{
    if s[k] != c {
        lemma_first_idx_finds(s, c, k + 1, w);
    }
}

/// Recognizes an arXiv identifier: the old `category/NNNNNNN` form or the
/// new `NNNN.NNNNN[vN]` form, with surrounding whitespace ignored.
pub fn is_arxiv_id(s: &str) -> (r: bool)
    ensures
        r == is_arxiv_id_spec(s@),
{
    let v = str_to_chars(s);
    is_arxiv_id_chars(&v)
}

// ---------------------------------------------------------------------------
// Extraction from URLs.
// ---------------------------------------------------------------------------

/// Characters that may appear inside an arXiv identifier taken from a
/// URL: alphanumeric characters, `.`, `/` and `v`.
pub open spec fn id_char(c: char) -> bool {
    crate::norm::is_alnum(c) || c == '.' || c == '/' || c == 'v'
}

/// The first index at or after `k` whose character cannot appear in an
/// identifier, or the length.
pub open spec fn first_non_id_char_from(s: Seq<char>, k: int) -> int
    decreases s.len() - k,
{
    if k < 0 || k >= s.len() {
        s.len() as int
    } else if !id_char(s[k]) {
        k
    } else {
        first_non_id_char_from(s, k + 1)
    }
}

/// The sequence with every trailing `.pdf` removed.
pub open spec fn strip_pdf(t: Seq<char>) -> Seq<char>
    decreases t.len(),
{
    if t.len() >= 4 && t.subrange(t.len() - 4, t.len() as int) == ".pdf"@ {
        strip_pdf(t.take(t.len() - 4))
    } else {
        t
    }
}

/// What one pattern (`/abs/` or `/pdf/`) yields: the identifier-shaped
/// segment after its first occurrence, with trailing `.pdf` removed, if
/// that is an arXiv identifier.
pub open spec fn arxiv_pattern_try(s: Seq<char>, p: Seq<char>) -> Option<Seq<char>> {
    let i = find_sub(s, p, 0);
    if i < 0 {
        None
    } else {
        let start = i + p.len();
        let seg = s.subrange(start as int, first_non_id_char_from(s, start as int));
        let id = strip_pdf(seg);
        if is_arxiv_id_spec(id) {
            Some(id)
        } else {
            None
        }
    }
}

/// The arXiv identifier found in a URL: after `/abs/` or `/pdf/` on an
/// `arxiv.org` address, else nothing.
pub open spec fn arxiv_from_url_spec(s: Seq<char>) -> Option<Seq<char>> {
    if !contains_sub(s, "arxiv.org"@) {
        None
    } else {
        match arxiv_pattern_try(s, "/abs/"@) {
            Some(id) => Some(id),
            None => arxiv_pattern_try(s, "/pdf/"@),
        }
    }
}

/// Collects the characters of a literal pattern.
pub(crate) fn pattern_chars(p: &str) -> (v: Vec<char>)
    ensures
        v@ == p@,
{
    str_to_chars(p)
}

/// The identifier-shaped segment starting at `from`.
fn take_id_segment(v: &Vec<char>, from: usize) -> (r: Vec<char>)
    requires
        from <= v@.len(),
    ensures
        r@ == v@.subrange(from as int, first_non_id_char_from(v@, from as int)),
{
    let n = v.len();
    let mut i: usize = from;
    let mut r: Vec<char> = Vec::new();
    while i < n
        invariant
            from <= i <= n,
            n == v@.len(),
            r@ == v@.subrange(from as int, i as int),
            first_non_id_char_from(v@, from as int) == first_non_id_char_from(v@, i as int),
        decreases n - i,
    {
        let c = v[i];
        let keep = crate::norm::char_is_alnum(c) || c == '.' || c == '/' || c == 'v';
        if !keep {
            proof {
                assert(first_non_id_char_from(v@, i as int) == i as int);
            }
            return r;
        }
        r.push(c);
        proof {
            assert(v@.subrange(from as int, i as int).push(v@[i as int]) =~= v@.subrange(
                from as int,
                i + 1 as int,
            ));
        }
        i += 1;
    }
    proof {
        assert(first_non_id_char_from(v@, n as int) == n as int);
    }
    r
}

/// Extracts the arXiv identifier from a URL of the form
/// `arxiv.org/abs/<id>` or `arxiv.org/pdf/<id>[.pdf]`.
pub fn extract_arxiv_from_url(url: &str) -> (r: Option<String>)
    ensures
        (match r {
            Some(id) => arxiv_from_url_spec(url@) == Some(id@),
            None => arxiv_from_url_spec(url@) is None,
        }),
{
    let v = str_to_chars(url);
    let site = pattern_chars("arxiv.org");
    proof {
        reveal_strlit("arxiv.org");
        reveal_strlit("/abs/");
        reveal_strlit("/pdf/");
    }
    match find_sub_in(&v, &site, 0) {
        None => None,
        Some(_) => {
            let abs_pat = pattern_chars("/abs/");
            match try_pattern(&v, &abs_pat) {
                Some(id) => Some(id),
                None => {
                    let pdf_pat = pattern_chars("/pdf/");
                    match try_pattern(&v, &pdf_pat) {
                        Some(id) => Some(id),
                        None => None,
                    }
                },
            }
        },
    }
}

/// Tries one pattern against the URL characters.
fn try_pattern(v: &Vec<char>, p: &Vec<char>) -> (r: Option<String>)
    requires
        p@.len() >= 1,
    ensures
        (match r {
            Some(id) => arxiv_pattern_try(v@, p@) == Some(id@),
            None => arxiv_pattern_try(v@, p@) is None,
        }),
{
    let vn = v.len();
    match find_sub_in(v, p, 0) {
        Some(i) => {
            let start = i + p.len();
            let seg = take_id_segment(v, start);
            let ghost seg0 = seg@;
            let mut id = seg;
            loop
                invariant_except_break
                    strip_pdf(id@) == strip_pdf(seg0),
                ensures
                    id@ == strip_pdf(seg0),
                decreases id@.len(),
            {
                let m = id.len();
                let has_suffix = m >= 4 && id[m - 4] == '.' && id[m - 3] == 'p' && id[m - 2] == 'd'
                    && id[m - 1] == 'f';
                if has_suffix {
                    proof {
                        reveal_strlit(".pdf");
                        assert(id@.subrange(m - 4 as int, m as int) =~= ".pdf"@);
                    }
                    let ghost pre = id@;
                    id.truncate(m - 4);
                    proof {
                        assert(id@ == pre.take(m - 4 as int));
                        assert(strip_pdf(pre) == strip_pdf(pre.take(pre.len() - 4)));
                    }
                } else {
                    proof {
                        reveal_strlit(".pdf");
                        if id@.len() >= 4 && id@.subrange(id@.len() - 4, id@.len() as int)
                            == ".pdf"@ {
                            assert(id@[id@.len() - 4] == ".pdf"@[0]);
                            assert(id@[id@.len() - 3] == ".pdf"@[1]);
                            assert(id@[id@.len() - 2] == ".pdf"@[2]);
                            assert(id@[id@.len() - 1] == ".pdf"@[3]);
                            assert(false);
                        }
                        assert(strip_pdf(id@) == id@);
                    }
                    break ;
                }
            }
            if is_arxiv_id_chars(&id) {
                Some(chars_to_string(&id))
            } else {
                None
            }
        },
        None => None,
    }
}

// ---------------------------------------------------------------------------
// DOI extraction.
// ---------------------------------------------------------------------------

/// The DOI found in a URL: everything after the first `doi.org/`, if it
/// starts with `10.`.
pub open spec fn doi_from_url_spec(s: Seq<char>) -> Option<Seq<char>> {
    let i = find_sub(s, "doi.org/"@, 0);
    if i < 0 {
        None
    } else {
        let d = s.skip(i + 8);
        if d.len() >= 3 && d.take(3) == "10."@ {
            Some(d)
        } else {
            None
        }
    }
}

/// Extracts the DOI from a URL of the form `doi.org/<doi>` where the DOI
/// starts with `10.`.
pub fn extract_doi_from_url(url: &str) -> (r: Option<String>)
    ensures
        (match r {
            Some(d) => doi_from_url_spec(url@) == Some(d@),
            None => doi_from_url_spec(url@) is None,
        }),
{
    let v = str_to_chars(url);
    let pat = pattern_chars("doi.org/");
    proof {
        reveal_strlit("doi.org/");
        assert(pat@.len() == 8);
    }
    let n = v.len();
    match find_sub_in(&v, &pat, 0) {
        Some(i) => {
            let start = i + 8;
            let mut d: Vec<char> = Vec::new();
            let mut k: usize = start;
            while k < n
                invariant
                    start <= k <= n,
                    n == v@.len(),
                    start == i + 8,
                    d@ == v@.subrange(start as int, k as int),
                decreases n - k,
            {
                proof {
                    assert(v@.subrange(start as int, k as int).push(v@[k as int]) =~= v@.subrange(
                        start as int,
                        k + 1 as int,
                    ));
                }
                d.push(v[k]);
                k += 1;
            }
            proof {
                assert(d@ =~= v@.skip(start as int));
            }
            if d.len() >= 3 && d[0] == '1' && d[1] == '0' && d[2] == '.' {
                proof {
                    reveal_strlit("10.");
                    assert(d@.take(3) =~= "10."@);
                }
                Some(chars_to_string(&d))
            } else {
                proof {
                    reveal_strlit("10.");
                    if d@.len() >= 3 && d@.take(3) == "10."@ {
                        assert(d@.take(3)[0] == d@[0]);
                        assert(d@.take(3)[1] == d@[1]);
                        assert(d@.take(3)[2] == d@[2]);
                        assert(false);
                    }
                }
                None
            }
        },
        None => None,
    }
}

// ---------------------------------------------------------------------------
// The year extractor.
// ---------------------------------------------------------------------------

/// Whether a maximal run of exactly four digits starts at `k` and spells
/// a year in `[1900, 2099]`.
pub open spec fn year_run_at(s: Seq<char>, k: int) -> bool {
    &&& 0 <= k
    &&& k + 4 <= s.len()
    &&& all_digits_range(s, k, k + 4)
    &&& (k == 0 || !is_digit(s[k - 1]))
    &&& (k + 4 == s.len() || !is_digit(s[k + 4]))
    &&& 1900 <= run_value(s, k) <= 2099
}

/// The number spelled by the four digits starting at `k`.
pub open spec fn run_value(s: Seq<char>, k: int) -> int {
    1000 * digit_val(s[k]) + 100 * digit_val(s[k + 1]) + 10 * digit_val(s[k + 2]) + digit_val(
        s[k + 3],
    )
}

/// The first position where a four-digit year run starts, or `-1`.
pub open spec fn first_year_idx(s: Seq<char>, k: int) -> int
    decreases s.len() - k,
{
    if k < 0 || k + 4 > s.len() {
        -1
    } else if year_run_at(s, k) {
        k
    } else {
        first_year_idx(s, k + 1)
    }
}

/// The first run of exactly four consecutive digits that spells a year in
/// `[1900, 2099]`, or nothing.
pub open spec fn year_from_string_spec(s: Seq<char>) -> Option<i32> {
    let f = first_year_idx(s, 0);
    if f >= 0 {
        Some(run_value(s, f) as i32)
    } else {
        None
    }
}

/// Finds the first run of exactly four consecutive digits that spells a
/// year between 1900 and 2099.
pub fn extract_year_from_string(s: &str) -> (r: Option<i32>)
    ensures
        r == year_from_string_spec(s@),
{
    let v = str_to_chars(s);
    let n = v.len();
    if n < 4 {
        proof {
            assert(first_year_idx(v@, 0) == -1);
        }
        return None;
    }
    let mut k: usize = 0;
    while k <= n - 4
        invariant
            k <= n - 3,
            n == v@.len(),
            v@ == s@,
            n >= 4,
            first_year_idx(v@, 0) == first_year_idx(v@, k as int),
        decreases n - k,
    {
        let run_ok = char_is_digit(v[k]) && char_is_digit(v[k + 1]) && char_is_digit(v[k + 2])
            && char_is_digit(v[k + 3]) && (k == 0 || !char_is_digit(v[k - 1])) && (k + 4 == n
            || !char_is_digit(v[k + 4]));
        if run_ok {
            let d0: u32 = (v[k] as u32) - 48;
            let d1: u32 = (v[k + 1] as u32) - 48;
            let d2: u32 = (v[k + 2] as u32) - 48;
            let d3: u32 = (v[k + 3] as u32) - 48;
            let val: u32 = 1000 * d0 + 100 * d1 + 10 * d2 + d3;
            if 1900 <= val && val <= 2099 {
                proof {
                    assert(year_run_at(v@, k as int));
                    assert(first_year_idx(v@, k as int) == k as int);
                }
                return Some(val as i32);
            }
            proof {
                assert(!year_run_at(v@, k as int));
            }
        } else {
            proof {
                assert(!year_run_at(v@, k as int));
            }
        }
        k += 1;
    }
    proof {
        assert(first_year_idx(v@, k as int) == -1);
    }
    None
}

} // verus!
