//! Mapping of the remote services' wire records into [`Entry`] values, and
//! the error classification every service lookup shares.
//!
//! The services' HTTP traffic and payload decoding live outside the
//! library; what arrives here are plain records already split into fields.

pub mod arxiv;
pub mod crossref;
pub mod dblp;
pub mod semantic;
pub mod zenodo;

use vstd::prelude::*;
use vstd::string::StringExecFns;

verus! {

/// Why a service lookup failed.
#[derive(Debug)]
pub enum ValidatorError {
    /// The HTTP request itself failed; the rendered cause is kept.
    RequestError(String),
    /// The response arrived but could not be understood.
    ParseError(String),
    /// The service asked us to slow down.
    RateLimited,
    /// The service reported no results.
    NotFound,
}

/// Mathematical model of a [`ValidatorError`].
#[verifier::ext_equal]
pub ghost enum ValidatorErrorModel {
    RequestError(Seq<char>),
    ParseError(Seq<char>),
    RateLimited,
    NotFound,
}

impl View for ValidatorError {
    type V = ValidatorErrorModel;

    open spec fn view(&self) -> ValidatorErrorModel {
        match self {
            ValidatorError::RequestError(m) => ValidatorErrorModel::RequestError(m@),
            ValidatorError::ParseError(m) => ValidatorErrorModel::ParseError(m@),
            ValidatorError::RateLimited => ValidatorErrorModel::RateLimited,
            ValidatorError::NotFound => ValidatorErrorModel::NotFound,
        }
    }
}

impl Clone for ValidatorError {
    /// The copy models the same error.
    fn clone(&self) -> (r: Self)
        ensures
            r@ == self@,
    {
        match self {
            ValidatorError::RequestError(m) => ValidatorError::RequestError(m.clone()),
            ValidatorError::ParseError(m) => ValidatorError::ParseError(m.clone()),
            ValidatorError::RateLimited => ValidatorError::RateLimited,
            ValidatorError::NotFound => ValidatorError::NotFound,
        }
    }
}

/// The rendered description of a lookup failure.
pub open spec fn error_message(e: ValidatorErrorModel) -> Seq<char> {
    match e {
        ValidatorErrorModel::RequestError(m) => "HTTP request failed: "@ + m,
        ValidatorErrorModel::ParseError(m) => "Failed to parse response: "@ + m,
        ValidatorErrorModel::RateLimited => "Rate limited, try again later"@,
        ValidatorErrorModel::NotFound => "No results found"@,
    }
}

impl ValidatorError {
    /// Renders the error for display.
    pub fn message(&self) -> (r: String)
        ensures
            r@ == error_message(self@),
    {
        match self {
            ValidatorError::RequestError(m) => {
                let mut s = String::new();
                s.append("HTTP request failed: ");
                s.append(m.as_str());
                proof {
                    assert(s@ =~= error_message(self@));
                }
                s
            },
            ValidatorError::ParseError(m) => {
                let mut s = String::new();
                s.append("Failed to parse response: ");
                s.append(m.as_str());
                proof {
                    assert(s@ =~= error_message(self@));
                }
                s
            },
            ValidatorError::RateLimited => {
                let mut s = String::new();
                s.append("Rate limited, try again later");
                proof {
                    assert(s@ =~= error_message(self@));
                }
                s
            },
            ValidatorError::NotFound => {
                let mut s = String::new();
                s.append("No results found");
                proof {
                    assert(s@ =~= error_message(self@));
                }
                s
            },
        }
    }
}

/// The year a provider's date string yields: its leading four digits, as
/// a number, when the string starts with at least four digits.
pub open spec fn year_from_date_spec(s: Seq<char>) -> Option<i32> {
    if s.len() >= 4 && crate::parser::all_digits_range(s, 0, 4) {
        Some(
            (1000 * crate::parser::digit_val(s[0]) + 100 * crate::parser::digit_val(s[1]) + 10
                * crate::parser::digit_val(s[2]) + crate::parser::digit_val(s[3])) as i32,
        )
    } else {
        None
    }
}

/// Extracts the year from a provider's date string: its leading four
/// digits, as in `2023-01-15T00:00:00Z`.
pub fn year_from_date(s: &str) -> (r: Option<i32>)
    ensures
        r == year_from_date_spec(s@),
{
    let v = crate::norm::str_to_chars(s);
    if v.len() < 4 {
        return None;
    }
    let ok = crate::parser::char_is_digit(v[0]) && crate::parser::char_is_digit(v[1])
        && crate::parser::char_is_digit(v[2]) && crate::parser::char_is_digit(v[3]);
    if !ok {
        return None;
    }
    let d0: u32 = (v[0] as u32) - 48;
    let d1: u32 = (v[1] as u32) - 48;
    let d2: u32 = (v[2] as u32) - 48;
    let d3: u32 = (v[3] as u32) - 48;
    let val: u32 = 1000 * d0 + 100 * d1 + 10 * d2 + d3;
    Some(val as i32)
}

} // verus!
