//! Configuration values parsed before anything else runs: the output
//! encoding, the field selection, and the plan for resolving the input.
//! All option parsing is case-insensitive and rejects unknown values with a
//! message naming them, before any catalog access takes place.

use vstd::prelude::*;
use vstd::string::StringExecFns;

use crate::text::str_eq;

verus! {

/// What `str::to_lowercase` returns for a given sequence of characters.
pub uninterp spec fn lower_of(s: Seq<char>) -> Seq<char>;

/// Relies on `str::to_lowercase`: the result depends on the characters of
/// the input alone.
#[verifier::external_body]
pub(crate) fn lowercase(s: &str) -> (r: String)
    ensures
        r@ == lower_of(s@),
{
    s.to_lowercase()
}

/// The encoding of each record on standard output.
#[derive(Clone, Copy, Debug, PartialEq, Eq, Structural)]
pub enum OutputFormat {
    Csv,
    QuotedCsv,
    Json,
}

/// The output format a lowercased option value denotes, if any.
pub open spec fn spec_output_format_of(t: Seq<char>) -> Option<OutputFormat> {
    if t == "csv"@ {
        Some(OutputFormat::Csv)
    } else if t == "quoted-csv"@ || t == "csv-quoted"@ {
        Some(OutputFormat::QuotedCsv)
    } else if t == "json"@ {
        Some(OutputFormat::Json)
    } else {
        None
    }
}

/// The message rejecting an unknown output format value.
pub open spec fn invalid_output_format_message(s: Seq<char>) -> Seq<char> {
    "'"@ + s + "' is not a valid output format"@
}

/// Decides the output format from an already lowercased option value.
pub fn output_format_from_lowered(t: &str) -> (r: Option<OutputFormat>)
    ensures
        r == spec_output_format_of(t@),
{
    if str_eq(t, "csv") {
        Some(OutputFormat::Csv)
    } else if str_eq(t, "quoted-csv") || str_eq(t, "csv-quoted") {
        Some(OutputFormat::QuotedCsv)
    } else if str_eq(t, "json") {
        Some(OutputFormat::Json)
    } else {
        None
    }
}

impl OutputFormat {
    /// Parses the output format option, case-insensitively: `csv`,
    /// `quoted-csv` (also accepted spelled `csv-quoted`) or `json`. Any
    /// other value is rejected, with a message naming it, before any
    /// catalog access happens.
    pub fn parse(s: &str) -> (r: Result<OutputFormat, String>)
        ensures
            match spec_output_format_of(lower_of(s@)) {
                Some(f) => r == Ok::<OutputFormat, String>(f),
                None => r matches Err(m) && m@ == invalid_output_format_message(s@),
            },
    {
        let low = lowercase(s);
        match output_format_from_lowered(low.as_str()) {
            Some(f) => Ok(f),
            None => {
                let mut m = "'".to_owned();
                m.append(s);
                m.append("' is not a valid output format");
                Err(m)
            },
        }
    }
}

/// Which of the five record attributes the caller asked for.
#[derive(Clone, Copy, Debug, PartialEq, Eq, Structural)]
pub struct FieldSelection {
    pub id: bool,
    pub url: bool,
    pub type_: bool,
    pub title: bool,
    pub description: bool,
}

/// The kind filter a catalog query can carry; movie queries filter for
/// movie listings, since the catalog indexes movies under their listing.
#[derive(Clone, Copy, Debug, PartialEq, Eq, Structural)]
pub enum CatalogQueryType {
    Series,
    Episode,
    MovieListing,
}

/// How an input string is to be resolved: a recognized content URL is
/// looked up directly (limit and filter ignored), anything else becomes a
/// catalog query.
#[derive(Clone, Copy, Debug, PartialEq, Eq, Structural)]
pub enum ResolvePlan {
    DirectLookup,
    CatalogQuery { limit: u32, result_type: Option<CatalogQueryType> },
}

} // verus!
