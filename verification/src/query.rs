//! The `query` command: looks a free-text query or a direct content URL up
//! in the catalog and emits one formatted line per result.

use vstd::prelude::*;
use vstd::string::StringExecFns;

use crate::media::MediaEntity;
use crate::media::Warning;
use crate::options::CatalogQueryType;
use crate::options::FieldSelection;
use crate::options::OutputFormat;
use crate::options::ResolvePlan;
use crate::options::lower_of;
use crate::options::lowercase;
use crate::pipeline::format_records;
use crate::pipeline::spec_format_results;
use crate::flatten::spec_warnings;
use crate::text::str_eq;

verus! {

/// The kind of results a query may be restricted to.
#[derive(Clone, Copy, Debug, PartialEq, Eq, Structural)]
pub enum QueryType {
    Series,
    Episode,
    Movie,
}

/// The query type a lowercased option value denotes, if any.
pub open spec fn spec_query_type_of(t: Seq<char>) -> Option<QueryType> {
    if t == "series"@ {
        Some(QueryType::Series)
    } else if t == "episode"@ || t == "episodes"@ {
        Some(QueryType::Episode)
    } else if t == "movie"@ || t == "movies"@ {
        Some(QueryType::Movie)
    } else {
        None
    }
}

/// The message rejecting an unknown query type value.
pub open spec fn invalid_query_type_message(s: Seq<char>) -> Seq<char> {
    "'"@ + s + "' is not a valid query type"@
}

/// Decides the query type from an already lowercased option value.
pub fn query_type_from_lowered(t: &str) -> (r: Option<QueryType>)
    ensures
        r == spec_query_type_of(t@),
{
    if str_eq(t, "series") {
        Some(QueryType::Series)
    } else if str_eq(t, "episode") || str_eq(t, "episodes") {
        Some(QueryType::Episode)
    } else if str_eq(t, "movie") || str_eq(t, "movies") {
        Some(QueryType::Movie)
    } else {
        None
    }
}

impl QueryType {
    /// Parses the query type option, case-insensitively: `series`,
    /// `episode`/`episodes` or `movie`/`movies`. Any other value is
    /// rejected, with a message naming it, before any catalog access
    /// happens.
    pub fn parse(s: &str) -> (r: Result<QueryType, String>)
        ensures
            match spec_query_type_of(lower_of(s@)) {
                Some(q) => r == Ok::<QueryType, String>(q),
                None => r matches Err(m) && m@ == invalid_query_type_message(s@),
            },
    {
        let low = lowercase(s);
        match query_type_from_lowered(low.as_str()) {
            Some(q) => Ok(q),
            None => {
                let mut m = "'".to_owned();
                m.append(s);
                m.append("' is not a valid query type");
                Err(m)
            },
        }
    }
}

/// The catalog filter a query type maps to; a movie query filters for
/// movie listings.
pub open spec fn spec_query_filter(qt: Option<QueryType>) -> Option<CatalogQueryType> {
    match qt {
        None => None,
        Some(QueryType::Series) => Some(CatalogQueryType::Series),
        Some(QueryType::Episode) => Some(CatalogQueryType::Episode),
        Some(QueryType::Movie) => Some(CatalogQueryType::MovieListing),
    }
}

/// The configuration of one `query` invocation.
#[derive(Clone, Debug)]
pub struct Query {
    pub limit: u32,
    pub query_type: Option<QueryType>,
    pub id: bool,
    pub url: bool,
    pub type_: bool,
    pub title: bool,
    pub description: bool,
    pub output_format: OutputFormat,
    pub input: String,
}

impl Query {
    /// The field selection this configuration asks for.
    pub open spec fn spec_selection(&self) -> FieldSelection {
        FieldSelection {
            id: self.id,
            url: self.url,
            type_: self.type_,
            title: self.title,
            description: self.description,
        }
    }

    /// The field selection this configuration asks for.
    pub fn selection(&self) -> (r: FieldSelection)
        ensures
            r == self.spec_selection(),
    {
        FieldSelection {
            id: self.id,
            url: self.url,
            type_: self.type_,
            title: self.title,
            description: self.description,
        }
    }

    /// Decides how the input is resolved: a recognized content URL is
    /// looked up directly, ignoring limit and filter; anything else
    /// becomes a catalog query with this limit and the filter implied by
    /// the query type.
    pub fn resolve_plan(&self, input_is_url: bool) -> (r: ResolvePlan)
        ensures
            r == if input_is_url {
                ResolvePlan::DirectLookup
            } else {
                (ResolvePlan::CatalogQuery {
                    limit: self.limit,
                    result_type: spec_query_filter(self.query_type),
                })
            },
    {
        if input_is_url {
            ResolvePlan::DirectLookup
        } else {
            ResolvePlan::CatalogQuery {
                limit: self.limit,
                result_type: match self.query_type {
                    None => None,
                    Some(QueryType::Series) => Some(CatalogQueryType::Series),
                    Some(QueryType::Episode) => Some(CatalogQueryType::Episode),
                    Some(QueryType::Movie) => Some(CatalogQueryType::MovieListing),
                },
            }
        }
    }

    /// Turns the resolved entities into output lines: one line per
    /// flattenable entity, in input order, its fields selected by this
    /// configuration and ordered by the argument vector; one warning per
    /// skipped entity.
    pub fn format_results(&self, entities: Vec<MediaEntity>, argv: &Vec<String>) -> (res: (
        Vec<String>,
        Vec<Warning>,
    ))
        ensures
            res.0.deep_view() == spec_format_results(
                self.output_format,
                argv.deep_view(),
                self.spec_selection(),
                entities.deep_view(),
            ),
            res.1@ == spec_warnings(entities.deep_view()),
    {
        let selection = self.selection();
        format_records(self.output_format, &selection, argv, entities)
    }
}

} // verus!
