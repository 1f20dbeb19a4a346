//! The `search` command: the same pipeline as `query`, under the name the
//! command line exposes alongside it.

use vstd::prelude::*;
use vstd::string::StringExecFns;

use crate::media::MediaEntity;
use crate::media::Warning;
use crate::options::CatalogQueryType;
use crate::options::FieldSelection;
use crate::options::OutputFormat;
use crate::options::ResolvePlan;
use crate::options::lower_of;
use crate::options::lowercase;
use crate::pipeline::format_records;
use crate::pipeline::spec_format_results;
use crate::flatten::spec_warnings;
use crate::text::str_eq;

verus! {

/// The kind of results a search may be restricted to.
#[derive(Clone, Copy, Debug, PartialEq, Eq, Structural)]
pub enum SearchType {
    Series,
    Episode,
    Movie,
}

/// The search type a lowercased option value denotes, if any.
pub open spec fn spec_search_type_of(t: Seq<char>) -> Option<SearchType> {
    if t == "series"@ {
        Some(SearchType::Series)
    } else if t == "episode"@ || t == "episodes"@ {
        Some(SearchType::Episode)
    } else if t == "movie"@ || t == "movies"@ {
        Some(SearchType::Movie)
    } else {
        None
    }
}

/// The message rejecting an unknown search type value.
pub open spec fn invalid_search_type_message(s: Seq<char>) -> Seq<char> {
    "'"@ + s + "' is not a valid search type"@
}

/// Decides the search type from an already lowercased option value.
pub fn search_type_from_lowered(t: &str) -> (r: Option<SearchType>)
    ensures
        r == spec_search_type_of(t@),
{
    if str_eq(t, "series") {
        Some(SearchType::Series)
    } else if str_eq(t, "episode") || str_eq(t, "episodes") {
        Some(SearchType::Episode)
    } else if str_eq(t, "movie") || str_eq(t, "movies") {
        Some(SearchType::Movie)
    } else {
        None
    }
}

impl SearchType {
    /// Parses the search type option, case-insensitively: `series`,
    /// `episode`/`episodes` or `movie`/`movies`. Any other value is
    /// rejected, with a message naming it, before any catalog access
    /// happens.
    pub fn parse(s: &str) -> (r: Result<SearchType, String>)
        ensures
            match spec_search_type_of(lower_of(s@)) {
                Some(q) => r == Ok::<SearchType, String>(q),
                None => r matches Err(m) && m@ == invalid_search_type_message(s@),
            },
    {
        let low = lowercase(s);
        match search_type_from_lowered(low.as_str()) {
            Some(q) => Ok(q),
            None => {
                let mut m = "'".to_owned();
                m.append(s);
                m.append("' is not a valid search type");
                Err(m)
            },
        }
    }
}

/// The catalog filter a search type maps to; a movie search filters for
/// movie listings.
pub open spec fn spec_search_filter(st: Option<SearchType>) -> Option<CatalogQueryType> {
    match st {
        None => None,
        Some(SearchType::Series) => Some(CatalogQueryType::Series),
        Some(SearchType::Episode) => Some(CatalogQueryType::Episode),
        Some(SearchType::Movie) => Some(CatalogQueryType::MovieListing),
    }
}

/// The configuration of one `search` invocation.
#[derive(Clone, Debug)]
pub struct Search {
    pub limit: u32,
    pub search_type: Option<SearchType>,
    pub id: bool,
    pub url: bool,
    pub type_: bool,
    pub title: bool,
    pub description: bool,
    pub output_format: OutputFormat,
    pub input: String,
}

impl Search {
    /// The field selection this configuration asks for.
    pub open spec fn spec_selection(&self) -> FieldSelection {
        FieldSelection {
            id: self.id,
            url: self.url,
            type_: self.type_,
            title: self.title,
            description: self.description,
        }
    }

    /// The field selection this configuration asks for.
    pub fn selection(&self) -> (r: FieldSelection)
        ensures
            r == self.spec_selection(),
    {
        FieldSelection {
            id: self.id,
            url: self.url,
            type_: self.type_,
            title: self.title,
            description: self.description,
        }
    }

    /// Decides how the input is resolved: a recognized content URL is
    /// looked up directly, ignoring limit and filter; anything else
    /// becomes a catalog search with this limit and the filter implied by
    /// the search type.
    pub fn resolve_plan(&self, input_is_url: bool) -> (r: ResolvePlan)
        ensures
            r == if input_is_url {
                ResolvePlan::DirectLookup
            } else {
                (ResolvePlan::CatalogQuery {
                    limit: self.limit,
                    result_type: spec_search_filter(self.search_type),
                })
            },
    {
        if input_is_url {
            ResolvePlan::DirectLookup
        } else {
            ResolvePlan::CatalogQuery {
                limit: self.limit,
                result_type: match self.search_type {
                    None => None,
                    Some(SearchType::Series) => Some(CatalogQueryType::Series),
                    Some(SearchType::Episode) => Some(CatalogQueryType::Episode),
                    Some(SearchType::Movie) => Some(CatalogQueryType::MovieListing),
                },
            }
        }
    }

    /// Turns the resolved entities into output lines: one line per
    /// flattenable entity, in input order, its fields selected by this
    /// configuration and ordered by the argument vector; one warning per
    /// skipped entity.
    pub fn format_results(&self, entities: Vec<MediaEntity>, argv: &Vec<String>) -> (res: (
        Vec<String>,
        Vec<Warning>,
    ))
        ensures
            res.0.deep_view() == spec_format_results(
                self.output_format,
                argv.deep_view(),
                self.spec_selection(),
                entities.deep_view(),
            ),
            res.1@ == spec_warnings(entities.deep_view()),
    {
        let selection = self.selection();
        format_records(self.output_format, &selection, argv, entities)
    }
}

} // verus!
