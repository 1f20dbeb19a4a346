use crunchy_query::options::CatalogQueryType;
use crunchy_query::options::OutputFormat;
use crunchy_query::options::ResolvePlan;
use crunchy_query::query::Query;
use crunchy_query::query::QueryType;
use crunchy_query::search::Search;
use crunchy_query::search::SearchType;

#[test]
fn query_type_parses_case_insensitively() {
    assert_eq!(QueryType::parse("series"), Ok(QueryType::Series));
    assert_eq!(QueryType::parse("SERIES"), Ok(QueryType::Series));
    assert_eq!(QueryType::parse("episode"), Ok(QueryType::Episode));
    assert_eq!(QueryType::parse("Episodes"), Ok(QueryType::Episode));
    assert_eq!(QueryType::parse("movie"), Ok(QueryType::Movie));
    assert_eq!(QueryType::parse("MOVIES"), Ok(QueryType::Movie));
}

#[test]
fn query_type_rejects_unknown_value() {
    assert_eq!(
        QueryType::parse("banana"),
        Err("'banana' is not a valid query type".to_string())
    );
}

#[test]
fn search_type_parses_case_insensitively() {
    assert_eq!(SearchType::parse("series"), Ok(SearchType::Series));
    assert_eq!(SearchType::parse("ePiSoDe"), Ok(SearchType::Episode));
    assert_eq!(SearchType::parse("movies"), Ok(SearchType::Movie));
}

#[test]
fn search_type_rejects_unknown_value() {
    assert_eq!(
        SearchType::parse("banana"),
        Err("'banana' is not a valid search type".to_string())
    );
}

#[test]
fn output_format_parses_all_spellings() {
    assert_eq!(OutputFormat::parse("csv"), Ok(OutputFormat::Csv));
    assert_eq!(OutputFormat::parse("CSV"), Ok(OutputFormat::Csv));
    assert_eq!(OutputFormat::parse("quoted-csv"), Ok(OutputFormat::QuotedCsv));
    assert_eq!(OutputFormat::parse("csv-quoted"), Ok(OutputFormat::QuotedCsv));
    assert_eq!(OutputFormat::parse("json"), Ok(OutputFormat::Json));
    assert_eq!(OutputFormat::parse("JSON"), Ok(OutputFormat::Json));
}

#[test]
fn output_format_rejects_unknown_value_before_any_catalog_access() {
    assert_eq!(
        OutputFormat::parse("banana"),
        Err("'banana' is not a valid output format".to_string())
    );
}

fn query_with_type(query_type: Option<QueryType>) -> Query {
    Query {
        limit: 7,
        query_type,
        id: false,
        url: false,
        type_: false,
        title: false,
        description: false,
        output_format: OutputFormat::Csv,
        input: "x".to_string(),
    }
}

#[test]
fn url_input_is_looked_up_directly() {
    let q = query_with_type(Some(QueryType::Series));
    assert_eq!(q.resolve_plan(true), ResolvePlan::DirectLookup);
}

#[test]
fn free_text_becomes_a_catalog_query_with_filter() {
    assert_eq!(
        query_with_type(None).resolve_plan(false),
        ResolvePlan::CatalogQuery { limit: 7, result_type: None }
    );
    assert_eq!(
        query_with_type(Some(QueryType::Series)).resolve_plan(false),
        ResolvePlan::CatalogQuery { limit: 7, result_type: Some(CatalogQueryType::Series) }
    );
    assert_eq!(
        query_with_type(Some(QueryType::Movie)).resolve_plan(false),
        ResolvePlan::CatalogQuery { limit: 7, result_type: Some(CatalogQueryType::MovieListing) }
    );
}

#[test]
fn search_movie_filter_targets_movie_listings() {
    let s = Search {
        limit: 3,
        search_type: Some(SearchType::Movie),
        id: true,
        url: false,
        type_: false,
        title: false,
        description: false,
        output_format: OutputFormat::Csv,
        input: "x".to_string(),
    };
    assert_eq!(
        s.resolve_plan(false),
        ResolvePlan::CatalogQuery { limit: 3, result_type: Some(CatalogQueryType::MovieListing) }
    );
}
