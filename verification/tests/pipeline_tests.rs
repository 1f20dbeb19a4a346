use crunchy_query::flatten::flatten;
use crunchy_query::media::MediaEntity;
use crunchy_query::media::MovieInfo;
use crunchy_query::media::Warning;
use crunchy_query::options::OutputFormat;
use crunchy_query::query::Query;

fn series_g1() -> MediaEntity {
    MediaEntity::Series {
        id: "G1".to_string(),
        slug_title: "my-show".to_string(),
        title: "My Show".to_string(),
        description: "A tale\nwith lines".to_string(),
    }
}

fn query_config(id: bool, url: bool, type_: bool, title: bool, description: bool, format: OutputFormat) -> Query {
    Query {
        limit: 10,
        query_type: None,
        id,
        url,
        type_,
        title,
        description,
        output_format: format,
        input: "my show".to_string(),
    }
}

fn argv(items: &[&str]) -> Vec<String> {
    items.iter().map(|s| s.to_string()).collect()
}

#[test]
fn flatten_series_builds_canonical_record() {
    let (outs, warns) = flatten(&vec![series_g1()]);
    assert_eq!(outs.len(), 1);
    assert_eq!(outs[0].id, "G1");
    assert_eq!(outs[0].url, "https://www.crunchyroll.com/series/G1/my-show");
    assert_eq!(outs[0].type_, "series");
    assert_eq!(outs[0].title, "My Show");
    assert_eq!(outs[0].description, "A tale\nwith lines");
    assert_eq!(warns.len(), 0);
}

#[test]
fn csv_line_in_flag_order() {
    let q = query_config(true, false, false, true, false, OutputFormat::Csv);
    let args = argv(&["prog", "query", "--title", "--id", "my show"]);
    let (lines, warns) = q.format_results(vec![series_g1()], &args);
    assert_eq!(lines, vec!["My Show;G1".to_string()]);
    assert_eq!(warns.len(), 0);
}

#[test]
fn json_line_in_flag_order() {
    let q = query_config(true, false, false, true, false, OutputFormat::Json);
    let args = argv(&["prog", "query", "--title", "--id", "my show"]);
    let (lines, _) = q.format_results(vec![series_g1()], &args);
    assert_eq!(lines, vec!["{\"title\":\"My Show\",\"id\":\"G1\"}".to_string()]);
}

#[test]
fn quoted_csv_strips_embedded_newline() {
    let q = query_config(true, false, false, true, true, OutputFormat::QuotedCsv);
    let args = argv(&["prog", "query", "--title", "--id", "my show"]);
    let (lines, _) = q.format_results(vec![series_g1()], &args);
    // description was never flagged, so it follows at the end in schema order
    assert_eq!(lines, vec!["\"My Show\";\"G1\";\"A talewith lines\"".to_string()]);
    assert!(!lines[0].contains('\n'));
    assert!(!lines[0].contains('\r'));
}

#[test]
fn quoted_csv_copies_quote_without_doubling() {
    let q = query_config(false, false, false, true, false, OutputFormat::QuotedCsv);
    let mut entity = series_g1();
    if let MediaEntity::Series { title, .. } = &mut entity {
        *title = "a\"b\r\nc".to_string();
    }
    let args = argv(&["prog", "--title"]);
    let (lines, _) = q.format_results(vec![entity], &args);
    assert_eq!(lines, vec!["\"a\"bc\"".to_string()]);
}

#[test]
fn empty_movie_listing_yields_no_record_and_one_warning() {
    let (outs, warns) = flatten(&vec![MediaEntity::MovieListing { movies: vec![] }]);
    assert_eq!(outs.len(), 0);
    assert_eq!(warns, vec![Warning::EmptyMovieListing]);
}

#[test]
fn season_yields_no_record_and_one_warning() {
    let (outs, warns) = flatten(&vec![MediaEntity::Season]);
    assert_eq!(outs.len(), 0);
    assert_eq!(warns, vec![Warning::SeasonSkipped]);
}

#[test]
fn movie_listing_takes_first_movie_only() {
    let movies = vec![
        MovieInfo {
            id: "M1".to_string(),
            slug_title: "first-movie".to_string(),
            title: "First".to_string(),
            description: "one".to_string(),
        },
        MovieInfo {
            id: "M2".to_string(),
            slug_title: "second-movie".to_string(),
            title: "Second".to_string(),
            description: "two".to_string(),
        },
    ];
    let (outs, warns) = flatten(&vec![MediaEntity::MovieListing { movies }]);
    assert_eq!(outs.len(), 1);
    assert_eq!(outs[0].id, "M1");
    assert_eq!(outs[0].url, "https://www.crunchyroll.com/watch/M1/first-movie");
    assert_eq!(outs[0].type_, "movie");
    assert_eq!(warns.len(), 0);
}

#[test]
fn flatten_keeps_input_order_and_skips_in_place() {
    let entities = vec![
        series_g1(),
        MediaEntity::Season,
        MediaEntity::Episode {
            id: "E1".to_string(),
            slug_title: "ep-one".to_string(),
            title: "Ep One".to_string(),
            description: "d1".to_string(),
        },
        MediaEntity::MovieListing { movies: vec![] },
        MediaEntity::Movie {
            movie: MovieInfo {
                id: "M9".to_string(),
                slug_title: "a-movie".to_string(),
                title: "A Movie".to_string(),
                description: "d2".to_string(),
            },
        },
    ];
    let (outs, warns) = flatten(&entities);
    assert_eq!(outs.len(), 3);
    assert_eq!(outs[0].id, "G1");
    assert_eq!(outs[1].id, "E1");
    assert_eq!(outs[1].url, "https://www.crunchyroll.com/watch/E1/ep-one");
    assert_eq!(outs[1].type_, "episode");
    assert_eq!(outs[2].id, "M9");
    assert_eq!(warns, vec![Warning::SeasonSkipped, Warning::EmptyMovieListing]);
}

#[test]
fn empty_selection_yields_empty_records() {
    let q = query_config(false, false, false, false, false, OutputFormat::Csv);
    let args = argv(&["prog"]);
    let (lines, _) = q.format_results(vec![series_g1()], &args);
    assert_eq!(lines, vec!["".to_string()]);
}
