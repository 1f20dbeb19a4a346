use crunchy_query::order::order_fields;
use crunchy_query::pipeline::render_record;
use crunchy_query::project::Field;
use crunchy_query::project::FormattedOutput;
use crunchy_query::project::convert_to_formatted_outputs;
use crunchy_query::media::Output;
use crunchy_query::options::FieldSelection;
use crunchy_query::options::OutputFormat;

fn record(id: Option<&str>, url: Option<&str>, type_: Option<&str>, title: Option<&str>, description: Option<&str>) -> FormattedOutput {
    FormattedOutput {
        id: id.map(|s| s.to_string()),
        url: url.map(|s| s.to_string()),
        type_: type_.map(|s| s.to_string()),
        title: title.map(|s| s.to_string()),
        description: description.map(|s| s.to_string()),
    }
}

fn argv(items: &[&str]) -> Vec<String> {
    items.iter().map(|s| s.to_string()).collect()
}

#[test]
fn order_follows_first_flag_occurrence_and_dedups() {
    let rec = record(Some("i"), Some("u"), None, Some("t"), None);
    let args = argv(&["prog", "--title", "--id", "--title", "--url"]);
    let order = order_fields(&rec, &args);
    assert_eq!(order, vec![Field::Title, Field::Id, Field::Url]);
}

#[test]
fn unflagged_present_fields_follow_in_schema_order() {
    let rec = record(Some("i"), Some("u"), Some("k"), Some("t"), Some("d"));
    let args = argv(&["prog", "--description"]);
    let order = order_fields(&rec, &args);
    assert_eq!(
        order,
        vec![Field::Description, Field::Id, Field::Url, Field::Type, Field::Title]
    );
}

#[test]
fn ordering_is_deterministic_across_records() {
    let a = record(Some("a1"), None, Some("a2"), Some("a3"), None);
    let b = record(Some("b1"), None, Some("b2"), Some("b3"), None);
    let args = argv(&["prog", "--type", "--title", "--id"]);
    assert_eq!(order_fields(&a, &args), order_fields(&b, &args));
}

#[test]
fn projection_includes_exactly_the_selected_fields() {
    let out = Output {
        id: "i".to_string(),
        url: "u".to_string(),
        type_: "k".to_string(),
        title: "t".to_string(),
        description: "d".to_string(),
    };
    let sel = FieldSelection { id: true, url: false, type_: true, title: false, description: true };
    let recs = convert_to_formatted_outputs(&sel, vec![out]);
    assert_eq!(recs.len(), 1);
    assert_eq!(recs[0].id.as_deref(), Some("i"));
    assert_eq!(recs[0].url, None);
    assert_eq!(recs[0].type_.as_deref(), Some("k"));
    assert_eq!(recs[0].title, None);
    assert_eq!(recs[0].description.as_deref(), Some("d"));
}

#[test]
fn toggling_one_selection_bit_changes_exactly_that_field() {
    let out = Output {
        id: "i".to_string(),
        url: "u".to_string(),
        type_: "k".to_string(),
        title: "t".to_string(),
        description: "d".to_string(),
    };
    let s1 = FieldSelection { id: true, url: false, type_: true, title: false, description: false };
    let s2 = FieldSelection { url: true, ..s1 };
    let r1 = &convert_to_formatted_outputs(&s1, vec![out.clone()])[0];
    let r2 = &convert_to_formatted_outputs(&s2, vec![out])[0];
    assert_eq!(r1.url, None);
    assert_eq!(r2.url.as_deref(), Some("u"));
    assert_eq!(r1.id, r2.id);
    assert_eq!(r1.type_, r2.type_);
    assert_eq!(r1.title, r2.title);
    assert_eq!(r1.description, r2.description);
}

#[test]
fn json_round_trip_reproduces_selected_fields_exactly() {
    let rec = record(
        Some("G1"),
        None,
        None,
        Some("quote \" backslash \\ newline \n tab \t bell \u{7}"),
        Some("control \u{1} and \r end"),
    );
    let args = argv(&["prog", "--description", "--id", "--title"]);
    let line = render_record(&rec, &args, OutputFormat::Json);
    let value: serde_json::Value = serde_json::from_str(&line).unwrap();
    let obj = value.as_object().unwrap();
    assert_eq!(obj.len(), 3);
    assert_eq!(obj.get("id").unwrap().as_str().unwrap(), "G1");
    assert_eq!(
        obj.get("title").unwrap().as_str().unwrap(),
        "quote \" backslash \\ newline \n tab \t bell \u{7}"
    );
    assert_eq!(
        obj.get("description").unwrap().as_str().unwrap(),
        "control \u{1} and \r end"
    );
    // key order on the wire follows the flag order
    let d = line.find("\"description\"").unwrap();
    let i = line.find("\"id\"").unwrap();
    let t = line.find("\"title\"").unwrap();
    assert!(d < i && i < t);
}

#[test]
fn json_escapes_control_characters_as_hex() {
    let rec = record(None, None, None, None, Some("\u{1}"));
    let args = argv(&["prog", "--description"]);
    let line = render_record(&rec, &args, OutputFormat::Json);
    assert_eq!(line, "{\"description\":\"\\u0001\"}");
}

#[test]
fn csv_does_not_escape_at_all() {
    let rec = record(Some("a;b"), None, None, Some("t"), None);
    let args = argv(&["prog", "--id", "--title"]);
    let line = render_record(&rec, &args, OutputFormat::Csv);
    assert_eq!(line, "a;b;t");
}
