//! The pipeline from resolved entities to output lines: flatten, project,
//! order, encode — one line per record, in flatten order.

use vstd::prelude::*;

use crate::encode::csv_line;
use crate::encode::encode_csv;
use crate::encode::encode_json;
use crate::encode::encode_quoted_csv;
use crate::encode::json_line;
use crate::encode::ordered_pairs;
use crate::encode::quoted_csv_line;
use crate::flatten::flatten;
use crate::flatten::spec_flatten;
use crate::flatten::spec_warnings;
use crate::media::MediaEntity;
use crate::media::MediaEntityV;
use crate::media::OutputV;
use crate::media::Warning;
use crate::options::FieldSelection;
use crate::options::OutputFormat;
use crate::order::order_fields;
use crate::order::present_fields;
use crate::order::spec_order_fields;
use crate::project::FormattedOutput;
use crate::project::convert_to_formatted_outputs;
use crate::project::spec_project;
use crate::project::spec_project_all;

verus! {

/// One record, already ordered, as one line in the given format.
pub open spec fn spec_encode_line(
    format: OutputFormat,
    pairs: Seq<(crate::project::Field, Seq<char>)>,
) -> Seq<char> {
    match format {
        OutputFormat::Csv => csv_line(pairs),
        OutputFormat::QuotedCsv => quoted_csv_line(pairs),
        OutputFormat::Json => json_line(pairs),
    }
}

/// The line a single flattened record turns into: its projection under the
/// selection, its present fields ordered by the argument vector, encoded in
/// the given format.
pub open spec fn spec_record_line(
    format: OutputFormat,
    argv: Seq<Seq<char>>,
    sel: FieldSelection,
    o: OutputV,
) -> Seq<char> {
    let rec = spec_project(o, sel);
    spec_encode_line(format, ordered_pairs(rec, spec_order_fields(argv, present_fields(rec))))
}

/// All lines of a sequence of flattened records, in order.
pub open spec fn spec_render_lines(
    format: OutputFormat,
    argv: Seq<Seq<char>>,
    sel: FieldSelection,
    outs: Seq<OutputV>,
) -> Seq<Seq<char>> {
    outs.map_values(|o: OutputV| spec_record_line(format, argv, sel, o))
}

/// Everything the pipeline emits for a sequence of entities: one line per
/// flattenable entity, in input order.
pub open spec fn spec_format_results(
    format: OutputFormat,
    argv: Seq<Seq<char>>,
    sel: FieldSelection,
    entities: Seq<MediaEntityV>,
) -> Seq<Seq<char>> {
    spec_render_lines(format, argv, sel, spec_flatten(entities))
}

/// Encodes one projected record as one line, its fields ordered by the
/// argument vector.
pub fn render_record(rec: &FormattedOutput, argv: &Vec<String>, format: OutputFormat) -> (r:
    String)
    ensures
        r@ == spec_encode_line(
            format,
            ordered_pairs(rec@, spec_order_fields(argv.deep_view(), present_fields(rec@))),
        ),
{
    let order = order_fields(rec, argv);
    match format {
        OutputFormat::Csv => encode_csv(rec, &order),
        OutputFormat::QuotedCsv => encode_quoted_csv(rec, &order),
        OutputFormat::Json => encode_json(rec, &order),
    }
}

/// Runs the whole pipeline: flattens the entities, projects each record
/// onto the selected fields, orders the fields by the argument vector, and
/// encodes one line per record. Returns the lines and the warnings for the
/// skipped entities.
pub fn format_records(
    format: OutputFormat,
    selection: &FieldSelection,
    argv: &Vec<String>,
    entities: Vec<MediaEntity>,
) -> (res: (Vec<String>, Vec<Warning>))
    ensures
        res.0.deep_view() == spec_format_results(
            format,
            argv.deep_view(),
            *selection,
            entities.deep_view(),
        ),
        res.1@ == spec_warnings(entities.deep_view()),
{
    let ghost evs = entities.deep_view();
    let ghost argvv = argv.deep_view();
    let (outputs, warnings) = flatten(&entities);
    let ghost outs_v = outputs.deep_view();
    let formatted = convert_to_formatted_outputs(selection, outputs);
    proof {
        assert(formatted.deep_view() == spec_project_all(outs_v, *selection));
    }
    let ghost lines_v = spec_render_lines(format, argvv, *selection, outs_v);
    let mut lines: Vec<String> = Vec::new();
    let n = formatted.len();
    proof {
        assert(formatted.deep_view().len() == n);
        assert(outs_v.len() == n);
        assert(lines_v.len() == n);
    }
    let mut j: usize = 0;
    while j < n
        invariant
            n == formatted.len(),
            formatted.deep_view() == spec_project_all(outs_v, *selection),
            outs_v.len() == n,
            lines_v == spec_render_lines(format, argvv, *selection, outs_v),
            lines_v.len() == n,
            argvv == argv.deep_view(),
            0 <= j <= n,
            lines.deep_view() == lines_v.take(j as int),
        decreases n - j,
    {
        let line = render_record(&formatted[j], argv, format);
        proof {
            assert(formatted@[j as int]@ == formatted.deep_view()[j as int]);
            assert(formatted.deep_view()[j as int] == spec_project(outs_v[j as int], *selection));
            assert(lines_v[j as int] == spec_record_line(
                format,
                argvv,
                *selection,
                outs_v[j as int],
            ));
            assert(line@ == lines_v[j as int]);
        }
        let ghost old_items = lines@;
        let ghost old_dv = lines.deep_view();
        lines.push(line);
        proof {
            assert(old_dv.len() == old_items.len());
            assert(old_items.len() == j as int);
            assert(lines@ == old_items.push(line));
            assert forall|k: int| 0 <= k < lines@.len() implies lines.deep_view()[k] == lines_v.take(
                j + 1,
            )[k] by {
                if k < j as int {
                    assert(lines@[k] == old_items[k]);
                    assert(old_dv[k] == old_items[k].deep_view());
                    assert(old_dv[k] == lines_v.take(j as int)[k]);
                } else {
                    assert(lines@[k] == line);
                }
            }
            assert(lines.deep_view() =~= lines_v.take(j + 1));
        }
        j = j + 1;
    }
    proof {
        assert(lines_v.take(n as int) =~= lines_v);
    }
    (lines, warnings)
}

} // verus!
