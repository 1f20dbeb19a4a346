//! The encoders: one line of text per record. CSV joins the raw values
//! with `;` and no escaping at all. Quoted CSV wraps each value in double
//! quotes, copies embedded quotes through unchanged, and strips carriage
//! returns and line feeds so a record always stays on one line. JSON emits
//! one compact object whose members stand in exactly the computed field
//! order.

use vstd::prelude::*;

use crate::order::field_name;
use crate::project::Field;
use crate::project::FormattedOutput;
use crate::project::FormattedOutputV;
use crate::text::chars_to_string;
use crate::text::str_chars;

verus! {

/// The value a record carries for a field; absent fields read as empty.
pub open spec fn spec_field_value(rec: FormattedOutputV, f: Field) -> Seq<char> {
    match f {
        Field::Id => match rec.id {
            Some(v) => v,
            None => seq![],
        },
        Field::Url => match rec.url {
            Some(v) => v,
            None => seq![],
        },
        Field::Type => match rec.type_ {
            Some(v) => v,
            None => seq![],
        },
        Field::Title => match rec.title {
            Some(v) => v,
            None => seq![],
        },
        Field::Description => match rec.description {
            Some(v) => v,
            None => seq![],
        },
    }
}

/// A record reduced to the ordered list of its emitted fields and values.
pub open spec fn ordered_pairs(rec: FormattedOutputV, fields: Seq<Field>) -> Seq<
    (Field, Seq<char>),
> {
    fields.map_values(|f: Field| (f, spec_field_value(rec, f)))
}

/// The values of the pairs, in order.
pub open spec fn values_of(pairs: Seq<(Field, Seq<char>)>) -> Seq<Seq<char>> {
    pairs.map_values(|p: (Field, Seq<char>)| p.1)
}

/// Pieces joined by a single separator character.
pub open spec fn join_with(vals: Seq<Seq<char>>, sep: char) -> Seq<char>
    decreases vals.len(),
{
    if vals.len() == 0 {
        seq![]
    } else if vals.len() == 1 {
        vals[0]
    } else {
        join_with(vals.drop_last(), sep) + seq![sep] + vals.last()
    }
}

/// Extending a join by one more piece appends a separator (unless the join
/// was empty) and the piece.
proof fn lemma_join_snoc(vals: Seq<Seq<char>>, sep: char, i: int)
    requires
        0 <= i < vals.len(),
    ensures
        join_with(vals.take(i + 1), sep) == join_with(vals.take(i), sep) + (if i == 0 {
            Seq::<char>::empty()
        } else {
            seq![sep]
        }) + vals[i],
{
    assert(vals.take(i + 1).drop_last() =~= vals.take(i));
    assert(vals.take(i + 1).last() == vals[i]);
    if i == 0 {
        assert(join_with(vals.take(1), sep) == vals.take(1)[0]);
        assert(Seq::<char>::empty() + Seq::<char>::empty() + vals[0] =~= vals[0]);
    }
}

/// The raw CSV encoding: values joined with `;`, nothing escaped.
pub open spec fn csv_line(pairs: Seq<(Field, Seq<char>)>) -> Seq<char> {
    join_with(values_of(pairs), ';')
}

/// A value with every carriage return and line feed removed.
pub open spec fn strip_crlf(v: Seq<char>) -> Seq<char>
    decreases v.len(),
{
    if v.len() == 0 {
        seq![]
    } else {
        strip_crlf(v.drop_last()) + (if v.last() != '\r' && v.last() != '\n' {
            seq![v.last()]
        } else {
            seq![]
        })
    }
}

/// Stripping really leaves no carriage return and no line feed behind.
pub proof fn lemma_strip_crlf_clean(v: Seq<char>, k: int)
    requires
        0 <= k < strip_crlf(v).len(),
    ensures
        strip_crlf(v)[k] != '\r' && strip_crlf(v)[k] != '\n',
    decreases v.len(),
{
    if v.len() > 0 {
        if k < strip_crlf(v.drop_last()).len() {
            lemma_strip_crlf_clean(v.drop_last(), k);
        }
    }
}

/// A quoted CSV field: the stripped value between two double quotes.
/// An embedded double quote is copied through as it stands.
pub open spec fn quoted_field(v: Seq<char>) -> Seq<char> {
    seq!['"'] + strip_crlf(v) + seq!['"']
}

/// The quoted CSV encoding: quoted fields joined with `;`.
pub open spec fn quoted_csv_line(pairs: Seq<(Field, Seq<char>)>) -> Seq<char> {
    join_with(pairs.map_values(|p: (Field, Seq<char>)| quoted_field(p.1)), ';')
}

/// A hexadecimal digit, lower case.
pub open spec fn hex_digit(n: int) -> char
    recommends
        0 <= n < 16,
{
    if n == 0 {
        '0'
    } else if n == 1 {
        '1'
    } else if n == 2 {
        '2'
    } else if n == 3 {
        '3'
    } else if n == 4 {
        '4'
    } else if n == 5 {
        '5'
    } else if n == 6 {
        '6'
    } else if n == 7 {
        '7'
    } else if n == 8 {
        '8'
    } else if n == 9 {
        '9'
    } else if n == 10 {
        'a'
    } else if n == 11 {
        'b'
    } else if n == 12 {
        'c'
    } else if n == 13 {
        'd'
    } else if n == 14 {
        'e'
    } else {
        'f'
    }
}

/// The JSON escape of a single character: quote and backslash escaped,
/// the common control characters by their short escapes, any other control
/// character as a `\u00..` sequence, everything else verbatim.
pub open spec fn json_escape_char(c: char) -> Seq<char> {
    if c == '"' {
        seq!['\\', '"']
    } else if c == '\\' {
        seq!['\\', '\\']
    } else if c == '\u{8}' {
        seq!['\\', 'b']
    } else if c == '\t' {
        seq!['\\', 't']
    } else if c == '\n' {
        seq!['\\', 'n']
    } else if c == '\u{c}' {
        seq!['\\', 'f']
    } else if c == '\r' {
        seq!['\\', 'r']
    } else if (c as u32) < 0x20 {
        seq!['\\', 'u', '0', '0', hex_digit(((c as u32) / 16) as int), hex_digit(
            ((c as u32) % 16) as int,
        )]
    } else {
        seq![c]
    }
}

/// The JSON escape of a whole value.
pub open spec fn json_escape(v: Seq<char>) -> Seq<char>
    decreases v.len(),
{
    if v.len() == 0 {
        seq![]
    } else {
        json_escape(v.drop_last()) + json_escape_char(v.last())
    }
}

/// A JSON string: the escaped value between double quotes.
pub open spec fn json_string(v: Seq<char>) -> Seq<char> {
    seq!['"'] + json_escape(v) + seq!['"']
}

/// One member of the JSON object: `"name":"value"`.
pub open spec fn json_member(p: (Field, Seq<char>)) -> Seq<char> {
    json_string(field_name(p.0)) + seq![':'] + json_string(p.1)
}

/// The JSON encoding: one compact object whose members stand in the
/// computed field order.
pub open spec fn json_line(pairs: Seq<(Field, Seq<char>)>) -> Seq<char> {
    seq!['{'] + join_with(pairs.map_values(|p: (Field, Seq<char>)| json_member(p)), ',') + seq!['}']
}

/// The characters a record carries for a field; an absent field reads as
/// the empty value.
fn field_value_of(rec: &FormattedOutput, f: Field) -> (r: Vec<char>)
    ensures
        r@ == spec_field_value(rec@, f),
{
    let s: Option<&String> = match f {
        Field::Id => rec.id.as_ref(),
        Field::Url => rec.url.as_ref(),
        Field::Type => rec.type_.as_ref(),
        Field::Title => rec.title.as_ref(),
        Field::Description => rec.description.as_ref(),
    };
    match s {
        Some(v) => str_chars(v.as_str()),
        None => Vec::new(),
    }
}

/// Encodes a record as a raw CSV line in the given field order.
pub fn encode_csv(rec: &FormattedOutput, order: &Vec<Field>) -> (r: String)
    ensures
        r@ == csv_line(ordered_pairs(rec@, order@)),
{
    let ghost vs = values_of(ordered_pairs(rec@, order@));
    let mut acc: Vec<char> = Vec::new();
    let n = order.len();
    let mut i: usize = 0;
    while i < n
        invariant
            n == order@.len(),
            vs == values_of(ordered_pairs(rec@, order@)),
            vs.len() == n,
            0 <= i <= n,
            acc@ == join_with(vs.take(i as int), ';'),
        decreases n - i,
    {
        if i > 0 {
            acc.push(';');
        }
        let mut v = field_value_of(rec, order[i]);
        proof {
            assert(vs[i as int] == v@);
            lemma_join_snoc(vs, ';', i as int);
        }
        acc.append(&mut v);
        i = i + 1;
    }
    proof {
        assert(vs.take(n as int) =~= vs);
    }
    chars_to_string(&acc)
}

/// Quotes one field value: strips carriage returns and line feeds, and
/// wraps the rest, embedded quotes included, in double quotes.
fn quote_field(v: &Vec<char>) -> (r: Vec<char>)
    ensures
        r@ == quoted_field(v@),
{
    let mut acc: Vec<char> = Vec::new();
    acc.push('"');
    let n = v.len();
    let mut i: usize = 0;
    while i < n
        invariant
            n == v@.len(),
            0 <= i <= n,
            acc@ == seq!['"'] + strip_crlf(v@.take(i as int)),
        decreases n - i,
    {
        let c = v[i];
        proof {
            assert(v@.take(i + 1).drop_last() =~= v@.take(i as int));
            assert(v@.take(i + 1).last() == v@[i as int]);
        }
        if c != '\r' && c != '\n' {
            acc.push(c);
        }
        proof {
            assert(acc@ =~= seq!['"'] + strip_crlf(v@.take(i + 1)));
        }
        i = i + 1;
    }
    acc.push('"');
    proof {
        assert(v@.take(n as int) =~= v@);
        assert(acc@ =~= quoted_field(v@));
    }
    acc
}

/// Encodes a record as a quoted CSV line in the given field order.
pub fn encode_quoted_csv(rec: &FormattedOutput, order: &Vec<Field>) -> (r: String)
    ensures
        r@ == quoted_csv_line(ordered_pairs(rec@, order@)),
{
    let ghost qs = ordered_pairs(rec@, order@).map_values(
        |p: (Field, Seq<char>)| quoted_field(p.1),
    );
    let mut acc: Vec<char> = Vec::new();
    let n = order.len();
    let mut i: usize = 0;
    while i < n
        invariant
            n == order@.len(),
            qs == ordered_pairs(rec@, order@).map_values(
                |p: (Field, Seq<char>)| quoted_field(p.1),
            ),
            qs.len() == n,
            0 <= i <= n,
            acc@ == join_with(qs.take(i as int), ';'),
        decreases n - i,
    {
        if i > 0 {
            acc.push(';');
        }
        let v = field_value_of(rec, order[i]);
        let mut q = quote_field(&v);
        proof {
            assert(qs[i as int] == q@);
            lemma_join_snoc(qs, ';', i as int);
        }
        acc.append(&mut q);
        i = i + 1;
    }
    proof {
        assert(qs.take(n as int) =~= qs);
    }
    chars_to_string(&acc)
}

/// Appends the JSON escape of one character.
fn push_json_escape_char(acc: &mut Vec<char>, c: char)
    ensures
        final(acc)@ == old(acc)@ + json_escape_char(c),
{
    if c == '"' {
        acc.push('\\');
        acc.push('"');
    } else if c == '\\' {
        acc.push('\\');
        acc.push('\\');
    } else if c == '\u{8}' {
        acc.push('\\');
        acc.push('b');
    } else if c == '\t' {
        acc.push('\\');
        acc.push('t');
    } else if c == '\n' {
        acc.push('\\');
        acc.push('n');
    } else if c == '\u{c}' {
        acc.push('\\');
        acc.push('f');
    } else if c == '\r' {
        acc.push('\\');
        acc.push('r');
    } else if (c as u32) < 0x20 {
        acc.push('\\');
        acc.push('u');
        acc.push('0');
        acc.push('0');
        acc.push(hex_digit_of(c as u32 / 16));
        acc.push(hex_digit_of(c as u32 % 16));
    } else {
        acc.push(c);
    }
    proof {
        assert(acc@ =~= old(acc)@ + json_escape_char(c));
    }
}

/// A hexadecimal digit, lower case.
fn hex_digit_of(n: u32) -> (r: char)
    requires
        n < 16,
    ensures
        r == hex_digit(n as int),
{
    if n == 0 {
        '0'
    } else if n == 1 {
        '1'
    } else if n == 2 {
        '2'
    } else if n == 3 {
        '3'
    } else if n == 4 {
        '4'
    } else if n == 5 {
        '5'
    } else if n == 6 {
        '6'
    } else if n == 7 {
        '7'
    } else if n == 8 {
        '8'
    } else if n == 9 {
        '9'
    } else if n == 10 {
        'a'
    } else if n == 11 {
        'b'
    } else if n == 12 {
        'c'
    } else if n == 13 {
        'd'
    } else if n == 14 {
        'e'
    } else {
        'f'
    }
}

/// Appends the JSON string of a value: its escape between double quotes.
fn push_json_string(acc: &mut Vec<char>, v: &Vec<char>)
    ensures
        final(acc)@ == old(acc)@ + json_string(v@),
{
    acc.push('"');
    let n = v.len();
    let mut i: usize = 0;
    while i < n
        invariant
            n == v@.len(),
            0 <= i <= n,
            acc@ == old(acc)@ + seq!['"'] + json_escape(v@.take(i as int)),
        decreases n - i,
    {
        proof {
            assert(v@.take(i + 1).drop_last() =~= v@.take(i as int));
            assert(v@.take(i + 1).last() == v@[i as int]);
        }
        push_json_escape_char(acc, v[i]);
        proof {
            assert(acc@ =~= old(acc)@ + seq!['"'] + json_escape(v@.take(i + 1)));
        }
        i = i + 1;
    }
    acc.push('"');
    proof {
        assert(v@.take(n as int) =~= v@);
        assert(acc@ =~= old(acc)@ + json_string(v@));
    }
}

/// The name under which a field is emitted.
fn field_name_str(f: Field) -> (r: &'static str)
    ensures
        r@ == field_name(f),
{
    match f {
        Field::Id => "id",
        Field::Url => "url",
        Field::Type => "type",
        Field::Title => "title",
        Field::Description => "description",
    }
}

/// Encodes a record as one compact JSON object in the given field order.
pub fn encode_json(rec: &FormattedOutput, order: &Vec<Field>) -> (r: String)
    ensures
        r@ == json_line(ordered_pairs(rec@, order@)),
{
    let ghost ms = ordered_pairs(rec@, order@).map_values(
        |p: (Field, Seq<char>)| json_member(p),
    );
    let mut acc: Vec<char> = Vec::new();
    acc.push('{');
    let n = order.len();
    let mut i: usize = 0;
    while i < n
        invariant
            n == order@.len(),
            ms == ordered_pairs(rec@, order@).map_values(|p: (Field, Seq<char>)| json_member(p)),
            ms.len() == n,
            0 <= i <= n,
            acc@ == seq!['{'] + join_with(ms.take(i as int), ','),
        decreases n - i,
    {
        if i > 0 {
            acc.push(',');
        }
        let name = str_chars(field_name_str(order[i]));
        push_json_string(&mut acc, &name);
        acc.push(':');
        let v = field_value_of(rec, order[i]);
        push_json_string(&mut acc, &v);
        proof {
            lemma_join_snoc(ms, ',', i as int);
            assert(ms[i as int] == json_member(ordered_pairs(rec@, order@)[i as int]));
            assert(acc@ =~= seq!['{'] + join_with(ms.take(i + 1), ','));
        }
        i = i + 1;
    }
    acc.push('}');
    proof {
        assert(ms.take(n as int) =~= ms);
        assert(acc@ =~= json_line(ordered_pairs(rec@, order@)));
    }
    chars_to_string(&acc)
}

/// No character of a join is foreign to its pieces: if the separator is
/// not `c` and no piece contains `c`, the join does not either.
proof fn lemma_join_no_char(vals: Seq<Seq<char>>, sep: char, c: char)
    requires
        sep != c,
        forall|i: int, k: int|
            0 <= i < vals.len() && 0 <= k < vals[i].len() ==> #[trigger] vals[i][k] != c,
    ensures
        forall|k: int| 0 <= k < join_with(vals, sep).len() ==> join_with(vals, sep)[k] != c,
    decreases vals.len(),
{
    if vals.len() == 1 {
        assert forall|k: int| 0 <= k < join_with(vals, sep).len() implies join_with(vals, sep)[k]
            != c by {
            assert(join_with(vals, sep) == vals[0]);
            assert(vals[0][k] != c);
        }
    } else if vals.len() > 1 {
        assert forall|i: int, k: int|
            0 <= i < vals.drop_last().len() && 0 <= k < vals.drop_last()[i].len() implies #[trigger] vals.drop_last()[i][k]
            != c by {
            assert(vals.drop_last()[i] == vals[i]);
            assert(vals[i][k] != c);
        }
        lemma_join_no_char(vals.drop_last(), sep, c);
        let j = join_with(vals.drop_last(), sep);
        assert forall|k: int| 0 <= k < join_with(vals, sep).len() implies join_with(vals, sep)[k]
            != c by {
            assert(join_with(vals, sep) == j + seq![sep] + vals.last());
            if k < j.len() {
                assert(join_with(vals, sep)[k] == j[k]);
            } else if k == j.len() {
                assert(join_with(vals, sep)[k] == sep);
            } else {
                assert(join_with(vals, sep)[k] == vals.last()[k - j.len() - 1]);
                assert(vals[vals.len() - 1][k - j.len() - 1] != c);
            }
        }
    }
}

/// A quoted CSV line never contains a raw line feed or carriage return:
/// every embedded newline of a value is stripped, so each record stays on
/// a single line.
pub proof fn lemma_quoted_csv_single_line(pairs: Seq<(Field, Seq<char>)>)
    ensures
        forall|k: int|
            0 <= k < quoted_csv_line(pairs).len() ==> quoted_csv_line(pairs)[k] != '\n'
                && quoted_csv_line(pairs)[k] != '\r',
{
    let qs = pairs.map_values(|p: (Field, Seq<char>)| quoted_field(p.1));
    assert forall|i: int, k: int|
        0 <= i < qs.len() && 0 <= k < qs[i].len() implies qs[i][k] != '\n' && qs[i][k]
        != '\r' by {
        let v = pairs[i].1;
        assert(qs[i] == quoted_field(v));
        if 1 <= k < qs[i].len() - 1 {
            assert(qs[i][k] == strip_crlf(v)[k - 1]);
            lemma_strip_crlf_clean(v, k - 1);
        }
    }
    lemma_join_no_char(qs, ';', '\n');
    lemma_join_no_char(qs, ';', '\r');
}

} // verus!
