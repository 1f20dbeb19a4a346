//! A reader for the JSON lines the encoder emits, and the proof that
//! encoding loses nothing: parsing an encoded line yields exactly the
//! emitted field names and their original values.

use vstd::prelude::*;

use crate::encode::hex_digit;
use crate::encode::join_with;
use crate::encode::json_escape;
use crate::encode::json_escape_char;
use crate::encode::json_line;
use crate::encode::json_member;
use crate::encode::json_string;
use crate::encode::ordered_pairs;
use crate::media::OutputV;
use crate::options::FieldSelection;
use crate::options::OutputFormat;
use crate::order::field_name;
use crate::order::present_fields;
use crate::order::spec_order_fields;
use crate::pipeline::spec_record_line;
use crate::project::Field;
use crate::project::spec_project;

verus! {

/// The character a short escape stands for.
pub open spec fn unescape_short(x: char) -> Option<char> {
    if x == '"' {
        Some('"')
    } else if x == '\\' {
        Some('\\')
    } else if x == 'b' {
        Some('\u{8}')
    } else if x == 't' {
        Some('\t')
    } else if x == 'n' {
        Some('\n')
    } else if x == 'f' {
        Some('\u{c}')
    } else if x == 'r' {
        Some('\r')
    } else {
        None
    }
}

/// The value of a lower-case hexadecimal digit.
pub open spec fn hex_val(c: char) -> Option<int> {
    if c == '0' {
        Some(0int)
    } else if c == '1' {
        Some(1int)
    } else if c == '2' {
        Some(2int)
    } else if c == '3' {
        Some(3int)
    } else if c == '4' {
        Some(4int)
    } else if c == '5' {
        Some(5int)
    } else if c == '6' {
        Some(6int)
    } else if c == '7' {
        Some(7int)
    } else if c == '8' {
        Some(8int)
    } else if c == '9' {
        Some(9int)
    } else if c == 'a' {
        Some(10int)
    } else if c == 'b' {
        Some(11int)
    } else if c == 'c' {
        Some(12int)
    } else if c == 'd' {
        Some(13int)
    } else if c == 'e' {
        Some(14int)
    } else if c == 'f' {
        Some(15int)
    } else {
        None
    }
}

/// Reads a JSON string body up to and including its closing quote; yields
/// the unescaped content and what follows the closing quote.
pub open spec fn parse_string_body(s: Seq<char>) -> Option<(Seq<char>, Seq<char>)>
    decreases s.len(),
{
    if s.len() == 0 {
        None
    } else if s[0] == '"' {
        Some((seq![], s.skip(1)))
    } else if s[0] == '\\' {
        if s.len() >= 2 && s[1] == 'u' {
            if s.len() >= 6 {
                match (hex_val(s[2]), hex_val(s[3]), hex_val(s[4]), hex_val(s[5])) {
                    (Some(d1), Some(d2), Some(d3), Some(d4)) => {
                        let code = d1 * 4096 + d2 * 256 + d3 * 16 + d4;
                        if code < 0xD800 {
                            match parse_string_body(s.skip(6)) {
                                Some((v, r)) => Some((seq![code as char] + v, r)),
                                None => None,
                            }
                        } else {
                            None
                        }
                    },
                    _ => None,
                }
            } else {
                None
            }
        } else if s.len() >= 2 {
            match unescape_short(s[1]) {
                Some(c) => match parse_string_body(s.skip(2)) {
                    Some((v, r)) => Some((seq![c] + v, r)),
                    None => None,
                },
                None => None,
            }
        } else {
            None
        }
    } else {
        match parse_string_body(s.skip(1)) {
            Some((v, r)) => Some((seq![s[0]] + v, r)),
            None => None,
        }
    }
}

/// Whatever a string body parse leaves over is strictly shorter than what
/// it was given.
proof fn lemma_parse_string_body_shrinks(s: Seq<char>)
    ensures
        parse_string_body(s) matches Some(p) ==> p.1.len() < s.len(),
    decreases s.len(),
{
    if s.len() > 0 && s[0] != '"' {
        if s[0] == '\\' {
            if s.len() >= 6 && s[1] == 'u' {
                lemma_parse_string_body_shrinks(s.skip(6));
            }
            if s.len() >= 2 && s[1] != 'u' {
                lemma_parse_string_body_shrinks(s.skip(2));
            }
        } else {
            lemma_parse_string_body_shrinks(s.skip(1));
        }
    }
}

/// Reads `"name":"value"` members up to and including the closing brace;
/// yields the pairs and what follows the brace.
pub open spec fn parse_members(s: Seq<char>) -> Option<(Seq<(Seq<char>, Seq<char>)>, Seq<char>)>
    decreases s.len(),
        via parse_members_decreases
{
    if s.len() == 0 || s[0] != '"' {
        None
    } else {
        match parse_string_body(s.skip(1)) {
            None => None,
            Some((name, r1)) => {
                if r1.len() >= 2 && r1[0] == ':' && r1[1] == '"' {
                    match parse_string_body(r1.skip(2)) {
                        None => None,
                        Some((value, r2)) => {
                            if r2.len() >= 1 && r2[0] == ',' {
                                match parse_members(r2.skip(1)) {
                                    Some((more, r3)) => Some((seq![(name, value)] + more, r3)),
                                    None => None,
                                }
                            } else if r2.len() >= 1 && r2[0] == '}' {
                                Some((seq![(name, value)], r2.skip(1)))
                            } else {
                                None
                            }
                        },
                    }
                } else {
                    None
                }
            },
        }
    }
}

#[via_fn]
proof fn parse_members_decreases(s: Seq<char>) {
    if s.len() > 0 && s[0] == '"' {
        lemma_parse_string_body_shrinks(s.skip(1));
        match parse_string_body(s.skip(1)) {
            None => {},
            Some((name, r1)) => {
                if r1.len() >= 2 && r1[0] == ':' && r1[1] == '"' {
                    lemma_parse_string_body_shrinks(r1.skip(2));
                }
            },
        }
    }
}

/// Reads one whole line: a braced object of string members.
pub open spec fn parse_json_line(s: Seq<char>) -> Option<Seq<(Seq<char>, Seq<char>)>> {
    if s.len() >= 2 && s[0] == '{' {
        if s.len() == 2 && s[1] == '}' {
            Some(seq![])
        } else {
            match parse_members(s.skip(1)) {
                Some((pairs, r)) => if r.len() == 0 {
                    Some(pairs)
                } else {
                    None
                },
                None => None,
            }
        }
    } else {
        None
    }
}

/// Escaping distributes over concatenation.
proof fn lemma_json_escape_concat(a: Seq<char>, b: Seq<char>)
    ensures
        json_escape(a + b) == json_escape(a) + json_escape(b),
    decreases b.len(),
{
    if b.len() == 0 {
        assert(a + b =~= a);
        assert(json_escape(a) + json_escape(b) =~= json_escape(a));
    } else {
        assert((a + b).drop_last() =~= a + b.drop_last());
        assert((a + b).last() == b.last());
        lemma_json_escape_concat(a, b.drop_last());
        assert((json_escape(a) + json_escape(b.drop_last())) + json_escape_char(b.last())
            =~= json_escape(a) + (json_escape(b.drop_last()) + json_escape_char(b.last())));
    }
}

/// Escaping can be unfolded from the left as well.
proof fn lemma_json_escape_left(v: Seq<char>)
    requires
        v.len() > 0,
    ensures
        json_escape(v) == json_escape_char(v[0]) + json_escape(v.skip(1)),
{
    assert(v =~= seq![v[0]] + v.skip(1));
    lemma_json_escape_concat(seq![v[0]], v.skip(1));
    reveal_with_fuel(json_escape, 2);
    assert(seq![v[0]].drop_last() =~= Seq::<char>::empty());
    assert(json_escape(seq![v[0]]) =~= json_escape_char(v[0]));
}

/// Reading a lower-case hexadecimal digit back gives the value it encodes.
proof fn lemma_hex_val_digit(n: int)
    requires
        0 <= n < 16,
    ensures
        hex_val(hex_digit(n)) == Some(n),
{
}

/// Reading a string body off the escape of a value consumes exactly the
/// escape and the closing quote and yields the value back.
#[verifier::rlimit(100)]
proof fn lemma_parse_string_body_of(v: Seq<char>, rest: Seq<char>)
    ensures
        parse_string_body(json_escape(v) + seq!['"'] + rest) == Some((v, rest)),
    decreases v.len(),
{
    let s = json_escape(v) + seq!['"'] + rest;
    if v.len() == 0 {
        assert(s[0] == '"');
        assert(s.skip(1) =~= rest);
    } else {
        let c = v[0];
        let e = json_escape_char(c);
        lemma_json_escape_left(v);
        let tail = json_escape(v.skip(1)) + seq!['"'] + rest;
        assert(s =~= e + tail);
        lemma_parse_string_body_of(v.skip(1), rest);
        if c == '"' || c == '\\' || c == '\u{8}' || c == '\t' || c == '\n' || c == '\u{c}' || c
            == '\r' {
            assert(s[0] == '\\');
            assert(s[1] == e[1]);
            assert(e[1] != 'u');
            assert(unescape_short(e[1]) == Some(c));
            assert(s.skip(2) =~= tail);
            assert(seq![c] + v.skip(1) =~= v);
        } else if (c as u32) < 0x20 {
            let u = c as u32;
            assert(s[0] == '\\');
            assert(s[1] == 'u');
            assert(s.len() >= 6);
            assert(s[2] == '0');
            assert(s[3] == '0');
            assert(s[4] == hex_digit((u / 16) as int));
            assert(s[5] == hex_digit((u % 16) as int));
            lemma_hex_val_digit((u / 16) as int);
            lemma_hex_val_digit((u % 16) as int);
            let code = 0 * 4096 + 0 * 256 + ((u / 16) as int) * 16 + ((u % 16) as int);
            assert(code == u as int);
            assert(code < 0xD800);
            vstd::utf8::char_u32_cast(c, u);
            assert((code as char) == c) by {
                assert(((u as int) as char) == (u as char));
            }
            assert(s.skip(6) =~= tail);
            assert(seq![c] + v.skip(1) =~= v);
        } else {
            assert(e =~= seq![c]);
            assert(s[0] == c);
            assert(c != '"' && c != '\\');
            assert(s.skip(1) =~= tail);
            assert(seq![c] + v.skip(1) =~= v);
        }
    }
}

/// A join can be unfolded from the left as well.
proof fn lemma_join_left_unfold(vals: Seq<Seq<char>>, sep: char)
    requires
        vals.len() > 0,
    ensures
        join_with(vals, sep) == vals[0] + (if vals.len() == 1 {
            Seq::<char>::empty()
        } else {
            seq![sep] + join_with(vals.skip(1), sep)
        }),
    decreases vals.len(),
{
    if vals.len() == 1 {
        assert(join_with(vals, sep) == vals[0]);
        assert(vals[0] + Seq::<char>::empty() =~= vals[0]);
    } else {
        lemma_join_left_unfold(vals.drop_last(), sep);
        if vals.len() == 2 {
            assert(vals.drop_last() =~= seq![vals[0]]);
            assert(vals.skip(1) =~= seq![vals[1]]);
            assert(join_with(vals, sep) == join_with(vals.drop_last(), sep) + seq![sep]
                + vals.last());
            assert(vals[0] + (seq![sep] + join_with(vals.skip(1), sep)) =~= join_with(
                vals.drop_last(),
                sep,
            ) + seq![sep] + vals.last());
        } else {
            assert(vals.drop_last().len() > 1);
            assert(vals.drop_last()[0] == vals[0]);
            assert(vals.drop_last().skip(1) =~= vals.skip(1).drop_last());
            assert(join_with(vals, sep) == join_with(vals.drop_last(), sep) + seq![sep]
                + vals.last());
            assert(join_with(vals.skip(1), sep) == join_with(vals.skip(1).drop_last(), sep)
                + seq![sep] + vals.skip(1).last());
            assert(vals.skip(1).last() == vals.last());
            assert(vals[0] + (seq![sep] + (join_with(vals.skip(1).drop_last(), sep) + seq![sep]
                + vals.last())) =~= (vals[0] + (seq![sep] + join_with(
                vals.skip(1).drop_last(),
                sep,
            ))) + seq![sep] + vals.last());
        }
    }
}

/// The pairs a member list stands for.
pub open spec fn named_pairs(pairs: Seq<(Field, Seq<char>)>) -> Seq<(Seq<char>, Seq<char>)> {
    pairs.map_values(|p: (Field, Seq<char>)| (field_name(p.0), p.1))
}

/// Reading the members off an encoded member list consumes everything up
/// to and including the closing brace and yields every pair back.
#[verifier::rlimit(80)]
proof fn lemma_parse_members_of(pairs: Seq<(Field, Seq<char>)>)
    requires
        pairs.len() > 0,
    ensures
        parse_members(
            join_with(pairs.map_values(|p: (Field, Seq<char>)| json_member(p)), ',') + seq!['}'],
        ) == Some((named_pairs(pairs), Seq::<char>::empty())),
    decreases pairs.len(),
{
    let ms = pairs.map_values(|p: (Field, Seq<char>)| json_member(p));
    let s = join_with(ms, ',') + seq!['}'];
    lemma_join_left_unfold(ms, ',');
    let name = field_name(pairs[0].0);
    let value = pairs[0].1;
    assert(ms[0] == json_member(pairs[0]));
    assert(json_member(pairs[0]) == json_string(name) + seq![':'] + json_string(value));
    let tail = if pairs.len() == 1 {
        seq!['}']
    } else {
        seq![','] + join_with(ms.skip(1), ',') + seq!['}']
    };
    assert(s =~= json_string(name) + seq![':'] + json_string(value) + tail);
    assert(s[0] == '"');
    let rest1 = seq![':'] + json_string(value) + tail;
    assert(s.skip(1) =~= json_escape(name) + seq!['"'] + rest1);
    lemma_parse_string_body_of(name, rest1);
    assert(rest1[0] == ':');
    assert(rest1[1] == '"');
    assert(rest1.skip(2) =~= json_escape(value) + seq!['"'] + tail);
    lemma_parse_string_body_of(value, tail);
    if pairs.len() == 1 {
        assert(tail[0] == '}');
        assert(tail.skip(1) =~= Seq::<char>::empty());
        assert(seq![(name, value)] =~= named_pairs(pairs));
    } else {
        assert(tail[0] == ',');
        assert(ms.skip(1) =~= pairs.skip(1).map_values(|p: (Field, Seq<char>)| json_member(p)));
        assert(tail.skip(1) =~= join_with(
            pairs.skip(1).map_values(|p: (Field, Seq<char>)| json_member(p)),
            ',',
        ) + seq!['}']);
        lemma_parse_members_of(pairs.skip(1));
        assert(seq![(name, value)] + named_pairs(pairs.skip(1)) =~= named_pairs(pairs));
    }
}

/// Round trip: reading an encoded JSON line back yields exactly the
/// emitted fields, under their names, with exactly their original values —
/// nothing lost, nothing added.
pub proof fn lemma_json_round_trip(pairs: Seq<(Field, Seq<char>)>)
    ensures
        parse_json_line(json_line(pairs)) == Some(named_pairs(pairs)),
{
    let ms = pairs.map_values(|p: (Field, Seq<char>)| json_member(p));
    let s = json_line(pairs);
    if pairs.len() == 0 {
        assert(ms.len() == 0);
        assert(join_with(ms, ',') == Seq::<char>::empty());
        assert(s =~= seq!['{', '}']);
        assert(parse_json_line(s) == Some(Seq::<(Seq<char>, Seq<char>)>::empty()));
        assert(named_pairs(pairs) =~= Seq::<(Seq<char>, Seq<char>)>::empty());
    } else {
        assert(s[0] == '{');
        lemma_parse_members_of(pairs);
        assert(s.skip(1) =~= join_with(ms, ',') + seq!['}']);
        lemma_join_left_unfold(ms, ',');
        assert(json_member(pairs[0])[0] == '"');
        assert(s.len() >= 2);
        assert(s[1] == '"');
        assert(!(s.len() == 2 && s[1] == '}'));
    }
}

/// Round trip for a whole rendered record: reading the JSON line of a
/// projected record back yields exactly its selected fields, in the
/// computed order, with exactly their original values.
pub proof fn lemma_record_json_round_trip(argv: Seq<Seq<char>>, sel: FieldSelection, o: OutputV)
    ensures
        parse_json_line(spec_record_line(OutputFormat::Json, argv, sel, o)) == Some(
            named_pairs(
                ordered_pairs(
                    spec_project(o, sel),
                    spec_order_fields(argv, present_fields(spec_project(o, sel))),
                ),
            ),
        ),
{
    lemma_json_round_trip(
        ordered_pairs(
            spec_project(o, sel),
            spec_order_fields(argv, present_fields(spec_project(o, sel))),
        ),
    );
}

} // verus!
