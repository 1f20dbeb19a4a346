//! The field orderer: the present fields of a record are emitted in the
//! order in which their `--<field>` flags first occur in the argument
//! vector; present fields whose flag never occurs follow at the end, in
//! schema order. The order depends only on the argument vector and on which
//! fields are present, so it is the same for every record of an invocation.

use vstd::prelude::*;

use vstd::multiset::Multiset;

use crate::project::Field;
use crate::project::FormattedOutput;
use crate::project::FormattedOutputV;
use crate::text::str_eq;

verus! {

/// The name under which a field is emitted.
pub open spec fn field_name(f: Field) -> Seq<char> {
    match f {
        Field::Id => "id"@,
        Field::Url => "url"@,
        Field::Type => "type"@,
        Field::Title => "title"@,
        Field::Description => "description"@,
    }
}

/// The command-line flag that selects a field.
pub open spec fn flag_of(f: Field) -> Seq<char> {
    match f {
        Field::Id => "--id"@,
        Field::Url => "--url"@,
        Field::Type => "--type"@,
        Field::Title => "--title"@,
        Field::Description => "--description"@,
    }
}

/// The present fields of a projected record, in schema order.
pub open spec fn present_fields(rec: FormattedOutputV) -> Seq<Field> {
    (if rec.id is Some {
        seq![Field::Id]
    } else {
        seq![]
    }) + (if rec.url is Some {
        seq![Field::Url]
    } else {
        seq![]
    }) + (if rec.type_ is Some {
        seq![Field::Type]
    } else {
        seq![]
    }) + (if rec.title is Some {
        seq![Field::Title]
    } else {
        seq![]
    }) + (if rec.description is Some {
        seq![Field::Description]
    } else {
        seq![]
    })
}

/// The least index of a field in `fields` whose flag is `arg`, if any.
pub open spec fn find_flag(arg: Seq<char>, fields: Seq<Field>) -> Option<int>
    decreases fields.len(),
{
    if fields.len() == 0 {
        None
    } else if flag_of(fields[0]) == arg {
        Some(0int)
    } else {
        match find_flag(arg, fields.skip(1)) {
            Some(j) => Some(j + 1),
            None => None,
        }
    }
}

/// One left-to-right pass over the argument vector: each argument that is
/// the flag of a still-unplaced field places that field next. Returns the
/// placed fields, in placement order, and the fields never placed, in
/// their original order.
pub open spec fn scan_flags(argv: Seq<Seq<char>>, remaining: Seq<Field>) -> (Seq<Field>, Seq<
    Field,
>)
    decreases argv.len(),
{
    if argv.len() == 0 {
        (seq![], remaining)
    } else {
        match find_flag(argv[0], remaining) {
            Some(j) => {
                let p = scan_flags(argv.skip(1), remaining.remove(j));
                (seq![remaining[j]] + p.0, p.1)
            },
            None => scan_flags(argv.skip(1), remaining),
        }
    }
}

/// The order in which a record's present fields are emitted: first the
/// fields whose flags occur in the argument vector, by first occurrence,
/// then the present fields never flagged, in schema order.
pub open spec fn spec_order_fields(argv: Seq<Seq<char>>, present: Seq<Field>) -> Seq<Field> {
    scan_flags(argv, present).0 + scan_flags(argv, present).1
}

/// Ordering is deterministic: it is a function of the argument vector and
/// the present-field set alone, so any two records of one invocation with
/// the same present fields are ordered identically.
pub proof fn lemma_order_deterministic(argv: Seq<Seq<char>>, p1: Seq<Field>, p2: Seq<Field>)
    requires
        p1 == p2,
    ensures
        spec_order_fields(argv, p1) == spec_order_fields(argv, p2),
{
}

/// The two halves of a scan together hold each remaining field exactly
/// once: scanning only reorders, it neither drops nor repeats a field.
proof fn lemma_scan_flags_permutes(argv: Seq<Seq<char>>, rem: Seq<Field>)
    ensures
        scan_flags(argv, rem).0.to_multiset().add(scan_flags(argv, rem).1.to_multiset())
            == rem.to_multiset(),
    decreases argv.len(),
{
    broadcast use vstd::multiset::group_multiset_axioms;
    broadcast use vstd::seq_lib::group_to_multiset_ensures;

    if argv.len() == 0 {
        assert(scan_flags(argv, rem).0.to_multiset().len() == 0);
        assert(scan_flags(argv, rem).0.to_multiset() =~= Multiset::<Field>::empty());
        assert(Multiset::<Field>::empty().add(rem.to_multiset()) =~= rem.to_multiset());
    } else {
        match find_flag(argv[0], rem) {
            Some(j) => {
                lemma_find_flag_in_range(argv[0], rem);
                lemma_scan_flags_permutes(argv.skip(1), rem.remove(j));
                let p = scan_flags(argv.skip(1), rem.remove(j));
                vstd::seq_lib::lemma_multiset_commutative(seq![rem[j]], p.0);
                assert(Seq::<Field>::empty().push(rem[j]) =~= seq![rem[j]]);
                assert(seq![rem[j]].to_multiset() =~= Multiset::<Field>::empty().insert(rem[j]));
                assert(rem.remove(j).to_multiset() == rem.to_multiset().remove(rem[j]));
                assert(rem.to_multiset().count(rem[j]) > 0) by {
                    assert(rem.contains(rem[j]));
                }
                assert(scan_flags(argv, rem).0 == seq![rem[j]] + p.0);
                assert(scan_flags(argv, rem).1 == p.1);
                assert((seq![rem[j]] + p.0).to_multiset() =~= seq![rem[j]].to_multiset().add(
                    p.0.to_multiset(),
                ));
                assert forall|f: Field|
                    scan_flags(argv, rem).0.to_multiset().add(
                        scan_flags(argv, rem).1.to_multiset(),
                    ).count(f) == rem.to_multiset().count(f) by {
                    assert(p.0.to_multiset().add(p.1.to_multiset()).count(f) == rem.to_multiset()
                        .remove(rem[j]).count(f));
                }
                assert(scan_flags(argv, rem).0.to_multiset().add(
                    scan_flags(argv, rem).1.to_multiset(),
                ) =~= rem.to_multiset());
            },
            None => {
                lemma_scan_flags_permutes(argv.skip(1), rem);
            },
        }
    }
}

/// Every field the ordering emits was present, and every present field is
/// emitted exactly once: the ordering is a permutation of the present
/// fields.
pub proof fn lemma_order_fields_permutes(argv: Seq<Seq<char>>, present: Seq<Field>)
    ensures
        spec_order_fields(argv, present).to_multiset() == present.to_multiset(),
{
    broadcast use vstd::multiset::group_multiset_axioms;

    lemma_scan_flags_permutes(argv, present);
    vstd::seq_lib::lemma_multiset_commutative(
        scan_flags(argv, present).0,
        scan_flags(argv, present).1,
    );
}

/// A found flag index lies inside the field list.
proof fn lemma_find_flag_in_range(arg: Seq<char>, fields: Seq<Field>)
    ensures
        match find_flag(arg, fields) {
            Some(j) => 0 <= j < fields.len() && flag_of(fields[j]) == arg,
            None => forall|k: int| 0 <= k < fields.len() ==> flag_of(fields[k]) != arg,
        },
    decreases fields.len(),
{
    if fields.len() > 0 {
        lemma_find_flag_in_range(arg, fields.skip(1));
        if flag_of(fields[0]) != arg {
            assert(forall|k: int| 1 <= k < fields.len() ==> fields[k] == fields.skip(1)[k - 1]);
        }
    }
}

/// `find_flag` returns the least matching index.
proof fn lemma_find_flag_first(arg: Seq<char>, fields: Seq<Field>, j: int)
    requires
        0 <= j < fields.len(),
        flag_of(fields[j]) == arg,
        forall|k: int| 0 <= k < j ==> flag_of(fields[k]) != arg,
    ensures
        find_flag(arg, fields) == Some(j),
    decreases fields.len(),
{
    if j > 0 {
        assert(forall|k: int| 0 <= k < fields.skip(1).len() ==> fields.skip(1)[k] == fields[k + 1]);
        lemma_find_flag_first(arg, fields.skip(1), j - 1);
    }
}

/// `find_flag` finds nothing when nothing matches.
proof fn lemma_find_flag_none(arg: Seq<char>, fields: Seq<Field>)
    requires
        forall|k: int| 0 <= k < fields.len() ==> flag_of(fields[k]) != arg,
    ensures
        find_flag(arg, fields) is None,
{
    lemma_find_flag_in_range(arg, fields);
    if find_flag(arg, fields) is Some {
        let j = find_flag(arg, fields)->Some_0;
        assert(flag_of(fields[j]) == arg);
    }
}

/// The present fields of a record, in schema order.
pub fn present_fields_of(rec: &FormattedOutput) -> (r: Vec<Field>)
    ensures
        r@ == present_fields(rec@),
{
    let mut r: Vec<Field> = Vec::new();
    if rec.id.is_some() {
        r.push(Field::Id);
    }
    if rec.url.is_some() {
        r.push(Field::Url);
    }
    if rec.type_.is_some() {
        r.push(Field::Type);
    }
    if rec.title.is_some() {
        r.push(Field::Title);
    }
    if rec.description.is_some() {
        r.push(Field::Description);
    }
    proof {
        assert(r@ =~= present_fields(rec@));
    }
    r
}

/// The flag that selects a field.
fn flag_str(f: Field) -> (r: &'static str)
    ensures
        r@ == flag_of(f),
{
    match f {
        Field::Id => "--id",
        Field::Url => "--url",
        Field::Type => "--type",
        Field::Title => "--title",
        Field::Description => "--description",
    }
}

/// Finds the first field in the list whose flag is the given argument.
fn find_flag_in(arg: &str, fields: &Vec<Field>) -> (r: Option<usize>)
    ensures
        match r {
            Some(j) => find_flag(arg@, fields@) == Some(j as int),
            None => find_flag(arg@, fields@) is None,
        },
{
    let m = fields.len();
    let mut j: usize = 0;
    while j < m
        invariant
            m == fields@.len(),
            0 <= j <= m,
            forall|k: int| 0 <= k < j ==> flag_of(fields@[k]) != arg@,
        decreases m - j,
    {
        if str_eq(arg, flag_str(fields[j])) {
            proof {
                lemma_find_flag_first(arg@, fields@, j as int);
            }
            return Some(j);
        }
        j = j + 1;
    }
    proof {
        lemma_find_flag_none(arg@, fields@);
    }
    None
}

/// Orders the present fields of a record by the first occurrence of their
/// flags in the argument vector, the never-flagged ones following in
/// schema order.
pub fn order_fields(rec: &FormattedOutput, argv: &Vec<String>) -> (r: Vec<Field>)
    ensures
        r@ == spec_order_fields(argv.deep_view(), present_fields(rec@)),
{
    let ghost argvv = argv.deep_view();
    let ghost present = present_fields(rec@);
    let mut placed: Vec<Field> = Vec::new();
    let mut remaining: Vec<Field> = present_fields_of(rec);
    let n = argv.len();
    proof {
        assert(argvv.skip(0) =~= argvv);
    }
    let mut i: usize = 0;
    while i < n
        invariant
            n == argv.len(),
            argvv == argv.deep_view(),
            argvv.len() == n,
            0 <= i <= n,
            scan_flags(argvv, present).0 == placed@ + scan_flags(
                argvv.skip(i as int),
                remaining@,
            ).0,
            scan_flags(argvv, present).1 == scan_flags(argvv.skip(i as int), remaining@).1,
        decreases n - i,
    {
        let ghost pl0 = placed@;
        let ghost rem0 = remaining@;
        let arg: &String = &argv[i];
        proof {
            assert(argvv.skip(i as int)[0] == argvv[i as int]);
            assert(argvv[i as int] == arg@);
            assert(argvv.skip(i as int).skip(1) =~= argvv.skip(i + 1));
        }
        match find_flag_in(arg.as_str(), &remaining) {
            Some(j) => {
                proof {
                    lemma_find_flag_in_range(arg@, remaining@);
                }
                let f = remaining.remove(j);
                placed.push(f);
                proof {
                    assert(placed@ =~= pl0 + seq![rem0[j as int]]);
                    assert(scan_flags(argvv.skip(i as int), rem0).0 == seq![rem0[j as int]]
                        + scan_flags(argvv.skip(i + 1), remaining@).0);
                    assert(pl0 + (seq![rem0[j as int]] + scan_flags(argvv.skip(i + 1), remaining@).0)
                        =~= placed@ + scan_flags(argvv.skip(i + 1), remaining@).0);
                }
            },
            None => {},
        }
        i = i + 1;
    }
    proof {
        assert(argvv.skip(n as int) =~= Seq::<Seq<char>>::empty());
        assert(scan_flags(argvv.skip(n as int), remaining@) == (Seq::<Field>::empty(), remaining@));
        assert(placed@ + Seq::<Field>::empty() =~= placed@);
    }
    placed.append(&mut remaining);
    placed
}

} // verus!
