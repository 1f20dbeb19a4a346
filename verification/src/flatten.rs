//! The flattener: reduces each catalog entity to at most one uniform
//! `Output` record, in input order, and reports a warning for each entity
//! that yields none.

use vstd::prelude::*;
use vstd::string::StringExecFns;

use crate::media::MediaEntity;
use crate::media::MediaEntityV;
use crate::media::MovieInfoV;
use crate::media::Output;
use crate::media::OutputV;
use crate::media::Warning;

verus! {

/// Canonical browse URL of a series.
pub open spec fn series_url(id: Seq<char>, slug: Seq<char>) -> Seq<char> {
    "https://www.crunchyroll.com/series/"@ + id + "/"@ + slug
}

/// Canonical watch URL of an episode or movie.
pub open spec fn watch_url(id: Seq<char>, slug: Seq<char>) -> Seq<char> {
    "https://www.crunchyroll.com/watch/"@ + id + "/"@ + slug
}

/// The record a single movie flattens to.
pub open spec fn movie_output(m: MovieInfoV) -> OutputV {
    OutputV {
        id: m.id,
        url: watch_url(m.id, m.slug_title),
        type_: "movie"@,
        title: m.title,
        description: m.description,
    }
}

/// An entity is skipped when it can never be represented as a record:
/// a season, or a movie listing that expands to no movie.
pub open spec fn skipped(e: MediaEntityV) -> bool {
    match e {
        MediaEntityV::Season => true,
        MediaEntityV::MovieListing { movies } => movies.len() == 0,
        _ => false,
    }
}

/// The records (none or one) a single entity flattens to.
pub open spec fn flatten_one(e: MediaEntityV) -> Seq<OutputV> {
    match e {
        MediaEntityV::Series { id, slug_title, title, description } => seq![
            OutputV {
                id: id,
                url: series_url(id, slug_title),
                type_: "series"@,
                title: title,
                description: description,
            },
        ],
        MediaEntityV::Season => seq![],
        MediaEntityV::Episode { id, slug_title, title, description } => seq![
            OutputV {
                id: id,
                url: watch_url(id, slug_title),
                type_: "episode"@,
                title: title,
                description: description,
            },
        ],
        MediaEntityV::MovieListing { movies } => if movies.len() > 0 {
            seq![movie_output(movies[0])]
        } else {
            seq![]
        },
        MediaEntityV::Movie { movie } => seq![movie_output(movie)],
    }
}

/// The warnings (none or one) a single entity gives rise to.
pub open spec fn warn_one(e: MediaEntityV) -> Seq<Warning> {
    match e {
        MediaEntityV::Season => seq![Warning::SeasonSkipped],
        MediaEntityV::MovieListing { movies } => if movies.len() == 0 {
            seq![Warning::EmptyMovieListing]
        } else {
            seq![]
        },
        _ => seq![],
    }
}

/// All records of a sequence of entities, in input order.
pub open spec fn spec_flatten(es: Seq<MediaEntityV>) -> Seq<OutputV>
    decreases es.len(),
{
    if es.len() == 0 {
        seq![]
    } else {
        flatten_one(es[0]) + spec_flatten(es.skip(1))
    }
}

/// All warnings of a sequence of entities, in input order.
pub open spec fn spec_warnings(es: Seq<MediaEntityV>) -> Seq<Warning>
    decreases es.len(),
{
    if es.len() == 0 {
        seq![]
    } else {
        warn_one(es[0]) + spec_warnings(es.skip(1))
    }
}

/// A single entity's records and warnings are exactly what `flatten_one`
/// and `warn_one` give for it.
pub proof fn lemma_flatten_singleton(e: MediaEntityV)
    ensures
        spec_flatten(seq![e]) == flatten_one(e),
        spec_warnings(seq![e]) == warn_one(e),
{
    reveal_with_fuel(spec_flatten, 2);
    reveal_with_fuel(spec_warnings, 2);
    assert(seq![e].skip(1) =~= Seq::<MediaEntityV>::empty());
    assert(spec_flatten(seq![e]) =~= flatten_one(e));
    assert(spec_warnings(seq![e]) =~= warn_one(e));
}

/// Flattening distributes over concatenation of entity sequences; in
/// particular the records of the entities of a prefix stand, unchanged and
/// in the same order, before the records of the rest.
pub proof fn lemma_flatten_concat(a: Seq<MediaEntityV>, b: Seq<MediaEntityV>)
    ensures
        spec_flatten(a + b) == spec_flatten(a) + spec_flatten(b),
        spec_warnings(a + b) == spec_warnings(a) + spec_warnings(b),
    decreases a.len(),
{
    if a.len() == 0 {
        assert(a + b =~= b);
        assert(spec_flatten(a) + spec_flatten(b) =~= spec_flatten(b));
        assert(spec_warnings(a) + spec_warnings(b) =~= spec_warnings(b));
    } else {
        assert((a + b).skip(1) =~= a.skip(1) + b);
        lemma_flatten_concat(a.skip(1), b);
        assert((a + b)[0] == a[0]);
        assert(flatten_one(a[0]) + (spec_flatten(a.skip(1)) + spec_flatten(b)) =~= (flatten_one(
            a[0],
        ) + spec_flatten(a.skip(1))) + spec_flatten(b));
        assert(warn_one(a[0]) + (spec_warnings(a.skip(1)) + spec_warnings(b)) =~= (warn_one(a[0])
            + spec_warnings(a.skip(1))) + spec_warnings(b));
    }
}

/// Flattening never yields more records than there were entities, and it
/// yields exactly one record per entity precisely when no entity is skipped,
/// that is, when no season and no empty movie listing is present.
pub proof fn lemma_flatten_len(es: Seq<MediaEntityV>)
    ensures
        spec_flatten(es).len() <= es.len(),
        spec_flatten(es).len() == es.len() <==> (forall|i: int|
            0 <= i < es.len() ==> !skipped(es[i])),
    decreases es.len(),
{
    if es.len() > 0 {
        lemma_flatten_len(es.skip(1));
        assert(flatten_one(es[0]).len() == if skipped(es[0]) {
            0int
        } else {
            1int
        });
        assert(forall|i: int| 0 <= i < es.skip(1).len() ==> es.skip(1)[i] == es[i + 1]);
        if spec_flatten(es).len() == es.len() {
            assert(forall|i: int| 0 <= i < es.len() ==> !skipped(es[i])) by {
                assert(!skipped(es[0]));
                assert(forall|i: int| 1 <= i < es.len() ==> es[i] == es.skip(1)[i - 1]);
            }
        }
        if forall|i: int| 0 <= i < es.len() ==> !skipped(es[i]) {
            assert(forall|i: int| 0 <= i < es.skip(1).len() ==> !skipped(es.skip(1)[i]));
        }
    }
}

/// How many records the first `i` entities produce.
pub open spec fn records_before(es: Seq<MediaEntityV>, i: int) -> int {
    spec_flatten(es.take(i)).len() as int
}

/// Flattening is order-stable: a non-skipped entity at position `i` yields
/// the record standing exactly after the records of the entities before it,
/// and that position never decreases as `i` grows.
pub proof fn lemma_flatten_stable(es: Seq<MediaEntityV>, i: int)
    requires
        0 <= i < es.len(),
        !skipped(es[i]),
    ensures
        records_before(es, i) < spec_flatten(es).len(),
        spec_flatten(es)[records_before(es, i)] == flatten_one(es[i])[0],
        forall|j: int| i < j <= es.len() ==> records_before(es, i) < records_before(es, j),
{
    assert(es =~= es.take(i) + es.skip(i));
    lemma_flatten_concat(es.take(i), es.skip(i));
    assert(es.skip(i).len() > 0);
    assert(es.skip(i)[0] == es[i]);
    assert(spec_flatten(es.skip(i)) == flatten_one(es[i]) + spec_flatten(es.skip(i).skip(1)));
    assert(flatten_one(es[i]).len() == 1);
    assert(spec_flatten(es)[records_before(es, i)] == spec_flatten(es.skip(i))[0]);
    assert forall|j: int| i < j <= es.len() implies records_before(es, i) < records_before(
        es,
        j,
    ) by {
        assert(es.take(j) =~= es.take(i) + es.subrange(i, j));
        lemma_flatten_concat(es.take(i), es.subrange(i, j));
        assert(es.subrange(i, j)[0] == es[i]);
        assert(spec_flatten(es.subrange(i, j)) == flatten_one(es[i]) + spec_flatten(
            es.subrange(i, j).skip(1),
        ));
    }
}

/// Builds the canonical browse URL of a series from its id and slug.
fn series_url_of(id: &String, slug: &String) -> (r: String)
    ensures
        r@ == series_url(id@, slug@),
{
    let mut r = "https://www.crunchyroll.com/series/".to_owned();
    r.append(id.as_str());
    r.append("/");
    r.append(slug.as_str());
    r
}

/// Builds the canonical watch URL of an episode or movie from its id and slug.
fn watch_url_of(id: &String, slug: &String) -> (r: String)
    ensures
        r@ == watch_url(id@, slug@),
{
    let mut r = "https://www.crunchyroll.com/watch/".to_owned();
    r.append(id.as_str());
    r.append("/");
    r.append(slug.as_str());
    r
}

/// Flattens every entity into at most one record, in input order, and
/// returns beside the records one warning for each skipped entity.
pub fn flatten(entities: &Vec<MediaEntity>) -> (res: (Vec<Output>, Vec<Warning>))
    ensures
        res.0.deep_view() == spec_flatten(entities.deep_view()),
        res.1@ == spec_warnings(entities.deep_view()),
{
    let ghost evs = entities.deep_view();
    let mut outs: Vec<Output> = Vec::new();
    let mut warns: Vec<Warning> = Vec::new();
    let mut i: usize = 0;
    while i < entities.len()
        invariant
            0 <= i <= entities.len(),
            evs == entities.deep_view(),
            evs.len() == entities.len(),
            outs.deep_view() == spec_flatten(evs.take(i as int)),
            warns@ == spec_warnings(evs.take(i as int)),
        decreases entities.len() - i,
    {
        proof {
            assert(evs.take(i + 1) =~= evs.take(i as int) + seq![evs[i as int]]);
            lemma_flatten_concat(evs.take(i as int), seq![evs[i as int]]);
            lemma_flatten_singleton(evs[i as int]);
            assert(evs[i as int] == entities@[i as int].deep_view());
        }
        match &entities[i] {
            MediaEntity::Series { id, slug_title, title, description } => {
                let out = Output {
                    id: id.clone(),
                    url: series_url_of(id, slug_title),
                    type_: "series".to_owned(),
                    title: title.clone(),
                    description: description.clone(),
                };
                outs.push(out);
            },
            MediaEntity::Season => {
                warns.push(Warning::SeasonSkipped);
            },
            MediaEntity::Episode { id, slug_title, title, description } => {
                let out = Output {
                    id: id.clone(),
                    url: watch_url_of(id, slug_title),
                    type_: "episode".to_owned(),
                    title: title.clone(),
                    description: description.clone(),
                };
                outs.push(out);
            },
            MediaEntity::MovieListing { movies } => {
                if movies.len() > 0 {
                    let m = &movies[0];
                    let out = Output {
                        id: m.id.clone(),
                        url: watch_url_of(&m.id, &m.slug_title),
                        type_: "movie".to_owned(),
                        title: m.title.clone(),
                        description: m.description.clone(),
                    };
                    outs.push(out);
                } else {
                    warns.push(Warning::EmptyMovieListing);
                }
            },
            MediaEntity::Movie { movie } => {
                let out = Output {
                    id: movie.id.clone(),
                    url: watch_url_of(&movie.id, &movie.slug_title),
                    type_: "movie".to_owned(),
                    title: movie.title.clone(),
                    description: movie.description.clone(),
                };
                outs.push(out);
            },
        }
        proof {
            assert(outs.deep_view() =~= spec_flatten(evs.take(i + 1)));
            assert(warns@ =~= spec_warnings(evs.take(i + 1)));
        }
        i = i + 1;
    }
    proof {
        assert(evs.take(evs.len() as int) =~= evs);
    }
    (outs, warns)
}

} // verus!
