//! The data model: catalog entities as the resolver hands them over, and the
//! uniform `Output` record that the flattener produces from them.

use vstd::prelude::*;

verus! {

/// Plain data of a single movie: its identifier, the URL slug, and the two
/// descriptive texts.
pub struct MovieInfo {
    pub id: String,
    pub slug_title: String,
    pub title: String,
    pub description: String,
}

/// Ghost image of a `MovieInfo`: every text field as a sequence of characters.
pub struct MovieInfoV {
    pub id: Seq<char>,
    pub slug_title: Seq<char>,
    pub title: Seq<char>,
    pub description: Seq<char>,
}

impl View for MovieInfo {
    type V = MovieInfoV;

    open spec fn view(&self) -> MovieInfoV {
        MovieInfoV {
            id: self.id@,
            slug_title: self.slug_title@,
            title: self.title@,
            description: self.description@,
        }
    }
}

impl DeepView for MovieInfo {
    type V = MovieInfoV;

    open spec fn deep_view(&self) -> MovieInfoV {
        self.view()
    }
}

/// One catalog entity, already resolved to plain data. A `MovieListing`
/// carries the movies it expands to, in catalog order; a `Season` carries
/// nothing, since no record is ever produced from it.
pub enum MediaEntity {
    Series { id: String, slug_title: String, title: String, description: String },
    Season,
    Episode { id: String, slug_title: String, title: String, description: String },
    MovieListing { movies: Vec<MovieInfo> },
    Movie { movie: MovieInfo },
}

/// Ghost image of a `MediaEntity`.
pub enum MediaEntityV {
    Series { id: Seq<char>, slug_title: Seq<char>, title: Seq<char>, description: Seq<char> },
    Season,
    Episode { id: Seq<char>, slug_title: Seq<char>, title: Seq<char>, description: Seq<char> },
    MovieListing { movies: Seq<MovieInfoV> },
    Movie { movie: MovieInfoV },
}

impl View for MediaEntity {
    type V = MediaEntityV;

    open spec fn view(&self) -> MediaEntityV {
        match self {
            MediaEntity::Series { id, slug_title, title, description } => MediaEntityV::Series {
                id: id@,
                slug_title: slug_title@,
                title: title@,
                description: description@,
            },
            MediaEntity::Season => MediaEntityV::Season,
            MediaEntity::Episode { id, slug_title, title, description } => MediaEntityV::Episode {
                id: id@,
                slug_title: slug_title@,
                title: title@,
                description: description@,
            },
            MediaEntity::MovieListing { movies } => MediaEntityV::MovieListing {
                movies: movies.deep_view(),
            },
            MediaEntity::Movie { movie } => MediaEntityV::Movie { movie: movie@ },
        }
    }
}

impl DeepView for MediaEntity {
    type V = MediaEntityV;

    open spec fn deep_view(&self) -> MediaEntityV {
        self.view()
    }
}

/// The uniform record a flattenable entity turns into.
#[derive(Clone, Debug)]
pub struct Output {
    pub id: String,
    pub url: String,
    pub type_: String,
    pub title: String,
    pub description: String,
}

/// Ghost image of an `Output`.
pub struct OutputV {
    pub id: Seq<char>,
    pub url: Seq<char>,
    pub type_: Seq<char>,
    pub title: Seq<char>,
    pub description: Seq<char>,
}

impl View for Output {
    type V = OutputV;

    open spec fn view(&self) -> OutputV {
        OutputV {
            id: self.id@,
            url: self.url@,
            type_: self.type_@,
            title: self.title@,
            description: self.description@,
        }
    }
}

impl DeepView for Output {
    type V = OutputV;

    open spec fn deep_view(&self) -> OutputV {
        self.view()
    }
}

/// Diagnostics for entities that produce no record. They are returned as
/// values so that the caller can report them on whatever channel it likes.
#[derive(Clone, Copy, Debug, PartialEq, Eq, Structural)]
pub enum Warning {
    /// A season entity was encountered; seasons are never flattened.
    SeasonSkipped,
    /// A movie listing expanded to no movies at all.
    EmptyMovieListing,
}

} // verus!
