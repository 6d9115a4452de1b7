//! The record types: a movie, its embedded director, and the id-less input
//! shape that create and update requests decode into.

use vstd::prelude::*;

verus! {

/// A movie's director, embedded by value in its movie.
pub struct Director {
    pub firstname: String,
    pub lastname: String,
}

/// Mathematical image of a `Director`.
pub struct DirectorView {
    pub firstname: Seq<char>,
    pub lastname: Seq<char>,
}

impl View for Director {
    type V = DirectorView;

    open spec fn view(&self) -> DirectorView {
        DirectorView { firstname: self.firstname@, lastname: self.lastname@ }
    }
}

impl Clone for Director {
    fn clone(&self) -> (r: Self)
        ensures
            r@ == self@,
    {
        Director { firstname: self.firstname.clone(), lastname: self.lastname.clone() }
    }
}

/// A stored movie record. The `id` is assigned by the store on creation and
/// never changes afterwards.
pub struct Movie {
    pub id: u128,
    pub isbn: String,
    pub title: String,
    pub director: Director,
}

/// Mathematical image of a `Movie`.
pub struct MovieView {
    pub id: u128,
    pub isbn: Seq<char>,
    pub title: Seq<char>,
    pub director: DirectorView,
}

impl View for Movie {
    type V = MovieView;

    open spec fn view(&self) -> MovieView {
        MovieView {
            id: self.id,
            isbn: self.isbn@,
            title: self.title@,
            director: self.director@,
        }
    }
}

impl Clone for Movie {
    fn clone(&self) -> (r: Self)
        ensures
            r@ == self@,
    {
        Movie {
            id: self.id,
            isbn: self.isbn.clone(),
            title: self.title.clone(),
            director: self.director.clone(),
        }
    }
}

/// What a create or update request carries: every movie field except the id,
/// which the store alone assigns.
pub struct MoviePayload {
    pub isbn: String,
    pub title: String,
    pub director: Director,
}

/// Mathematical image of a `MoviePayload`.
pub struct MoviePayloadView {
    pub isbn: Seq<char>,
    pub title: Seq<char>,
    pub director: DirectorView,
}

impl View for MoviePayload {
    type V = MoviePayloadView;

    open spec fn view(&self) -> MoviePayloadView {
        MoviePayloadView { isbn: self.isbn@, title: self.title@, director: self.director@ }
    }
}

impl Clone for MoviePayload {
    fn clone(&self) -> (r: Self)
        ensures
            r@ == self@,
    {
        MoviePayload {
            isbn: self.isbn.clone(),
            title: self.title.clone(),
            director: self.director.clone(),
        }
    }
}

/// The record a payload describes once the store has chosen an id for it.
pub open spec fn record_for(id: u128, payload: MoviePayloadView) -> MovieView {
    MovieView { id, isbn: payload.isbn, title: payload.title, director: payload.director }
}

} // verus!
