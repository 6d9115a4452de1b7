//! The request handlers: five stateless transactions against the store,
//! each mapping its outcome to an HTTP status code and an optional body.
//! Decoding bodies and path parameters, and the exclusive lock around the
//! store, are the embedding HTTP layer's task.

use vstd::prelude::*;
use crate::movie::{Movie, MoviePayload, record_for};
use crate::store::{MovieStore, StoreError, contains_id, index_of_id, record_of, views_of};

verus! {

/// A response carrying at most one record.
pub struct MovieResponse {
    pub status: u16,
    pub body: Option<Movie>,
}

/// The response to a list request: a snapshot of every record.
pub struct ListResponse {
    pub status: u16,
    pub body: Vec<Movie>,
}

/// List all movies: HTTP 200 with a copy of every record.
pub fn get_movies(store: &MovieStore) -> (r: ListResponse)
    ensures
        r.status == 200,
        views_of(r.body@) == store@,
{
    ListResponse { status: 200, body: store.list() }
}

/// Get one movie: HTTP 200 with the record carrying `id`, or 404.
pub fn get_movie_by_id(store: &MovieStore, id: u128) -> (r: MovieResponse)
    requires
        store.wf(),
    ensures
        contains_id(store@, id) ==> r.status == 200
            && (r.body matches Some(m) && m@ == record_of(store@, id)),
        !contains_id(store@, id) ==> r.status == 404 && r.body is None,
{
    match store.get(id) {
        Ok(m) => MovieResponse { status: 200, body: Some(m) },
        Err(StoreError::NotFound) => MovieResponse { status: 404, body: None },
    }
}

/// Create a movie: assign a fresh id, append the record, HTTP 201 with the
/// stored record. Any id the request carried was dropped at decode time:
/// the payload has no id field.
pub fn create_movie(store: &mut MovieStore, payload: MoviePayload) -> (r: MovieResponse)
    requires
        old(store).wf(),
    ensures
        final(store).wf(),
        r.status == 201,
        r.body matches Some(m) && m@ == record_for(m@.id, payload@)
            && !contains_id(old(store)@, m@.id)
            && final(store)@ == old(store)@.push(m@)
            && contains_id(final(store)@, m@.id)
            && record_of(final(store)@, m@.id) == m@,
{
    let m = store.insert(payload);
    MovieResponse { status: 201, body: Some(m) }
}

/// Update one movie: overwrite its fields in place (the id never changes),
/// HTTP 200 with the updated record, or 404 leaving the store unchanged.
pub fn update_movie_by_id(store: &mut MovieStore, id: u128, payload: MoviePayload) -> (r:
    MovieResponse)
    requires
        old(store).wf(),
    ensures
        final(store).wf(),
        contains_id(old(store)@, id) ==> r.status == 200
            && (r.body matches Some(m) && m@ == record_for(id, payload@)
                && final(store)@ == old(store)@.update(index_of_id(old(store)@, id), m@)),
        !contains_id(old(store)@, id) ==> r.status == 404 && r.body is None
            && final(store)@ == old(store)@,
{
    match store.update(id, payload) {
        Ok(m) => MovieResponse { status: 200, body: Some(m) },
        Err(StoreError::NotFound) => MovieResponse { status: 404, body: None },
    }
}

/// Delete one movie: remove exactly the record carrying `id`, HTTP 204 with
/// an empty body, or 404 leaving the store unchanged.
pub fn delete_movie_by_id(store: &mut MovieStore, id: u128) -> (r: MovieResponse)
    requires
        old(store).wf(),
    ensures
        final(store).wf(),
        contains_id(old(store)@, id) ==> r.status == 204 && r.body is None
            && final(store)@ == old(store)@.remove(index_of_id(old(store)@, id))
            && !contains_id(final(store)@, id),
        !contains_id(old(store)@, id) ==> r.status == 404 && r.body is None
            && final(store)@ == old(store)@,
{
    match store.delete(id) {
        Ok(()) => MovieResponse { status: 204, body: None },
        Err(StoreError::NotFound) => MovieResponse { status: 404, body: None },
    }
}

} // verus!
