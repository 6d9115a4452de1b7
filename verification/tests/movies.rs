use movie_store::movie::{Director, Movie, MoviePayload};
use movie_store::store::{MovieStore, StoreError};
use movie_store::handlers::{create_movie, delete_movie_by_id, get_movie_by_id, get_movies,
    update_movie_by_id};

fn payload(isbn: &str, title: &str, first: &str, last: &str) -> MoviePayload {
    MoviePayload {
        isbn: isbn.to_string(),
        title: title.to_string(),
        director: Director { firstname: first.to_string(), lastname: last.to_string() },
    }
}

fn assert_movie(m: &Movie, isbn: &str, title: &str, first: &str, last: &str) {
    assert_eq!(m.isbn, isbn);
    assert_eq!(m.title, title);
    assert_eq!(m.director.firstname, first);
    assert_eq!(m.director.lastname, last);
}

/// An id that no record of `s` carries, found by scanning upwards from 0.
fn absent_id(s: &MovieStore) -> u128 {
    let mut v: u128 = 0;
    while s.contains(v) {
        v += 1;
    }
    v
}

#[test]
fn created_ids_pairwise_distinct() {
    let mut s = MovieStore::new();
    let mut ids: Vec<u128> = Vec::new();
    for k in 0..20 {
        let m = s.insert(payload(&format!("isbn-{k}"), &format!("title-{k}"), "F", "L"));
        ids.push(m.id);
    }
    for i in 0..ids.len() {
        for j in (i + 1)..ids.len() {
            assert_ne!(ids[i], ids[j]);
        }
    }
}

#[test]
fn list_len_after_creates_and_deletes() {
    let mut s = MovieStore::new();
    let mut ids: Vec<u128> = Vec::new();
    for k in 0..5 {
        let m = s.insert(payload(&format!("i{k}"), &format!("t{k}"), "F", "L"));
        ids.push(m.id);
    }
    assert!(s.delete(ids[1]).is_ok());
    assert!(s.delete(ids[3]).is_ok());
    let listed = s.list();
    assert_eq!(listed.len(), 3);
    let updated = s.update(ids[2], payload("i2-new", "t2-new", "F2", "L2"));
    assert!(updated.is_ok());
    let listed = s.list();
    assert_eq!(listed.len(), 3);
    for m in &listed {
        if m.id == ids[0] {
            assert_movie(m, "i0", "t0", "F", "L");
        } else if m.id == ids[2] {
            assert_movie(m, "i2-new", "t2-new", "F2", "L2");
        } else if m.id == ids[4] {
            assert_movie(m, "i4", "t4", "F", "L");
        } else {
            panic!("unexpected record in list");
        }
    }
}

#[test]
fn get_after_create_returns_stored() {
    let mut s = MovieStore::new();
    let created = s.insert(payload("978-1", "Some Film", "Jane", "Doe"));
    let got = s.get(created.id).expect("created record must be found");
    assert_eq!(got.id, created.id);
    assert_movie(&got, "978-1", "Some Film", "Jane", "Doe");
}

#[test]
fn update_absent_id_not_found_and_store_unchanged() {
    let mut s = MovieStore::new();
    s.insert(payload("a", "A", "F1", "L1"));
    s.insert(payload("b", "B", "F2", "L2"));
    let before: Vec<Movie> = s.list();
    let missing = absent_id(&s);
    let r = s.update(missing, payload("x", "X", "F", "L"));
    assert!(matches!(r, Err(StoreError::NotFound)));
    let after: Vec<Movie> = s.list();
    assert_eq!(before.len(), after.len());
    for (m1, m2) in before.iter().zip(after.iter()) {
        assert_eq!(m1.id, m2.id);
        assert_eq!(m1.isbn, m2.isbn);
        assert_eq!(m1.title, m2.title);
        assert_eq!(m1.director.firstname, m2.director.firstname);
        assert_eq!(m1.director.lastname, m2.director.lastname);
    }
}

#[test]
fn delete_present_removes_exactly_that_record() {
    let mut s = MovieStore::new();
    let m0 = s.insert(payload("a", "A", "F1", "L1"));
    let m1 = s.insert(payload("b", "B", "F2", "L2"));
    let m2 = s.insert(payload("c", "C", "F3", "L3"));
    assert!(s.delete(m1.id).is_ok());
    assert!(matches!(s.get(m1.id), Err(StoreError::NotFound)));
    let listed = s.list();
    assert_eq!(listed.len(), 2);
    assert!(listed.iter().any(|m| m.id == m0.id && m.isbn == "a"));
    assert!(listed.iter().any(|m| m.id == m2.id && m.isbn == "c"));
}

#[test]
fn delete_absent_id_not_found_and_store_unchanged() {
    let mut s = MovieStore::new();
    let m0 = s.insert(payload("a", "A", "F1", "L1"));
    let missing = absent_id(&s);
    let r = s.delete(missing);
    assert!(matches!(r, Err(StoreError::NotFound)));
    let listed = s.list();
    assert_eq!(listed.len(), 1);
    assert_eq!(listed[0].id, m0.id);
}

#[test]
fn get_on_empty_store_not_found() {
    let s = MovieStore::new();
    assert!(matches!(s.get(0), Err(StoreError::NotFound)));
    assert!(s.list().is_empty());
}

#[test]
fn update_present_keeps_id_and_overwrites_fields() {
    let mut s = MovieStore::new();
    let created = s.insert(payload("old-isbn", "Old", "Of", "Ol"));
    let updated = s.update(created.id, payload("new-isbn", "New", "Nf", "Nl"))
        .expect("present record must update");
    assert_eq!(updated.id, created.id);
    assert_movie(&updated, "new-isbn", "New", "Nf", "Nl");
    let got = s.get(created.id).expect("updated record must be found");
    assert_movie(&got, "new-isbn", "New", "Nf", "Nl");
}

#[test]
fn seeded_store_has_two_records_keyed_by_their_own_ids() {
    let s = MovieStore::new_seeded();
    let listed = s.list();
    assert_eq!(listed.len(), 2);
    assert_ne!(listed[0].id, listed[1].id);
    for m in &listed {
        let got = s.get(m.id).expect("seed record must be found under its embedded id");
        assert_eq!(got.id, m.id);
    }
    assert_movie(&listed[0], "978-3-16-148410-0", "The Lord of the Rings", "Peter", "Jackson");
    assert_movie(
        &listed[1],
        "978-0-06-055812-8",
        "The Hitchhiker's Guide to the Galaxy",
        "Garth",
        "Jennings",
    );
}

#[test]
fn handlers_end_to_end_scenario() {
    let mut store = MovieStore::new();

    let created = create_movie(&mut store, payload("111", "A", "B", "C"));
    assert_eq!(created.status, 201);
    let body = created.body.expect("create must return the stored record");
    assert_movie(&body, "111", "A", "B", "C");
    let id = body.id;

    let got = get_movie_by_id(&store, id);
    assert_eq!(got.status, 200);
    let got_body = got.body.expect("created record must be returned");
    assert_eq!(got_body.id, id);
    assert_movie(&got_body, "111", "A", "B", "C");

    let put = update_movie_by_id(&mut store, id, payload("222", "A2", "B", "C"));
    assert_eq!(put.status, 200);
    let put_body = put.body.expect("updated record must be returned");
    assert_eq!(put_body.id, id);
    assert_movie(&put_body, "222", "A2", "B", "C");

    let deleted = delete_movie_by_id(&mut store, id);
    assert_eq!(deleted.status, 204);
    assert!(deleted.body.is_none());

    let gone = get_movie_by_id(&store, id);
    assert_eq!(gone.status, 404);
    assert!(gone.body.is_none());
}

#[test]
fn handlers_list_and_not_found_statuses() {
    let mut store = MovieStore::new();
    let listed = get_movies(&store);
    assert_eq!(listed.status, 200);
    assert!(listed.body.is_empty());

    let missing = absent_id(&store);
    assert_eq!(get_movie_by_id(&store, missing).status, 404);
    assert_eq!(update_movie_by_id(&mut store, missing, payload("x", "X", "F", "L")).status, 404);
    assert_eq!(delete_movie_by_id(&mut store, missing).status, 404);

    let created = create_movie(&mut store, payload("i", "T", "F", "L"));
    assert_eq!(created.status, 201);
    let listed = get_movies(&store);
    assert_eq!(listed.status, 200);
    assert_eq!(listed.body.len(), 1);
}
