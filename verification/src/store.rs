//! The record store: the single system of record, a mapping from generated
//! identifier to movie record with pairwise-distinct ids.

use vstd::prelude::*;
use crate::movie::{Director, DirectorView, Movie, MovieView, MoviePayload, MoviePayloadView,
    record_for};
use vstd::string::StringExecFns;

verus! {

/// The one domain-level failure: the requested id is absent.
#[derive(Clone, Copy, Debug, PartialEq, Eq, Structural)]
pub enum StoreError {
    NotFound,
}

/// Whether some record in `s` carries `id`.
pub open spec fn contains_id(s: Seq<MovieView>, id: u128) -> bool {
    exists|i: int| 0 <= i < s.len() && s[i].id == id
}

/// The position of the record carrying `id`; meaningful only when
/// `contains_id(s, id)` holds, and unique under `unique_ids(s)`.
pub open spec fn index_of_id(s: Seq<MovieView>, id: u128) -> int {
    choose|i: int| 0 <= i < s.len() && s[i].id == id
}

/// The record carrying `id`; meaningful only when `contains_id(s, id)`.
pub open spec fn record_of(s: Seq<MovieView>, id: u128) -> MovieView {
    s[index_of_id(s, id)]
}

/// No two records carry the same id.
pub open spec fn unique_ids(s: Seq<MovieView>) -> bool {
    forall|i: int, j: int| 0 <= i < j < s.len() ==> s[i].id != s[j].id
}

/// The views of a sequence of records.
pub open spec fn views_of(s: Seq<Movie>) -> Seq<MovieView> {
    s.map_values(|m: Movie| m@)
}

/// The in-memory system of record. All access in a concurrent setting must
/// go through one exclusive lock, which the embedding process supplies.
pub struct MovieStore {
    movies: Vec<Movie>,
}

impl View for MovieStore {
    type V = Seq<MovieView>;

    closed spec fn view(&self) -> Seq<MovieView> {
        views_of(self.movies@)
    }
}

impl MovieStore {
    /// Store invariant: ids are pairwise distinct.
    pub open spec fn wf(self) -> bool {
        unique_ids(self@)
    }

    /// An empty store.
    pub fn new() -> (s: MovieStore)
        ensures
            s@ == Seq::<MovieView>::empty(),
            s.wf(),
    {
        let s = MovieStore { movies: Vec::new() };
        proof {
            assert(s@ =~= Seq::<MovieView>::empty());
        }
        s
    }

    /// Position of the record carrying `id`, if any.
    fn find_index(&self, id: u128) -> (r: Option<usize>)
        ensures
            match r {
                Some(i) => i < self@.len() && self@[i as int].id == id,
                None => !contains_id(self@, id),
            },
    {
        let mut k: usize = 0;
        while k < self.movies.len()
            invariant
                k <= self.movies.len(),
                forall|j: int| 0 <= j < k ==> self@[j].id != id,
            decreases self.movies.len() - k,
        {
            if self.movies[k].id == id {
                return Some(k);
            }
            k += 1;
        }
        None
    }

    /// Whether a record with this id is currently stored.
    pub fn contains(&self, id: u128) -> (r: bool)
        ensures
            r == contains_id(self@, id),
    {
        self.find_index(id).is_some()
    }

    /// Look up the record carrying `id`: a copy of it, or `NotFound`.
    pub fn get(&self, id: u128) -> (r: Result<Movie, StoreError>)
        requires
            self.wf(),
        ensures
            r is Ok <==> contains_id(self@, id),
            r matches Ok(m) ==> m@ == record_of(self@, id) && m@.id == id,
            r is Err ==> r == Err::<Movie, StoreError>(StoreError::NotFound),
    {
        match self.find_index(id) {
            Some(i) => {
                let m = self.movies[i].clone();
                proof {
                    lemma_unique_index(self@, id, i as int);
                }
                Ok(m)
            }
            None => Err(StoreError::NotFound),
        }
    }

    /// A generated id unused in this store. Generation draws random 128-bit
    /// values until one misses every stored record; in practice the first
    /// draw collides only with negligible probability. Should every draw
    /// collide, the smallest unused value steps in: among `0 ..= n` with `n`
    /// records stored, one value must be free.
    fn fresh_id(&self) -> (id: u128)
        requires
            self.wf(),
        ensures
            !contains_id(self@, id),
    {
        let mut tries: usize = 0;
        while tries < 16
            decreases 16 - tries,
        {
            let id = generate_id();
            if !self.contains(id) {
                return id;
            }
            tries += 1;
        }
        let n: u128 = self.movies.len() as u128;
        let mut v: u128 = 0;
        while v <= n
            invariant
                n == self@.len(),
                n <= usize::MAX as u128,
                v <= n + 1,
                forall|w: int| 0 <= w < v ==> #[trigger] contains_id(self@, w as u128),
            decreases n + 1 - v,
        {
            if !self.contains(v) {
                return v;
            }
            v = v + 1;
        }
        proof {
            lemma_some_small_id_free(self@);
        }
        0
    }

    /// Create: choose a fresh id for `payload`, append the record, and hand
    /// back a copy of what was stored.
    pub fn insert(&mut self, payload: MoviePayload) -> (m: Movie)
        requires
            old(self).wf(),
        ensures
            final(self).wf(),
            !contains_id(old(self)@, m@.id),
            m@ == record_for(m@.id, payload@),
            final(self)@ == old(self)@.push(m@),
            contains_id(final(self)@, m@.id),
            record_of(final(self)@, m@.id) == m@,
    {
        let id = self.fresh_id();
        let stored = Movie {
            id,
            isbn: payload.isbn,
            title: payload.title,
            director: payload.director,
        };
        let copy = stored.clone();
        let ghost s0 = self@;
        self.movies.push(stored);
        proof {
            assert(self@ =~= s0.push(copy@));
            lemma_push_fresh_keeps_unique(s0, copy@);
            assert(self@[s0.len() as int] == copy@);
            lemma_unique_index(self@, copy@.id, s0.len() as int);
        }
        copy
    }

    /// Update: overwrite isbn, title and director of the record carrying
    /// `id` in place (the id never changes), or `NotFound` if absent.
    pub fn update(&mut self, id: u128, payload: MoviePayload) -> (r: Result<Movie, StoreError>)
        requires
            old(self).wf(),
        ensures
            final(self).wf(),
            r is Ok <==> contains_id(old(self)@, id),
            r matches Ok(m) ==> m@ == record_for(id, payload@)
                && final(self)@ == old(self)@.update(index_of_id(old(self)@, id), m@)
                && contains_id(final(self)@, id)
                && record_of(final(self)@, id) == m@,
            r is Err ==> final(self)@ == old(self)@
                && r == Err::<Movie, StoreError>(StoreError::NotFound),
    {
        match self.find_index(id) {
            Some(i) => {
                let updated = Movie {
                    id,
                    isbn: payload.isbn,
                    title: payload.title,
                    director: payload.director,
                };
                let copy = updated.clone();
                let ghost s0 = self@;
                self.movies[i] = updated;
                proof {
                    assert(self@ =~= s0.update(i as int, copy@));
                    lemma_unique_index(s0, id, i as int);
                    lemma_update_same_id_keeps_unique(s0, i as int, copy@);
                    lemma_unique_index(self@, id, i as int);
                }
                Ok(copy)
            }
            None => Err(StoreError::NotFound),
        }
    }

    /// Delete: remove the record carrying `id`, or `NotFound` if absent.
    pub fn delete(&mut self, id: u128) -> (r: Result<(), StoreError>)
        requires
            old(self).wf(),
        ensures
            final(self).wf(),
            r is Ok <==> contains_id(old(self)@, id),
            r is Ok ==> final(self)@ == old(self)@.remove(index_of_id(old(self)@, id))
                && !contains_id(final(self)@, id),
            r is Err ==> final(self)@ == old(self)@
                && r == Err::<(), StoreError>(StoreError::NotFound),
    {
        match self.find_index(id) {
            Some(i) => {
                let ghost s0 = self@;
                self.movies.remove(i);
                proof {
                    assert(self@ =~= s0.remove(i as int));
                    lemma_unique_index(s0, id, i as int);
                    lemma_remove_keeps_unique(s0, i as int);
                    lemma_remove_only_occurrence(s0, i as int);
                }
                Ok(())
            }
            None => Err(StoreError::NotFound),
        }
    }

    /// List: a snapshot copy of every record, in store order.
    pub fn list(&self) -> (r: Vec<Movie>)
        ensures
            views_of(r@) == self@,
    {
        let mut out: Vec<Movie> = Vec::new();
        let mut k: usize = 0;
        while k < self.movies.len()
            invariant
                k <= self.movies.len(),
                views_of(out@) == self@.take(k as int),
            decreases self.movies.len() - k,
        {
            let ghost prev = out@;
            out.push(self.movies[k].clone());
            proof {
                assert(views_of(out@) =~= views_of(prev).push(self@[k as int]));
                assert(views_of(prev).push(self@[k as int]) =~= self@.take(k as int + 1));
            }
            k += 1;
        }
        proof {
            assert(self@.take(self.movies.len() as int) =~= self@);
        }
        out
    }

    /// The demonstration store the service starts with: two sample records,
    /// each keyed by the one id embedded in it.
    pub fn new_seeded() -> (s: MovieStore)
        ensures
            s.wf(),
            s@.len() == 2,
            s@[0].id != s@[1].id,
            s@[0] == record_for(s@[0].id, (MoviePayloadView {
                isbn: "978-3-16-148410-0"@,
                title: "The Lord of the Rings"@,
                director: (DirectorView { firstname: "Peter"@, lastname: "Jackson"@ }),
            })),
            s@[1] == record_for(s@[1].id, (MoviePayloadView {
                isbn: "978-0-06-055812-8"@,
                title: "The Hitchhiker's Guide to the Galaxy"@,
                director: (DirectorView { firstname: "Garth"@, lastname: "Jennings"@ }),
            })),
    {
        let mut s = MovieStore::new();
        let m0 = s.insert(MoviePayload {
            isbn: String::from_str("978-3-16-148410-0"),
            title: String::from_str("The Lord of the Rings"),
            director: Director {
                firstname: String::from_str("Peter"),
                lastname: String::from_str("Jackson"),
            },
        });
        let ghost s1 = s@;
        let m1 = s.insert(MoviePayload {
            isbn: String::from_str("978-0-06-055812-8"),
            title: String::from_str("The Hitchhiker's Guide to the Galaxy"),
            director: Director {
                firstname: String::from_str("Garth"),
                lastname: String::from_str("Jennings"),
            },
        });
        proof {
            assert(s1[0] == m0@);
            assert(contains_id(s1, m0@.id));
            assert(s@[0] == m0@);
            assert(s@[1] == m1@);
        }
        s
    }
}

/// Under pairwise-distinct ids, the record found at `i` is the one and only
/// record carrying its id.
pub(crate) proof fn lemma_unique_index(s: Seq<MovieView>, id: u128, i: int)
    requires
        unique_ids(s),
        0 <= i < s.len(),
        s[i].id == id,
    ensures
        contains_id(s, id),
        index_of_id(s, id) == i,
        record_of(s, id) == s[i],
{
    assert(contains_id(s, id));
    let j = index_of_id(s, id);
    assert(0 <= j < s.len() && s[j].id == id);
    if i < j {
        assert(s[i].id != s[j].id);
    }
    if j < i {
        assert(s[j].id != s[i].id);
    }
}

/// Appending a record whose id is absent keeps ids pairwise distinct.
pub(crate) proof fn lemma_push_fresh_keeps_unique(s: Seq<MovieView>, m: MovieView)
    requires
        unique_ids(s),
        !contains_id(s, m.id),
    ensures
        unique_ids(s.push(m)),
{
    let t = s.push(m);
    assert forall|i: int, j: int| 0 <= i < j < t.len() implies t[i].id != t[j].id by {
        if j == s.len() as int {
            assert(t[i] == s[i]);
            if t[i].id == m.id {
                assert(contains_id(s, m.id));
            }
        } else {
            assert(t[i] == s[i] && t[j] == s[j]);
        }
    }
}

/// Overwriting a record with one carrying the same id keeps ids pairwise
/// distinct.
pub(crate) proof fn lemma_update_same_id_keeps_unique(s: Seq<MovieView>, i: int, m: MovieView)
    requires
        unique_ids(s),
        0 <= i < s.len(),
        m.id == s[i].id,
    ensures
        unique_ids(s.update(i, m)),
{
    let t = s.update(i, m);
    assert forall|p: int, q: int| 0 <= p < q < t.len() implies t[p].id != t[q].id by {
        assert(t[p].id == s[p].id);
        assert(t[q].id == s[q].id);
    }
}

/// Removing a record keeps the remaining ids pairwise distinct.
pub(crate) proof fn lemma_remove_keeps_unique(s: Seq<MovieView>, i: int)
    requires
        unique_ids(s),
        0 <= i < s.len(),
    ensures
        unique_ids(s.remove(i)),
{
    let t = s.remove(i);
    assert forall|p: int, q: int| 0 <= p < q < t.len() implies t[p].id != t[q].id by {
        let p0: int = if p < i { p } else { p + 1 };
        let q0: int = if q < i { q } else { q + 1 };
        assert(t[p] == s[p0]);
        assert(t[q] == s[q0]);
    }
}

/// Pigeonhole: a store of `n` records with pairwise-distinct ids cannot
/// carry every one of the `n + 1` ids `0 ..= n`, so one of them is free.
proof fn lemma_some_small_id_free(s: Seq<MovieView>)
    requires
        unique_ids(s),
        s.len() <= u128::MAX,
    ensures
        exists|w: int| 0 <= w <= s.len() && !(#[trigger] contains_id(s, w as u128)),
{
    if forall|w: int| 0 <= w <= s.len() ==> #[trigger] contains_id(s, w as u128) {
        lemma_all_small_ids_used_absurd(s);
    }
}

/// The contradiction behind `lemma_some_small_id_free`: were every id in
/// `0 ..= n` in use, mapping each to the index of its record would inject
/// `n + 1` values into `n` slots.
proof fn lemma_all_small_ids_used_absurd(s: Seq<MovieView>)
    requires
        unique_ids(s),
        s.len() <= u128::MAX,
        forall|w: int| 0 <= w <= s.len() ==> #[trigger] contains_id(s, w as u128),
    ensures
        exists|w: int| 0 <= w <= s.len() && !(#[trigger] contains_id(s, w as u128)),
{
    let n = s.len() as int;
    let a = vstd::set_lib::set_int_range(0, n + 1);
    vstd::set_lib::lemma_int_range(0, n + 1);
    let f = |w: int| index_of_id(s, w as u128);
    assert forall|w: int| a.contains(w) implies 0 <= f(w) < n && s[f(w)].id == w as u128 by {
        assert(contains_id(s, w as u128));
        let j = index_of_id(s, w as u128);
        assert(0 <= j < s.len() && s[j].id == w as u128);
    }
    assert(vstd::relations::injective_on(f, a)) by {
        assert forall|w1: int, w2: int|
            #[trigger] a.contains(w1) && #[trigger] a.contains(w2) && f(w1) == f(w2)
            implies w1 == w2 by {
            assert(0 <= w1 <= s.len() && 0 <= w2 <= s.len());
            assert(s[f(w1)].id == w1 as u128);
            assert(s[f(w2)].id == w2 as u128);
        }
    }
    let b = a.map(f);
    vstd::set_lib::lemma_map_size(a, b, f);
    let idxs = vstd::set_lib::set_int_range(0, n);
    vstd::set_lib::lemma_int_range(0, n);
    assert forall|y: int| b.contains(y) implies idxs.contains(y) by {
        let w = choose|w: int| a.contains(w) && f(w) == y;
        assert(0 <= f(w) < n);
    }
    assert(b.subset_of(idxs));
    vstd::set_lib::lemma_len_subset(b, idxs);
}

/// Under pairwise-distinct ids, removing the record at `i` leaves no record
/// carrying its id.
pub(crate) proof fn lemma_remove_only_occurrence(s: Seq<MovieView>, i: int)
    requires
        unique_ids(s),
        0 <= i < s.len(),
    ensures
        !contains_id(s.remove(i), s[i].id),
{
    let t = s.remove(i);
    assert forall|j: int| 0 <= j < t.len() implies t[j].id != s[i].id by {
        let j0: int = if j < i { j } else { j + 1 };
        assert(t[j] == s[j0]);
    }
}

/// Relies on `uuid::Uuid::new_v4`: a freshly generated random version-4
/// identifier, handed out as its 128-bit value. Nothing is promised of the
/// value: callers must check freshness themselves.
#[verifier::external_body]
fn generate_id() -> u128 {
    uuid::Uuid::new_v4().as_u128()
}

} // verus!
