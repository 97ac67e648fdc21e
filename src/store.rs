//! The booking service: movies and bookings over two counters and two tables.
use crate::codec::{
    decode_booking, decode_movie, encode_booking, encode_movie, lemma_booking_round_trip,
    lemma_movie_round_trip, parse_booking, parse_movie,
};
use crate::record::{Booking, Movie, MovieView, StoreError};
use crate::storage::{counter_value, table_entries, Counter, Regions, Table};
use vstd::prelude::*;

verus! {

/// Region of the durable store that holds the next movie identifier.
pub const MOVIE_COUNTER_REGION: u8 = 0;

/// Region of the durable store that holds the next booking identifier.
pub const BOOKING_COUNTER_REGION: u8 = 1;

/// Region of the durable store that holds the movie table.
pub const MOVIE_TABLE_REGION: u8 = 2;

/// Region of the durable store that holds the booking table.
pub const BOOKING_TABLE_REGION: u8 = 3;

/// The mathematical value of a store.
pub struct StoreView {
    /// The identifier that the next movie will get.
    pub next_movie_id: u64,
    /// The identifier that the next booking will get.
    pub next_booking_id: u64,
    pub movies: Map<u64, MovieView>,
    /// The active bookings.
    pub bookings: Map<u64, Booking>,
}

/// The store after a movie with the given fields was added, and that movie.
pub open spec fn movie_added(
    pre: StoreView,
    title: Seq<char>,
    duration: u32,
    showtimes: Seq<u64>,
) -> (StoreView, MovieView) {
    let m = MovieView { id: pre.next_movie_id, title, duration, showtimes };
    (
        StoreView {
            next_movie_id: (pre.next_movie_id + 1) as u64,
            movies: pre.movies.insert(m.id, m),
            ..pre
        },
        m,
    )
}

/// Why a booking of `showtime` of movie `movie_id` is refused, if it is.
pub open spec fn booking_refusal(s: StoreView, movie_id: u64, showtime: u64) -> Option<StoreError> {
    if !s.movies.contains_key(movie_id) {
        Some(StoreError::MovieNotFound)
    } else if !s.movies[movie_id].showtimes.contains(showtime) {
        Some(StoreError::InvalidShowtime)
    } else {
        None
    }
}

/// The store after a booking was made at time `now`, and that booking.
pub open spec fn ticket_booked(
    pre: StoreView,
    user_id: u64,
    movie_id: u64,
    showtime: u64,
    now: u64,
) -> (StoreView, Booking) {
    let b = Booking { id: pre.next_booking_id, movie_id, user_id, showtime, created_at: now };
    (
        StoreView {
            next_booking_id: (pre.next_booking_id + 1) as u64,
            bookings: pre.bookings.insert(b.id, b),
            ..pre
        },
        b,
    )
}

/// The store after booking `id` was cancelled.
pub open spec fn booking_cancelled(pre: StoreView, id: u64) -> StoreView {
    StoreView { bookings: pre.bookings.remove(id), ..pre }
}

/// `r` lists the movies of `m`, each once, in ascending order of identifiers.
pub open spec fn lists_movies(r: Seq<MovieView>, m: Map<u64, MovieView>) -> bool {
    &&& forall|i: int, j: int| 0 <= i < j < r.len() ==> r[i].id < r[j].id
    &&& forall|i: int|
        0 <= i < r.len() ==> m.contains_key(#[trigger] r[i].id) && m[r[i].id] == r[i]
    &&& forall|k: u64| m.contains_key(k) ==> exists|i: int| 0 <= i < r.len() && #[trigger] r[i].id == k
}

/// `r` lists the bookings of `b` that belong to `user_id`, each once, in
/// ascending order of identifiers.
pub open spec fn lists_user_bookings(r: Seq<Booking>, b: Map<u64, Booking>, user_id: u64) -> bool {
    &&& forall|i: int, j: int| 0 <= i < j < r.len() ==> r[i].id < r[j].id
    &&& forall|i: int|
        0 <= i < r.len() ==> b.contains_key(#[trigger] r[i].id) && b[r[i].id] == r[i]
            && r[i].user_id == user_id
    &&& forall|k: u64|
        b.contains_key(k) && b[k].user_id == user_id ==> exists|i: int|
            0 <= i < r.len() && #[trigger] r[i].id == k
}

/// Each record lies under its own identifier, and every identifier in use
/// was handed out by its counter already, so the next ones are fresh.
pub open spec fn store_consistent(s: StoreView) -> bool {
    &&& forall|k: u64| #[trigger] s.movies.contains_key(k) ==> s.movies[k].id == k && k < s.next_movie_id
    &&& forall|k: u64|
        #[trigger] s.bookings.contains_key(k) ==> s.bookings[k].id == k && k < s.next_booking_id
}

/// The movies that stored entries hold.
pub open spec fn decoded_movies(e: Map<u64, Seq<u8>>) -> Map<u64, MovieView> {
    Map::new(|k: u64| e.contains_key(k), |k: u64| parse_movie(e[k])->0)
}

/// The bookings that stored entries hold.
pub open spec fn decoded_bookings(e: Map<u64, Seq<u8>>) -> Map<u64, Booking> {
    Map::new(|k: u64| e.contains_key(k), |k: u64| parse_booking(e[k])->0)
}

/// Every entry decodes to a record with the entry's key as identifier, and
/// that key was handed out by the counter already.
pub open spec fn well_stored_movies(e: Map<u64, Seq<u8>>, next: u64) -> bool {
    forall|k: u64|
        #[trigger] e.contains_key(k) ==> parse_movie(e[k]) is Some && parse_movie(e[k])->0.id
            == k && k < next
}

/// Every entry decodes to a record with the entry's key as identifier, and
/// that key was handed out by the counter already.
pub open spec fn well_stored_bookings(e: Map<u64, Seq<u8>>, next: u64) -> bool {
    forall|k: u64|
        #[trigger] e.contains_key(k) ==> parse_booking(e[k]) is Some && parse_booking(e[k])->0.id
            == k && k < next
}

/// The movies and bookings of the service, held in durable storage.
pub struct Store {
    movie_ids: Counter,
    booking_ids: Counter,
    movies: Table,
    bookings: Table,
}

impl View for Store {
    type V = StoreView;

    closed spec fn view(&self) -> StoreView {
        StoreView {
            next_movie_id: counter_value(self.movie_ids),
            next_booking_id: counter_value(self.booking_ids),
            movies: decoded_movies(table_entries(self.movies)),
            bookings: decoded_bookings(table_entries(self.bookings)),
        }
    }
}

/// Relies on `ic_cdk::api::time`: the time now, in nanoseconds since the
/// epoch, as the host reports it. The host answers only inside a canister;
/// elsewhere the call panics, and `Store::book_ticket_at` takes the time instead.
#[verifier::external_body]
fn current_time() -> (r: u64) {
    ic_cdk::api::time()
}

impl Store {
    /// Every stored record decodes, lies under its own identifier, and has an
    /// identifier below the next one its counter hands out.
    pub closed spec fn wf(&self) -> bool {
        &&& well_stored_movies(table_entries(self.movies), counter_value(self.movie_ids))
        &&& well_stored_bookings(table_entries(self.bookings), counter_value(self.booking_ids))
    }

    /// A well-formed store is consistent.
    pub proof fn lemma_consistent(&self)
        requires
            self.wf(),
        ensures
            store_consistent(self@),
    {
    }
}

/// Whether `x` is one of the values of `v`.
fn holds_value(v: &Vec<u64>, x: u64) -> (r: bool)
    ensures
        r == v@.contains(x),
{
    let mut i: usize = 0;
    while i < v.len()
        invariant
            i <= v@.len(),
            forall|j: int| 0 <= j < i ==> v@[j] != x,
        decreases v@.len() - i,
    {
        if v[i] == x {
            return true;
        }
        i = i + 1;
    }
    false
}

/// Whether every entry of `t` holds a movie under its own identifier, below `next`.
fn movies_well_stored(t: &Table, next: u64) -> (r: bool)
    ensures
        r == well_stored_movies(table_entries(*t), next),
{
    let entries = t.entries();
    let ghost e = table_entries(*t);
    let mut i: usize = 0;
    while i < entries.len()
        invariant
            i <= entries@.len(),
            e == table_entries(*t),
            forall|a: int|
                0 <= a < entries@.len() ==> e.contains_key(#[trigger] entries@[a].0) && e[entries@[a].0]
                    == entries@[a].1@,
            forall|k: u64| e.contains_key(k) ==> exists|a: int| 0 <= a < entries@.len() && #[trigger] entries@[a].0 == k,
            forall|a: int|
                0 <= a < i ==> parse_movie(e[#[trigger] entries@[a].0]) is Some && parse_movie(e[entries@[a].0])->0.id
                    == entries@[a].0 && entries@[a].0 < next,
        decreases entries@.len() - i,
    {
        let entry = &entries[i];
        proof {
            assert(e.contains_key(entries@[i as int].0));
        }
        match decode_movie(&entry.1) {
            Some(m) => {
                if m.id != entry.0 || entry.0 >= next {
                    return false;
                }
            },
            None => {
                return false;
            },
        }
        i = i + 1;
    }
    assert forall|k: u64| #[trigger] e.contains_key(k) implies parse_movie(e[k]) is Some
        && parse_movie(e[k])->0.id == k && k < next by {
        let a = choose|a: int| 0 <= a < entries@.len() && #[trigger] entries@[a].0 == k;
    }
    true
}

/// Whether every entry of `t` holds a booking under its own identifier, below `next`.
fn bookings_well_stored(t: &Table, next: u64) -> (r: bool)
    ensures
        r == well_stored_bookings(table_entries(*t), next),
{
    let entries = t.entries();
    let ghost e = table_entries(*t);
    let mut i: usize = 0;
    while i < entries.len()
        invariant
            i <= entries@.len(),
            e == table_entries(*t),
            forall|a: int|
                0 <= a < entries@.len() ==> e.contains_key(#[trigger] entries@[a].0) && e[entries@[a].0]
                    == entries@[a].1@,
            forall|k: u64| e.contains_key(k) ==> exists|a: int| 0 <= a < entries@.len() && #[trigger] entries@[a].0 == k,
            forall|a: int|
                0 <= a < i ==> parse_booking(e[#[trigger] entries@[a].0]) is Some && parse_booking(e[entries@[a].0])->0.id
                    == entries@[a].0 && entries@[a].0 < next,
        decreases entries@.len() - i,
    {
        let entry = &entries[i];
        proof {
            assert(e.contains_key(entries@[i as int].0));
        }
        match decode_booking(&entry.1) {
            Some(b) => {
                if b.id != entry.0 || entry.0 >= next {
                    return false;
                }
            },
            None => {
                return false;
            },
        }
        i = i + 1;
    }
    assert forall|k: u64| #[trigger] e.contains_key(k) implies parse_booking(e[k]) is Some
        && parse_booking(e[k])->0.id == k && k < next by {
        let a = choose|a: int| 0 <= a < entries@.len() && #[trigger] entries@[a].0 == k;
    }
    true
}

impl Store {
    /// The movie with identifier `id`, if one is stored.
    fn movie_at(&self, id: u64) -> (r: Option<Movie>)
        requires
            self.wf(),
        ensures
            r is Some <==> self@.movies.contains_key(id),
            r matches Some(m) ==> m@ == self@.movies[id],
    {
        match self.movies.get(id) {
            Some(bytes) => decode_movie(&bytes),
            None => None,
        }
    }

    /// Books `showtime` of movie `movie_id` for `user_id`, stamped with the
    /// time `now`. The booking counter advances only once the request was
    /// found valid.
    pub fn book_ticket_at(&mut self, user_id: u64, movie_id: u64, showtime: u64, now: u64) -> (r:
        Result<Booking, StoreError>)
        requires
            old(self).wf(),
        ensures
            final(self).wf(),
            booking_refusal(old(self)@, movie_id, showtime) matches Some(e) ==> r == Err::<
                Booking,
                StoreError,
            >(e),
            booking_refusal(old(self)@, movie_id, showtime) is None ==> (r is Ok
                <==> old(self)@.next_booking_id < u64::MAX),
            store_consistent(final(self)@),
            r matches Ok(b) ==> booking_refusal(old(self)@, movie_id, showtime) is None && (
            final(self)@, b) == ticket_booked(old(self)@, user_id, movie_id, showtime, now),
            r matches Err(e) ==> final(self)@ == old(self)@ && (booking_refusal(
                old(self)@,
                movie_id,
                showtime,
            ) is None ==> e == StoreError::FatalStorageFault),
    {
        match self.movie_at(movie_id) {
            None => {
                return Err(StoreError::MovieNotFound);
            },
            Some(movie) => {
                if !holds_value(&movie.showtimes, showtime) {
                    return Err(StoreError::InvalidShowtime);
                }
            },
        }
        let id = self.booking_ids.get();
        if id == u64::MAX {
            return Err(StoreError::FatalStorageFault);
        }
        if !self.booking_ids.set(id + 1) {
            return Err(StoreError::FatalStorageFault);
        }
        let booking = Booking { id, movie_id, user_id, showtime, created_at: now };
        let bytes = encode_booking(&booking);
        proof {
            lemma_booking_round_trip(booking);
        }
        self.bookings.insert(id, bytes);
        proof {
            assert(self@.bookings =~= old(self)@.bookings.insert(id, booking));
        }
        Ok(booking)
    }

    /// Adds a movie under the next movie identifier, and returns it.
    pub fn add_movie(&mut self, title: String, duration: u32, showtimes: Vec<u64>) -> (r: Result<
        Movie,
        StoreError,
    >)
        requires
            old(self).wf(),
        ensures
            final(self).wf(),
            r is Ok <==> old(self)@.next_movie_id < u64::MAX,
            store_consistent(final(self)@),
            r matches Ok(m) ==> (final(self)@, m@) == movie_added(
                old(self)@,
                title@,
                duration,
                showtimes@,
            ),
            r matches Err(e) ==> e == StoreError::FatalStorageFault && final(self)@ == old(self)@,
    {
        let id = self.movie_ids.get();
        if id == u64::MAX {
            return Err(StoreError::FatalStorageFault);
        }
        if !self.movie_ids.set(id + 1) {
            return Err(StoreError::FatalStorageFault);
        }
        // a length that fits in usize fits in the u64 count of the encoding
        let _n = showtimes.len();
        let movie = Movie { id, title, duration, showtimes };
        let bytes = encode_movie(&movie);
        proof {
            lemma_movie_round_trip(movie@);
        }
        self.movies.insert(id, bytes);
        proof {
            assert(self@.movies =~= old(self)@.movies.insert(id, movie@));
        }
        Ok(movie)
    }

    /// Cancels booking `booking_id`, and returns it.
    pub fn cancel_booking(&mut self, booking_id: u64) -> (r: Result<Booking, StoreError>)
        requires
            old(self).wf(),
        ensures
            final(self).wf(),
            r is Ok <==> old(self)@.bookings.contains_key(booking_id),
            store_consistent(final(self)@),
            r matches Ok(b) ==> b.id == booking_id && b == old(self)@.bookings[booking_id] && final(self)@
                == booking_cancelled(old(self)@, booking_id),
            r matches Err(e) ==> e == StoreError::BookingNotFound && final(self)@ == old(self)@,
    {
        match self.bookings.remove(booking_id) {
            Some(bytes) => {
                proof {
                    assert(self@.bookings =~= old(self)@.bookings.remove(booking_id));
                }
                match decode_booking(&bytes) {
                    Some(b) => Ok(b),
                    None => Err(StoreError::FatalStorageFault),
                }
            },
            None => {
                proof {
                    assert(self@.bookings =~= old(self)@.bookings);
                }
                Err(StoreError::BookingNotFound)
            },
        }
    }

    /// Books `showtime` of movie `movie_id` for `user_id`, stamped with the
    /// current time.
    pub fn book_ticket(&mut self, user_id: u64, movie_id: u64, showtime: u64) -> (r: Result<
        Booking,
        StoreError,
    >)
        requires
            old(self).wf(),
        ensures
            final(self).wf(),
            booking_refusal(old(self)@, movie_id, showtime) matches Some(e) ==> r == Err::<
                Booking,
                StoreError,
            >(e),
            booking_refusal(old(self)@, movie_id, showtime) is None ==> (r is Ok
                <==> old(self)@.next_booking_id < u64::MAX),
            store_consistent(final(self)@),
            r matches Ok(b) ==> booking_refusal(old(self)@, movie_id, showtime) is None && (
            final(self)@, b) == ticket_booked(
                old(self)@,
                user_id,
                movie_id,
                showtime,
                b.created_at,
            ),
            r matches Err(e) ==> final(self)@ == old(self)@ && (booking_refusal(
                old(self)@,
                movie_id,
                showtime,
            ) is None ==> e == StoreError::FatalStorageFault),
    {
        let now = current_time();
        self.book_ticket_at(user_id, movie_id, showtime, now)
    }

    /// Every stored movie, in ascending order of identifiers.
    pub fn get_movies(&self) -> (r: Vec<Movie>)
        requires
            self.wf(),
        ensures
            lists_movies(r@.map_values(|m: Movie| m@), self@.movies),
    {
        let entries = self.movies.entries();
        let ghost e = table_entries(self.movies);
        let mut out: Vec<Movie> = Vec::new();
        let mut i: usize = 0;
        while i < entries.len()
            invariant
                i <= entries@.len(),
                out@.len() == i,
                e == table_entries(self.movies),
                self.wf(),
                forall|a: int, b: int| 0 <= a < b < entries@.len() ==> entries@[a].0 < entries@[b].0,
                forall|a: int|
                    0 <= a < entries@.len() ==> e.contains_key(#[trigger] entries@[a].0) && e[entries@[a].0]
                        == entries@[a].1@,
                forall|a: int|
                    0 <= a < i ==> #[trigger] out@[a]@ == self@.movies[entries@[a].0] && out@[a].id
                        == entries@[a].0,
            decreases entries@.len() - i,
        {
            let entry = &entries[i];
            proof {
                assert(e.contains_key(entries@[i as int].0));
                assert(parse_movie(e[entries@[i as int].0]) is Some);
            }
            let decoded = decode_movie(&entry.1);
            if let Some(m) = decoded {
                out.push(m);
            }
            i = i + 1;
        }
        let ghost v = out@.map_values(|m: Movie| m@);
        assert forall|k: u64| self@.movies.contains_key(k) implies exists|a: int|
            0 <= a < v.len() && #[trigger] v[a].id == k by {
            let j = choose|j: int| 0 <= j < entries@.len() && #[trigger] entries@[j].0 == k;
            assert(v[j].id == k);
        }
        out
    }

    /// The active bookings of `user_id`, in ascending order of identifiers.
    pub fn get_user_bookings(&self, user_id: u64) -> (r: Vec<Booking>)
        requires
            self.wf(),
        ensures
            lists_user_bookings(r@, self@.bookings, user_id),
    {
        let entries = self.bookings.entries();
        let ghost e = table_entries(self.bookings);
        let mut out: Vec<Booking> = Vec::new();
        let mut i: usize = 0;
        while i < entries.len()
            invariant
                i <= entries@.len(),
                e == table_entries(self.bookings),
                self.wf(),
                forall|a: int, b: int| 0 <= a < b < entries@.len() ==> entries@[a].0 < entries@[b].0,
                forall|a: int|
                    0 <= a < entries@.len() ==> e.contains_key(#[trigger] entries@[a].0) && e[entries@[a].0]
                        == entries@[a].1@,
                forall|a: int, b: int| 0 <= a < b < out@.len() ==> out@[a].id < out@[b].id,
                forall|a: int|
                    0 <= a < out@.len() ==> self@.bookings.contains_key(#[trigger] out@[a].id)
                        && self@.bookings[out@[a].id] == out@[a] && out@[a].user_id == user_id,
                forall|a: int, j: int|
                    0 <= a < out@.len() && i <= j < entries@.len() ==> #[trigger] out@[a].id
                        < #[trigger] entries@[j].0,
                forall|j: int|
                    0 <= j < i && #[trigger] self@.bookings[entries@[j].0].user_id == user_id
                        ==> exists|a: int| 0 <= a < out@.len() && out@[a].id == entries@[j].0,
            decreases entries@.len() - i,
        {
            let entry = &entries[i];
            proof {
                assert(e.contains_key(entries@[i as int].0));
                assert(parse_booking(e[entries@[i as int].0]) is Some);
            }
            let ghost prev = out@;
            let decoded = decode_booking(&entry.1);
            if let Some(b) = decoded {
                if b.user_id == user_id {
                    out.push(b);
                    assert(out@[out@.len() - 1].id == entries@[i as int].0);
                }
            }
            proof {
                assert forall|j: int|
                    0 <= j < i + 1 && #[trigger] self@.bookings[entries@[j].0].user_id == user_id
                        implies exists|a: int| 0 <= a < out@.len() && out@[a].id == entries@[j].0 by {
                    if j == i {
                        assert(decoded == Some(self@.bookings[entries@[j].0]));
                        assert(out@[out@.len() - 1].id == entries@[i as int].0);
                    } else {
                        let a = choose|a: int| 0 <= a < prev.len() && prev[a].id == entries@[j].0;
                        assert(out@[a] == prev[a]);
                    }
                }
            }
            i = i + 1;
        }
        assert forall|k: u64|
            self@.bookings.contains_key(k) && self@.bookings[k].user_id == user_id implies exists|
            a: int|
            0 <= a < out@.len() && #[trigger] out@[a].id == k by {
            let j = choose|j: int| 0 <= j < entries@.len() && #[trigger] entries@[j].0 == k;
            assert(self@.bookings[entries@[j].0].user_id == user_id);
        }
        out
    }

    /// Opens the store that durable storage holds, or lays out an empty one.
    /// Fails where a stored record does not decode, lies under another key,
    /// or has an identifier that its counter has not handed out yet. A region
    /// that holds the header of another layout or version makes the storage
    /// crate panic instead. The regions are shared by the whole process, so
    /// a process opens one store.
    pub fn open() -> (r: Result<Store, StoreError>)
        ensures
            r matches Ok(s) ==> s.wf() && store_consistent(s@),
            r matches Err(e) ==> e == StoreError::FatalStorageFault,
    {
        let regions = Regions::open();
        let movie_ids = match Counter::init(regions.region(MOVIE_COUNTER_REGION)) {
            Some(c) => c,
            None => {
                return Err(StoreError::FatalStorageFault);
            },
        };
        let booking_ids = match Counter::init(regions.region(BOOKING_COUNTER_REGION)) {
            Some(c) => c,
            None => {
                return Err(StoreError::FatalStorageFault);
            },
        };
        let movies = Table::init(regions.region(MOVIE_TABLE_REGION));
        let bookings = Table::init(regions.region(BOOKING_TABLE_REGION));
        if !movies_well_stored(&movies, movie_ids.get()) || !bookings_well_stored(
            &bookings,
            booking_ids.get(),
        ) {
            return Err(StoreError::FatalStorageFault);
        }
        Ok(Store { movie_ids, booking_ids, movies, bookings })
    }

    /// The identifier that the next movie will get.
    pub fn next_movie_id(&self) -> (r: u64)
        ensures
            r == self@.next_movie_id,
    {
        self.movie_ids.get()
    }

    /// The identifier that the next booking will get.
    pub fn next_booking_id(&self) -> (r: u64)
        ensures
            r == self@.next_booking_id,
    {
        self.booking_ids.get()
    }
}

} // verus!
