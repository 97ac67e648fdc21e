//! Laws of the booking service, stated over the model that the operations'
//! contracts use.
use crate::record::{Booking, MovieView};
use crate::store::{
    booking_cancelled, lists_movies, lists_user_bookings, store_consistent, movie_added, ticket_booked, StoreView,
};
use vstd::prelude::*;

verus! {

/// The store after movies with the fields in `items` were added, in order.
pub open spec fn movies_added(s: StoreView, items: Seq<(Seq<char>, u32, Seq<u64>)>) -> StoreView
    decreases items.len(),
{
    if items.len() == 0 {
        s
    } else {
        let l = items.last();
        movie_added(movies_added(s, items.drop_last()), l.0, l.1, l.2).0
    }
}

/// Starting from a store without movies whose movie counter is at zero, the
/// movies added get the identifiers 0, 1, 2, ... in the order of the calls,
/// and the store then holds exactly those movies.
pub proof fn lemma_movie_ids_count_up(s: StoreView, items: Seq<(Seq<char>, u32, Seq<u64>)>)
    requires
        s.next_movie_id == 0,
        s.movies.dom() == Set::<u64>::empty(),
        items.len() < u64::MAX,
    ensures
        movies_added(s, items).next_movie_id == items.len(),
        forall|k: u64| #[trigger] movies_added(s, items).movies.contains_key(k) <==> k < items.len(),
        forall|i: int|
            0 <= i < items.len() ==> #[trigger] movies_added(s, items).movies[i as u64] == (
            MovieView { id: i as u64, title: items[i].0, duration: items[i].1, showtimes: items[i].2 }),
        movies_added(s, items).bookings == s.bookings,
        movies_added(s, items).next_booking_id == s.next_booking_id,
    decreases items.len(),
{
    if items.len() > 0 {
        let p = items.drop_last();
        lemma_movie_ids_count_up(s, p);
        let t = movies_added(s, items);
        let n = p.len();
        assert forall|i: int| 0 <= i < items.len() implies #[trigger] t.movies[i as u64] == (
        MovieView { id: i as u64, title: items[i].0, duration: items[i].1, showtimes: items[i].2 })
            by {
            if i < n {
                assert(p[i] == items[i]);
                assert(movies_added(s, p).movies[i as u64] == t.movies[i as u64]);
            }
        }
    }
}

proof fn lemma_ids_at_least_position(r: Seq<MovieView>, i: int)
    requires
        forall|a: int, b: int| 0 <= a < b < r.len() ==> r[a].id < r[b].id,
        0 <= i < r.len(),
    ensures
        r[i].id >= i,
    decreases i,
{
    if i > 0 {
        lemma_ids_at_least_position(r, i - 1);
    }
}

proof fn lemma_listing_of_first_ids(r: Seq<MovieView>, m: Map<u64, MovieView>, n: nat, i: int)
    requires
        lists_movies(r, m),
        forall|k: u64| #[trigger] m.contains_key(k) <==> k < n,
        n <= u64::MAX,
        0 <= i < n,
    ensures
        i < r.len(),
        r[i].id == i,
    decreases i,
{
    if i > 0 {
        lemma_listing_of_first_ids(r, m, n, i - 1);
    }
    assert(m.contains_key(i as u64));
    let p = choose|p: int| 0 <= p < r.len() && #[trigger] r[p].id == i as u64;
    if p < i {
        lemma_listing_of_first_ids(r, m, n, p);
    } else if p > i {
        lemma_ids_at_least_position(r, i);
    }
}

/// Starting from a store without movies whose movie counter is at zero, after
/// movies with the fields in `items` were added, a listing of all movies holds
/// at position `i` the movie added by the `i`-th call, with identifier `i`.
pub proof fn lemma_listing_after_adds(
    s: StoreView,
    items: Seq<(Seq<char>, u32, Seq<u64>)>,
    listing: Seq<MovieView>,
)
    requires
        s.next_movie_id == 0,
        s.movies.dom() == Set::<u64>::empty(),
        items.len() < u64::MAX,
        lists_movies(listing, movies_added(s, items).movies),
    ensures
        listing.len() == items.len(),
        forall|i: int|
            0 <= i < items.len() ==> #[trigger] listing[i] == (MovieView {
                id: i as u64,
                title: items[i].0,
                duration: items[i].1,
                showtimes: items[i].2,
            }),
{
    lemma_movie_ids_count_up(s, items);
    let m = movies_added(s, items).movies;
    let n = items.len();
    assert forall|i: int| 0 <= i < n implies #[trigger] listing[i] == (MovieView {
        id: i as u64,
        title: items[i].0,
        duration: items[i].1,
        showtimes: items[i].2,
    }) by {
        lemma_listing_of_first_ids(listing, m, n, i);
        assert(m[i as u64] == listing[i]);
    }
    if listing.len() > n {
        let last = listing.len() - 1;
        lemma_ids_at_least_position(listing, last);
        assert(m.contains_key(listing[last].id));
    }
    if n > 0 {
        lemma_listing_of_first_ids(listing, m, n, n - 1);
    }
}

/// Of two bookings made one after the other, with the second made at a time
/// no earlier than the first, the second has the larger identifier and a
/// creation time no earlier than the first's.
pub proof fn lemma_created_at_in_call_order(
    s: StoreView,
    first: (u64, u64, u64, u64),
    second: (u64, u64, u64, u64),
)
    requires
        first.3 <= second.3,
        s.next_booking_id < u64::MAX,
    ensures
        ({
            let (s1, b1) = ticket_booked(s, first.0, first.1, first.2, first.3);
            let (s2, b2) = ticket_booked(s1, second.0, second.1, second.2, second.3);
            b1.created_at <= b2.created_at && b1.id < b2.id
        }),
{
}

/// Cancelling an active booking removes it: the owner's listing no longer
/// holds it, and a second cancellation is refused.
pub proof fn lemma_cancel_removes(s: StoreView, id: u64, listing: Seq<Booking>)
    requires
        s.bookings.contains_key(id),
        lists_user_bookings(listing, booking_cancelled(s, id).bookings, s.bookings[id].user_id),
    ensures
        !booking_cancelled(s, id).bookings.contains_key(id),
        forall|i: int| 0 <= i < listing.len() ==> #[trigger] listing[i].id != id,
{
}

/// A booking made for another user, or the cancellation of another user's
/// booking, leaves a user's listing as it was.
pub proof fn lemma_other_users_unaffected(
    s: StoreView,
    user_id: u64,
    other: (u64, u64, u64, u64),
    cancelled: u64,
    listing: Seq<Booking>,
)
    requires
        store_consistent(s),
        s.next_booking_id < u64::MAX,
        other.0 != user_id,
        s.bookings.contains_key(cancelled) ==> s.bookings[cancelled].user_id != user_id,
    ensures
        lists_user_bookings(
            listing,
            ticket_booked(s, other.0, other.1, other.2, other.3).0.bookings,
            user_id,
        ) <==> lists_user_bookings(listing, s.bookings, user_id),
        lists_user_bookings(listing, booking_cancelled(s, cancelled).bookings, user_id)
            <==> lists_user_bookings(listing, s.bookings, user_id),
{
    let id = s.next_booking_id;
    let b = ticket_booked(s, other.0, other.1, other.2, other.3).0.bookings;
    let c = booking_cancelled(s, cancelled).bookings;
    assert(!s.bookings.contains_key(id));
    assert forall|k: u64| #[trigger] b.contains_key(k) && b[k].user_id == user_id implies s.bookings.contains_key(k) && s.bookings[k] == b[k] by {}
    assert forall|k: u64| #[trigger] s.bookings.contains_key(k) && s.bookings[k].user_id == user_id implies b.contains_key(k) && b[k] == s.bookings[k] && c.contains_key(k) && c[k] == s.bookings[k] by {}
    assert forall|k: u64| #[trigger] c.contains_key(k) implies s.bookings.contains_key(k) && s.bookings[k] == c[k] by {}
    if lists_user_bookings(listing, b, user_id) {
        assert forall|i: int| 0 <= i < listing.len() implies s.bookings.contains_key(#[trigger] listing[i].id) && s.bookings[listing[i].id] == listing[i] by {
            assert(b.contains_key(listing[i].id) && b[listing[i].id].user_id == user_id);
        }
    }
    if lists_user_bookings(listing, s.bookings, user_id) {
        assert forall|i: int| 0 <= i < listing.len() implies b.contains_key(#[trigger] listing[i].id) && b[listing[i].id] == listing[i] && c.contains_key(listing[i].id) && c[listing[i].id] == listing[i] by {
            assert(s.bookings.contains_key(listing[i].id) && s.bookings[listing[i].id].user_id == user_id);
        }
    }
}

/// A user without active bookings gets an empty listing.
pub proof fn lemma_no_bookings_empty_listing(s: StoreView, user_id: u64, listing: Seq<Booking>)
    requires
        forall|k: u64| #[trigger] s.bookings.contains_key(k) ==> s.bookings[k].user_id != user_id,
        lists_user_bookings(listing, s.bookings, user_id),
    ensures
        listing.len() == 0,
{
    if listing.len() > 0 {
        assert(s.bookings.contains_key(listing[0].id));
    }
}

} // verus!
