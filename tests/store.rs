use movie_backend::codec::{decode_booking, decode_movie, encode_booking, encode_movie};
use movie_backend::record::{Booking, Movie, StoreError};
use movie_backend::store::Store;

fn fresh() -> Store {
    match Store::open() {
        Ok(s) => s,
        Err(_) => panic!("a fresh store opens"),
    }
}

fn add(s: &mut Store, title: &str, duration: u32, showtimes: Vec<u64>) -> Movie {
    s.add_movie(title.to_string(), duration, showtimes).expect("movie added")
}

#[test]
fn dune_scenario() {
    let mut s = fresh();
    let m = add(&mut s, "Dune", 155, vec![1000, 2000]);
    assert_eq!(m.id, 0);
    assert_eq!(m.title, "Dune");
    assert_eq!(m.duration, 155);
    assert_eq!(m.showtimes, vec![1000, 2000]);
    let b = s.book_ticket_at(7, 0, 2000, 123_456).expect("booked");
    assert_eq!(
        b,
        Booking { id: 0, movie_id: 0, user_id: 7, showtime: 2000, created_at: 123_456 }
    );
    assert_eq!(s.book_ticket_at(7, 0, 9999, 123_457), Err(StoreError::InvalidShowtime));
    assert_eq!(s.cancel_booking(0), Ok(b));
    assert!(s.get_user_bookings(7).is_empty());
}

#[test]
fn movie_ids_count_up_from_zero() {
    let mut s = fresh();
    assert_eq!(s.next_movie_id(), 0);
    let a = add(&mut s, "A", 90, vec![]);
    let b = add(&mut s, "", 0, vec![5, 3, 5]);
    let c = add(&mut s, "Ç est là", 120, vec![1]);
    assert_eq!((a.id, b.id, c.id), (0, 1, 2));
    assert_eq!(s.next_movie_id(), 3);
    let all = s.get_movies();
    let ids: Vec<u64> = all.iter().map(|m| m.id).collect();
    assert_eq!(ids, vec![0, 1, 2]);
    assert_eq!(all[1].showtimes, vec![5, 3, 5]);
    assert_eq!(all[1].title, "");
    assert_eq!(all[2].title, "Ç est là");
    assert_eq!(all[2].duration, 120);
}

#[test]
fn empty_store_lists_nothing() {
    let s = fresh();
    assert!(s.get_movies().is_empty());
    assert!(s.get_user_bookings(1).is_empty());
    assert_eq!(s.next_booking_id(), 0);
}

#[test]
fn unknown_movie_is_refused_without_using_an_id() {
    let mut s = fresh();
    assert_eq!(s.book_ticket_at(1, 0, 10, 5), Err(StoreError::MovieNotFound));
    add(&mut s, "X", 1, vec![10]);
    assert_eq!(s.book_ticket_at(1, 4, 10, 5), Err(StoreError::MovieNotFound));
    assert_eq!(s.book_ticket_at(1, 0, 11, 5), Err(StoreError::InvalidShowtime));
    assert_eq!(s.next_booking_id(), 0);
    let b = s.book_ticket_at(1, 0, 10, 5).expect("booked");
    assert_eq!(b.id, 0);
    assert_eq!(s.next_booking_id(), 1);
}

#[test]
fn created_at_follows_the_clock() {
    let mut s = fresh();
    add(&mut s, "X", 1, vec![10, 20]);
    let b1 = s.book_ticket_at(1, 0, 10, 100).expect("booked");
    let b2 = s.book_ticket_at(2, 0, 20, 100).expect("booked");
    let b3 = s.book_ticket_at(1, 0, 20, 250).expect("booked");
    assert!(b1.created_at <= b2.created_at && b2.created_at <= b3.created_at);
    assert_eq!((b1.id, b2.id, b3.id), (0, 1, 2));
}

#[test]
fn cancel_twice_is_refused() {
    let mut s = fresh();
    add(&mut s, "X", 1, vec![10]);
    let b = s.book_ticket_at(3, 0, 10, 9).expect("booked");
    assert_eq!(s.cancel_booking(b.id), Ok(b));
    assert_eq!(s.cancel_booking(b.id), Err(StoreError::BookingNotFound));
    assert_eq!(s.cancel_booking(42), Err(StoreError::BookingNotFound));
    // identifiers are not handed out again after a cancellation
    let c = s.book_ticket_at(3, 0, 10, 10).expect("booked");
    assert_eq!(c.id, 1);
}

#[test]
fn user_bookings_are_filtered_and_ordered() {
    let mut s = fresh();
    add(&mut s, "X", 1, vec![10, 20]);
    add(&mut s, "Y", 2, vec![30]);
    let a = s.book_ticket_at(1, 0, 10, 1).expect("booked");
    let _ = s.book_ticket_at(2, 1, 30, 2).expect("booked");
    let c = s.book_ticket_at(1, 1, 30, 3).expect("booked");
    let d = s.book_ticket_at(1, 0, 20, 4).expect("booked");
    assert_eq!(s.get_user_bookings(1), vec![a, c, d]);
    assert_eq!(s.cancel_booking(c.id), Ok(c));
    assert_eq!(s.get_user_bookings(1), vec![a, d]);
    assert_eq!(s.get_user_bookings(2).len(), 1);
    assert!(s.get_user_bookings(3).is_empty());
}

#[test]
fn movie_round_trip() {
    let m = Movie { id: 77, title: "Brazil ☂".to_string(), duration: 142, showtimes: vec![u64::MAX, 0, 9] };
    let bytes = encode_movie(&m);
    let back = decode_movie(&bytes).expect("decodes");
    assert_eq!(back.id, 77);
    assert_eq!(back.title, m.title);
    assert_eq!(back.duration, 142);
    assert_eq!(back.showtimes, m.showtimes);
}

#[test]
fn booking_round_trip() {
    let b = Booking { id: 3, movie_id: 4, user_id: u64::MAX, showtime: 6, created_at: 1 << 40 };
    assert_eq!(decode_booking(&encode_booking(&b)), Some(b));
}

#[test]
fn movie_layout() {
    let m = Movie { id: 0x0102, title: "ab".to_string(), duration: 155, showtimes: vec![1000] };
    let bytes = encode_movie(&m);
    let mut expected = vec![0x02, 0x01, 0, 0, 0, 0, 0, 0, 155, 0, 0, 0, 1, 0, 0, 0, 0, 0, 0, 0];
    expected.extend_from_slice(&[0xe8, 0x03, 0, 0, 0, 0, 0, 0]);
    expected.extend_from_slice(b"ab");
    assert_eq!(bytes, expected);
}

#[test]
fn booking_layout() {
    let b = Booking { id: 1, movie_id: 2, user_id: 3, showtime: 256, created_at: 5 };
    let bytes = encode_booking(&b);
    assert_eq!(bytes.len(), 40);
    assert_eq!(&bytes[0..8], &[1, 0, 0, 0, 0, 0, 0, 0]);
    assert_eq!(&bytes[24..32], &[0, 1, 0, 0, 0, 0, 0, 0]);
}

#[test]
fn malformed_records_do_not_decode() {
    assert!(decode_booking(&vec![0; 39]).is_none());
    assert!(decode_movie(&vec![0; 19]).is_none());
    // announces one showtime but holds none
    let mut short = vec![0u8; 20];
    short[12] = 1;
    assert!(decode_movie(&short).is_none());
    // title bytes that are not UTF-8
    let mut bad = vec![0u8; 20];
    bad.push(0xff);
    assert!(decode_movie(&bad).is_none());
    let mut good = vec![0u8; 20];
    good.push(b'z');
    assert_eq!(decode_movie(&good).expect("decodes").title, "z");
}

#[test]
fn error_messages() {
    assert_eq!(StoreError::MovieNotFound.message(), "Movie not found");
    assert_eq!(StoreError::InvalidShowtime.message(), "Invalid showtime");
    assert_eq!(StoreError::BookingNotFound.message(), "Booking not found");
    assert_eq!(StoreError::FatalStorageFault.message(), "Storage fault");
}

#[test]
fn other_users_leave_a_listing_alone() {
    let mut s = fresh();
    add(&mut s, "X", 1, vec![10]);
    let mine = s.book_ticket_at(1, 0, 10, 1).expect("booked");
    let before = s.get_user_bookings(1);
    let theirs = s.book_ticket_at(2, 0, 10, 2).expect("booked");
    assert_eq!(s.get_user_bookings(1), before);
    assert_eq!(s.cancel_booking(theirs.id), Ok(theirs));
    assert_eq!(s.get_user_bookings(1), vec![mine]);
}
