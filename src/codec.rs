//! The binary format in which records are stored.
//!
//! A booking is its five fields as little-endian `u64`s, in declaration order.
//! A movie is its identifier (`u64`), its duration (`u32`), the number of its
//! showtimes (`u64`), each showtime (`u64`), and then the UTF-8 bytes of its
//! title up to the end of the record. All integers are little-endian.
use crate::record::{Booking, Movie, MovieView};
use vstd::prelude::*;
use vstd::utf8::{decode_utf8, encode_utf8, valid_utf8};

verus! {

broadcast use vstd::utf8::encode_utf8_valid_utf8, vstd::utf8::encode_utf8_decode_utf8;

/// The eight little-endian bytes of `x`.
pub open spec fn le_u64(x: u64) -> Seq<u8> {
    seq![
        (x & 0xff) as u8,
        ((x >> 8u64) & 0xff) as u8,
        ((x >> 16u64) & 0xff) as u8,
        ((x >> 24u64) & 0xff) as u8,
        ((x >> 32u64) & 0xff) as u8,
        ((x >> 40u64) & 0xff) as u8,
        ((x >> 48u64) & 0xff) as u8,
        ((x >> 56u64) & 0xff) as u8,
    ]
}

/// The four little-endian bytes of `x`.
pub open spec fn le_u32(x: u32) -> Seq<u8> {
    seq![
        (x & 0xff) as u8,
        ((x >> 8u32) & 0xff) as u8,
        ((x >> 16u32) & 0xff) as u8,
        ((x >> 24u32) & 0xff) as u8,
    ]
}

/// The `u64` whose little-endian bytes are the first eight of `b`.
pub open spec fn u64_from_le(b: Seq<u8>) -> u64 {
    (b[0] as u64) | ((b[1] as u64) << 8u64) | ((b[2] as u64) << 16u64) | ((b[3] as u64)
        << 24u64) | ((b[4] as u64) << 32u64) | ((b[5] as u64) << 40u64) | ((b[6] as u64)
        << 48u64) | ((b[7] as u64) << 56u64)
}

/// The `u32` whose little-endian bytes are the first four of `b`.
pub open spec fn u32_from_le(b: Seq<u8>) -> u32 {
    (b[0] as u32) | ((b[1] as u32) << 8u32) | ((b[2] as u32) << 16u32) | ((b[3] as u32)
        << 24u32)
}

/// The `u64` stored at byte offset `off` of `b`.
pub open spec fn u64_at(b: Seq<u8>, off: int) -> u64 {
    u64_from_le(b.subrange(off, off + 8))
}

/// Each value of `s` as eight little-endian bytes, one after the other.
pub open spec fn u64s_bytes(s: Seq<u64>) -> Seq<u8>
    decreases s.len(),
{
    if s.len() == 0 {
        Seq::empty()
    } else {
        u64s_bytes(s.drop_last()) + le_u64(s.last())
    }
}

/// The stored form of a movie.
pub open spec fn movie_bytes(m: MovieView) -> Seq<u8> {
    le_u64(m.id) + le_u32(m.duration) + le_u64(m.showtimes.len() as u64) + u64s_bytes(
        m.showtimes,
    ) + encode_utf8(m.title)
}

/// The stored form of a booking.
pub open spec fn booking_bytes(b: Booking) -> Seq<u8> {
    le_u64(b.id) + le_u64(b.movie_id) + le_u64(b.user_id) + le_u64(b.showtime) + le_u64(
        b.created_at,
    )
}

/// Offset of the first showtime in a stored movie.
pub const MOVIE_HEADER_LEN: usize = 20;

/// Length of a stored booking.
pub const BOOKING_LEN: usize = 40;

/// The number of showtimes that a stored movie announces.
pub open spec fn movie_count(b: Seq<u8>) -> u64 {
    u64_at(b, 12)
}

/// The movie that the bytes `b` hold, if they are a well-formed record.
pub open spec fn parse_movie(b: Seq<u8>) -> Option<MovieView> {
    let n = movie_count(b) as int;
    let title_start = MOVIE_HEADER_LEN + 8 * n;
    if b.len() < MOVIE_HEADER_LEN || b.len() < title_start || !valid_utf8(
        b.subrange(title_start, b.len() as int),
    ) {
        None
    } else {
        Some(
            MovieView {
                id: u64_at(b, 0),
                duration: u32_from_le(b.subrange(8, 12)),
                showtimes: Seq::new(n as nat, |i: int| u64_at(b, MOVIE_HEADER_LEN + 8 * i)),
                title: decode_utf8(b.subrange(title_start, b.len() as int)),
            },
        )
    }
}

/// The booking that the bytes `b` hold, if they are a well-formed record.
pub open spec fn parse_booking(b: Seq<u8>) -> Option<Booking> {
    if b.len() != BOOKING_LEN {
        None
    } else {
        Some(
            Booking {
                id: u64_at(b, 0),
                movie_id: u64_at(b, 8),
                user_id: u64_at(b, 16),
                showtime: u64_at(b, 24),
                created_at: u64_at(b, 32),
            },
        )
    }
}

proof fn lemma_u64_round_trip(x: u64)
    ensures
        u64_from_le(le_u64(x)) == x,
{
    let b = le_u64(x);
    let (b0, b1, b2, b3, b4, b5, b6, b7) = (b[0], b[1], b[2], b[3], b[4], b[5], b[6], b[7]);
    assert(b0 == (x & 0xff) as u8 && b1 == ((x >> 8u64) & 0xff) as u8 && b2 == ((x >> 16u64)
        & 0xff) as u8 && b3 == ((x >> 24u64) & 0xff) as u8 && b4 == ((x >> 32u64) & 0xff) as u8
        && b5 == ((x >> 40u64) & 0xff) as u8 && b6 == ((x >> 48u64) & 0xff) as u8 && b7 == ((x
        >> 56u64) & 0xff) as u8 ==> (b0 as u64) | ((b1 as u64) << 8u64) | ((b2 as u64)
        << 16u64) | ((b3 as u64) << 24u64) | ((b4 as u64) << 32u64) | ((b5 as u64) << 40u64)
        | ((b6 as u64) << 48u64) | ((b7 as u64) << 56u64) == x) by (bit_vector);
}

proof fn lemma_u32_round_trip(x: u32)
    ensures
        u32_from_le(le_u32(x)) == x,
{
    let b = le_u32(x);
    let (b0, b1, b2, b3) = (b[0], b[1], b[2], b[3]);
    assert(b0 == (x & 0xff) as u8 && b1 == ((x >> 8u32) & 0xff) as u8 && b2 == ((x >> 16u32)
        & 0xff) as u8 && b3 == ((x >> 24u32) & 0xff) as u8 ==> (b0 as u32) | ((b1 as u32)
        << 8u32) | ((b2 as u32) << 16u32) | ((b3 as u32) << 24u32) == x) by (bit_vector);
}

proof fn lemma_u64s_bytes(s: Seq<u64>)
    ensures
        u64s_bytes(s).len() == 8 * s.len(),
        forall|i: int|
            0 <= i < s.len() ==> #[trigger] u64s_bytes(s).subrange(8 * i, 8 * i + 8) == le_u64(
                s[i],
            ),
    decreases s.len(),
{
    if s.len() > 0 {
        let p = s.drop_last();
        lemma_u64s_bytes(p);
        let all = u64s_bytes(s);
        assert forall|i: int| 0 <= i < s.len() implies #[trigger] all.subrange(
            8 * i,
            8 * i + 8,
        ) == le_u64(s[i]) by {
            if i < p.len() {
                assert(all.subrange(8 * i, 8 * i + 8) =~= u64s_bytes(p).subrange(8 * i, 8 * i + 8));
            } else {
                assert(all.subrange(8 * i, 8 * i + 8) =~= le_u64(s.last()));
            }
        }
    }
}

/// Decoding a stored movie gives back the movie.
pub proof fn lemma_movie_round_trip(m: MovieView)
    requires
        m.showtimes.len() <= u64::MAX,
    ensures
        parse_movie(movie_bytes(m)) == Some(m),
{
    let b = movie_bytes(m);
    let n = m.showtimes.len();
    lemma_u64s_bytes(m.showtimes);
    lemma_u64_round_trip(m.id);
    lemma_u32_round_trip(m.duration);
    lemma_u64_round_trip(n as u64);
    assert(b.subrange(0, 8) =~= le_u64(m.id));
    assert(b.subrange(8, 12) =~= le_u32(m.duration));
    assert(b.subrange(12, 20) =~= le_u64(n as u64));
    let title_start = 20 + 8 * (n as int);
    assert(b.subrange(title_start, b.len() as int) =~= encode_utf8(m.title));
    let st = Seq::new(n, |i: int| u64_at(b, MOVIE_HEADER_LEN + 8 * i));
    assert forall|i: int| 0 <= i < n implies st[i] == m.showtimes[i] by {
        assert(b.subrange(20 + 8 * i, 20 + 8 * i + 8) =~= u64s_bytes(m.showtimes).subrange(
            8 * i,
            8 * i + 8,
        ));
        lemma_u64_round_trip(m.showtimes[i]);
    }
    assert(st =~= m.showtimes);
}

/// Decoding a stored booking gives back the booking.
pub proof fn lemma_booking_round_trip(k: Booking)
    ensures
        parse_booking(booking_bytes(k)) == Some(k),
{
    let b = booking_bytes(k);
    assert(b.subrange(0, 8) =~= le_u64(k.id));
    assert(b.subrange(8, 16) =~= le_u64(k.movie_id));
    assert(b.subrange(16, 24) =~= le_u64(k.user_id));
    assert(b.subrange(24, 32) =~= le_u64(k.showtime));
    assert(b.subrange(32, 40) =~= le_u64(k.created_at));
    lemma_u64_round_trip(k.id);
    lemma_u64_round_trip(k.movie_id);
    lemma_u64_round_trip(k.user_id);
    lemma_u64_round_trip(k.showtime);
    lemma_u64_round_trip(k.created_at);
}

/// Relies on `String::from_utf8`: it succeeds exactly on valid UTF-8, and the
/// string then holds the characters that the bytes encode.
#[verifier::external_body]
fn string_from_utf8(b: Vec<u8>) -> (r: Option<String>)
    ensures
        r is Some <==> valid_utf8(b@),
        r matches Some(s) ==> s@ == decode_utf8(b@),
{
    String::from_utf8(b).ok()
}

fn push_u64(out: &mut Vec<u8>, x: u64)
    ensures
        final(out)@ == old(out)@ + le_u64(x),
{
    out.push((x & 0xff) as u8);
    out.push(((x >> 8u64) & 0xff) as u8);
    out.push(((x >> 16u64) & 0xff) as u8);
    out.push(((x >> 24u64) & 0xff) as u8);
    out.push(((x >> 32u64) & 0xff) as u8);
    out.push(((x >> 40u64) & 0xff) as u8);
    out.push(((x >> 48u64) & 0xff) as u8);
    out.push(((x >> 56u64) & 0xff) as u8);
    assert(final(out)@ =~= old(out)@ + le_u64(x));
}

fn push_u32(out: &mut Vec<u8>, x: u32)
    ensures
        final(out)@ == old(out)@ + le_u32(x),
{
    out.push((x & 0xff) as u8);
    out.push(((x >> 8u32) & 0xff) as u8);
    out.push(((x >> 16u32) & 0xff) as u8);
    out.push(((x >> 24u32) & 0xff) as u8);
    assert(final(out)@ =~= old(out)@ + le_u32(x));
}

fn read_u64(b: &Vec<u8>, off: usize) -> (r: u64)
    requires
        off + 8 <= b@.len(),
    ensures
        r == u64_at(b@, off as int),
{
    // bounds the offsets below by usize::MAX
    let _len = b.len();
    (b[off] as u64) | ((b[off + 1] as u64) << 8u64) | ((b[off + 2] as u64) << 16u64) | ((b[off
        + 3] as u64) << 24u64) | ((b[off + 4] as u64) << 32u64) | ((b[off + 5] as u64)
        << 40u64) | ((b[off + 6] as u64) << 48u64) | ((b[off + 7] as u64) << 56u64)
}

fn read_u32(b: &Vec<u8>, off: usize) -> (r: u32)
    requires
        off + 4 <= b@.len(),
    ensures
        r == u32_from_le(b@.subrange(off as int, off + 4)),
{
    // bounds the offsets below by usize::MAX
    let _len = b.len();
    (b[off] as u32) | ((b[off + 1] as u32) << 8u32) | ((b[off + 2] as u32) << 16u32) | ((b[off
        + 3] as u32) << 24u32)
}

/// The stored form of a movie.
pub fn encode_movie(m: &Movie) -> (r: Vec<u8>)
    ensures
        r@ == movie_bytes(m@),
{
    let mut out: Vec<u8> = Vec::new();
    push_u64(&mut out, m.id);
    push_u32(&mut out, m.duration);
    push_u64(&mut out, m.showtimes.len() as u64);
    let ghost head = out@;
    let mut i: usize = 0;
    while i < m.showtimes.len()
        invariant
            i <= m.showtimes@.len(),
            out@ == head + u64s_bytes(m.showtimes@.take(i as int)),
        decreases m.showtimes@.len() - i,
    {
        push_u64(&mut out, m.showtimes[i]);
        assert(m.showtimes@.take(i + 1).drop_last() =~= m.showtimes@.take(i as int));
        i = i + 1;
    }
    assert(m.showtimes@.take(i as int) =~= m.showtimes@);
    let ghost body = out@;
    out.extend_from_slice(m.title.as_str().as_bytes());
    assert(out@ =~= body + encode_utf8(m.title@));
    out
}

/// The movie that `b` holds, or `None` where `b` is not a well-formed record.
pub fn decode_movie(b: &Vec<u8>) -> (r: Option<Movie>)
    ensures
        r is Some <==> parse_movie(b@) is Some,
        r matches Some(m) ==> parse_movie(b@) == Some(m@),
{
    let len = b.len();
    if len < MOVIE_HEADER_LEN {
        return None;
    }
    let n = read_u64(b, 12);
    if (((len - MOVIE_HEADER_LEN) / 8) as u64) < n {
        assert(len < MOVIE_HEADER_LEN + 8 * n) by (nonlinear_arith)
            requires
                (((len - MOVIE_HEADER_LEN) / 8) as u64) < n,
                len >= MOVIE_HEADER_LEN,
        ;
        return None;
    }
    assert(MOVIE_HEADER_LEN + 8 * n <= len) by (nonlinear_arith)
        requires
            (((len - MOVIE_HEADER_LEN) / 8) as u64) >= n,
            len >= MOVIE_HEADER_LEN,
    ;
    let n = n as usize;
    let id = read_u64(b, 0);
    let duration = read_u32(b, 8);
    let mut showtimes: Vec<u64> = Vec::new();
    let mut i: usize = 0;
    while i < n
        invariant
            i <= n,
            MOVIE_HEADER_LEN + 8 * n <= len,
            len == b@.len(),
            showtimes@ == Seq::new(i as nat, |k: int| u64_at(b@, MOVIE_HEADER_LEN + 8 * k)),
        decreases n - i,
    {
        let v = read_u64(b, MOVIE_HEADER_LEN + 8 * i);
        showtimes.push(v);
        assert(showtimes@ =~= Seq::new((i + 1) as nat, |k: int| u64_at(b@, MOVIE_HEADER_LEN + 8 * k)));
        i = i + 1;
    }
    let start = MOVIE_HEADER_LEN + 8 * n;
    let mut title_bytes: Vec<u8> = Vec::new();
    let mut j: usize = start;
    while j < len
        invariant
            start <= j <= len,
            len == b@.len(),
            title_bytes@ == b@.subrange(start as int, j as int),
        decreases len - j,
    {
        title_bytes.push(b[j]);
        assert(title_bytes@ =~= b@.subrange(start as int, j + 1));
        j = j + 1;
    }
    match string_from_utf8(title_bytes) {
        Some(title) => {
            let m = Movie { id, title, duration, showtimes };
            assert(m@.showtimes =~= parse_movie(b@)->0.showtimes);
            Some(m)
        },
        None => None,
    }
}

/// The stored form of a booking.
pub fn encode_booking(k: &Booking) -> (r: Vec<u8>)
    ensures
        r@ == booking_bytes(*k),
{
    let mut out: Vec<u8> = Vec::new();
    push_u64(&mut out, k.id);
    push_u64(&mut out, k.movie_id);
    push_u64(&mut out, k.user_id);
    push_u64(&mut out, k.showtime);
    push_u64(&mut out, k.created_at);
    assert(out@ =~= booking_bytes(*k));
    out
}

/// The booking that `b` holds, or `None` where `b` is not a well-formed record.
pub fn decode_booking(b: &Vec<u8>) -> (r: Option<Booking>)
    ensures
        r == parse_booking(b@),
{
    if b.len() != BOOKING_LEN {
        return None;
    }
    Some(
        Booking {
            id: read_u64(b, 0),
            movie_id: read_u64(b, 8),
            user_id: read_u64(b, 16),
            showtime: read_u64(b, 24),
            created_at: read_u64(b, 32),
        },
    )
}

} // verus!
