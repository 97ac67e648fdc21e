use vstd::prelude::*;

verus! {

/// A movie with its schedule of showtimes.
#[derive(Clone, Debug)]
pub struct Movie {
    pub id: u64,
    pub title: String,
    /// Length in minutes.
    pub duration: u32,
    /// Timestamps of the screenings, in the order the creator gave them.
    pub showtimes: Vec<u64>,
}

/// The mathematical value of a movie.
pub struct MovieView {
    pub id: u64,
    pub title: Seq<char>,
    pub duration: u32,
    pub showtimes: Seq<u64>,
}

impl View for Movie {
    type V = MovieView;

    open spec fn view(&self) -> MovieView {
        MovieView {
            id: self.id,
            title: self.title@,
            duration: self.duration,
            showtimes: self.showtimes@,
        }
    }
}

/// A ticket booked by a user for one showtime of one movie.
#[derive(Clone, Copy, Debug, PartialEq, Eq, Structural)]
pub struct Booking {
    pub id: u64,
    pub movie_id: u64,
    pub user_id: u64,
    pub showtime: u64,
    /// The time at which the store created the booking.
    pub created_at: u64,
}

impl View for Booking {
    type V = Booking;

    open spec fn view(&self) -> Booking {
        *self
    }
}

/// The ways in which an operation of the store can fail.
#[derive(Clone, Copy, Debug, PartialEq, Eq, Structural)]
pub enum StoreError {
    /// No movie has the requested identifier.
    MovieNotFound,
    /// The movie has no screening at the requested time.
    InvalidShowtime,
    /// No active booking has the requested identifier.
    BookingNotFound,
    /// Durable storage could not record a change, or held data that does
    /// not decode; the change was not made.
    FatalStorageFault,
}

/// The message that tells the caller of an error.
pub open spec fn error_message(e: StoreError) -> Seq<char> {
    match e {
        StoreError::MovieNotFound => "Movie not found"@,
        StoreError::InvalidShowtime => "Invalid showtime"@,
        StoreError::BookingNotFound => "Booking not found"@,
        StoreError::FatalStorageFault => "Storage fault"@,
    }
}

impl StoreError {
    /// A message for the caller.
    pub fn message(&self) -> (r: String)
        ensures
            r@ == error_message(*self),
    {
        match self {
            StoreError::MovieNotFound => String::from_str("Movie not found"),
            StoreError::InvalidShowtime => String::from_str("Invalid showtime"),
            StoreError::BookingNotFound => String::from_str("Booking not found"),
            StoreError::FatalStorageFault => String::from_str("Storage fault"),
        }
    }
}

} // verus!
