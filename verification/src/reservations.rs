//! Bookings in flight, by the gateway's request id.
use vstd::hash_map::StringHashMap;
use vstd::prelude::*;

verus! {

/// The reservation that each request in flight was booked under. The gateway
/// later names only the request, so this leads from it to the reservation.
pub struct Reservations {
    by_request: StringHashMap<String>,
}

impl View for Reservations {
    type V = Map<Seq<char>, Seq<char>>;

    closed spec fn view(&self) -> Map<Seq<char>, Seq<char>> {
        self.by_request@.map_values(|s: String| s@)
    }
}

/// The reservation of a request, where one is booked.
pub open spec fn booked(m: Map<Seq<char>, Seq<char>>, request_id: Seq<char>) -> Option<Seq<char>> {
    if m.contains_key(request_id) {
        Some(m[request_id])
    } else {
        None
    }
}

impl Reservations {
    /// No bookings.
    pub fn new() -> (r: Self)
        ensures
            r@ == Map::<Seq<char>, Seq<char>>::empty(),
    {
        let by_request = StringHashMap::new();
        let r = Reservations { by_request };
        assert(r@ =~= Map::<Seq<char>, Seq<char>>::empty());
        r
    }

    /// Remembers a booking. One that the request had before is forgotten.
    pub fn book(&mut self, request_id: &str, reservation_id: &str)
        ensures
            final(self)@ == old(self)@.insert(request_id@, reservation_id@),
    {
        self.by_request.insert(request_id.to_owned(), reservation_id.to_owned());
        assert(self@ =~= old(self)@.insert(request_id@, reservation_id@));
    }

    /// The reservation of a request, which stays booked.
    pub fn get(&self, request_id: &str) -> (r: Option<String>)
        ensures
            crate::worker::text_of(r) == booked(self@, request_id@),
    {
        match self.by_request.get(request_id) {
            Some(reservation_id) => Some(reservation_id.clone()),
            None => None,
        }
    }

    /// Forgets the booking of a request and gives its reservation back.
    pub fn release(&mut self, request_id: &str) -> (r: Option<String>)
        ensures
            crate::worker::text_of(r) == booked(old(self)@, request_id@),
            final(self)@ == old(self)@.remove(request_id@),
    {
        let reservation_id = self.get(request_id);
        self.by_request.remove(request_id);
        assert(self@ =~= old(self)@.remove(request_id@));
        reservation_id
    }
}

/// What happens to bookings.
pub enum BookingEvent {
    /// A request is booked under a reservation.
    Booked { request: Seq<char>, reservation: Seq<char> },
    /// A request's booking is forgotten: its response is complete, or its
    /// selection failed.
    Ended { request: Seq<char> },
    /// A request's first token is there.
    PrefillDone { request: Seq<char> },
}

/// The bookings after an event.
pub open spec fn after_event(
    m: Map<Seq<char>, Seq<char>>,
    event: BookingEvent,
) -> Map<Seq<char>, Seq<char>> {
    match event {
        BookingEvent::Booked { request, reservation } => m.insert(request, reservation),
        BookingEvent::Ended { request } => m.remove(request),
        BookingEvent::PrefillDone { request: _ } => m,
    }
}

/// The bookings after a series of events, from none.
pub open spec fn after_events(events: Seq<BookingEvent>) -> Map<Seq<char>, Seq<char>>
    decreases events.len(),
{
    if events.len() == 0 {
        Map::empty()
    } else {
        after_event(after_events(events.drop_last()), events.last())
    }
}

/// The event books this request or ends its booking.
pub open spec fn concerns(event: BookingEvent, request_id: Seq<char>) -> bool {
    match event {
        BookingEvent::Booked { request, reservation: _ } => request == request_id,
        BookingEvent::Ended { request } => request == request_id,
        BookingEvent::PrefillDone { request: _ } => false,
    }
}

/// No later event than the one at `i` books this request or ends its booking.
pub open spec fn is_last_of(events: Seq<BookingEvent>, i: int, request_id: Seq<char>) -> bool {
    &&& 0 <= i < events.len()
    &&& concerns(events[i], request_id)
    &&& forall|j: int| i < j < events.len() ==> !concerns(#[trigger] events[j], request_id)
}

/// Whatever happened, a request is booked exactly where the last event that
/// concerned it booked it, and under the reservation of that event. So nothing
/// stays booked once its request ended, and what others do is no matter.
pub proof fn law_booked_until_ended(events: Seq<BookingEvent>, request_id: Seq<char>)
    ensures
        forall|i: int|
            is_last_of(events, i, request_id) ==> booked(after_events(events), request_id) == (
            match #[trigger] events[i] {
                BookingEvent::Booked { request: _, reservation } => Some(reservation),
                _ => None,
            }),
        (forall|i: int|
            0 <= i < events.len() ==> !concerns(#[trigger] events[i], request_id)) ==> booked(
            after_events(events),
            request_id,
        ) is None,
    decreases events.len(),
{
    if events.len() > 0 {
        let rest = events.drop_last();
        let n = events.len() - 1;
        law_booked_until_ended(rest, request_id);
        assert(forall|j: int| 0 <= j < n ==> #[trigger] events[j] == rest[j]);
        if !concerns(events[n], request_id) {
            assert(booked(after_events(events), request_id) == booked(
                after_events(rest),
                request_id,
            ));
            assert forall|i: int| is_last_of(events, i, request_id) implies booked(
                after_events(events),
                request_id,
            ) == (match #[trigger] events[i] {
                BookingEvent::Booked { request: _, reservation } => Some(reservation),
                _ => None,
            }) by {
                assert(i != n);
                assert forall|j: int| i < j < rest.len() implies !concerns(
                    #[trigger] rest[j],
                    request_id,
                ) by {
                    assert(!concerns(events[j], request_id));
                }
                assert(is_last_of(rest, i, request_id));
                assert(rest[i] == events[i]);
            }
            if forall|i: int| 0 <= i < events.len() ==> !concerns(
                #[trigger] events[i],
                request_id,
            ) {
                assert forall|i: int| 0 <= i < rest.len() implies !concerns(
                    #[trigger] rest[i],
                    request_id,
                ) by {
                    assert(!concerns(events[i], request_id));
                }
            }
        } else {
            assert forall|i: int| is_last_of(events, i, request_id) implies i == n by {
                if i < n {
                    assert(!concerns(events[n], request_id));
                }
            }
        }
    }
}

/// A booking comes back when its request ends, and only once.
pub proof fn law_released_once(
    m: Map<Seq<char>, Seq<char>>,
    request: Seq<char>,
    reservation: Seq<char>,
)
    ensures
        ({
            let during = after_event(m, BookingEvent::Booked { request, reservation });
            &&& booked(during, request) == Some(reservation)
            &&& booked(after_event(during, BookingEvent::Ended { request }), request) is None
        }),
{
}

/// The end of a prefill changes no booking.
pub proof fn law_prefill_keeps_bookings(m: Map<Seq<char>, Seq<char>>, request: Seq<char>)
    ensures
        after_event(m, BookingEvent::PrefillDone { request }) == m,
{
}

/// A pick that fails after it was booked leaves the bookings as they were,
/// where the request had none before.
pub proof fn law_failed_pick_leaves_no_trace(
    m: Map<Seq<char>, Seq<char>>,
    request: Seq<char>,
    reservation: Seq<char>,
)
    requires
        booked(m, request) is None,
    ensures
        after_event(
            after_event(m, BookingEvent::Booked { request, reservation }),
            BookingEvent::Ended { request },
        ) == m,
{
    assert(m.insert(request, reservation).remove(request) =~= m);
}

/// To end a request that is not booked changes nothing.
pub proof fn law_ending_unbooked_changes_nothing(
    m: Map<Seq<char>, Seq<char>>,
    request: Seq<char>,
)
    requires
        booked(m, request) is None,
    ensures
        after_event(m, BookingEvent::Ended { request }) == m,
{
    assert(m.remove(request) =~= m);
}

/// Where nothing was booked, no request has a reservation.
pub proof fn law_nothing_is_booked_at_first(
    bookings: Reservations,
    request_id: &str,
    got: Option<String>,
)
    requires
        call_ensures(Reservations::new, (), bookings),
        call_ensures(Reservations::get, (&bookings, request_id), got),
    ensures
        got is None,
{
}

/// After a booking its request leads to that very reservation, whatever it led
/// to before, and every other request leads where it led before.
pub proof fn law_booking_is_found_again(
    bookings: &mut Reservations,
    request_id: &str,
    reservation_id: &str,
    other: &str,
    before: Option<String>,
    after: Option<String>,
)
    requires
        call_ensures(Reservations::book, (bookings, request_id, reservation_id), ()),
        call_ensures(Reservations::get, (&*old(bookings), other), before),
        call_ensures(Reservations::get, (&*final(bookings), other), after),
    ensures
        other@ == request_id@ ==> after is Some && after->0@ == reservation_id@,
        other@ != request_id@ ==> crate::worker::alike_text(before, after),
{
}

/// A release gives back what the request led to; after it the request leads
/// nowhere, and every other request leads where it led before.
pub proof fn law_release_gives_back_and_forgets(
    bookings: &mut Reservations,
    request_id: &str,
    released: Option<String>,
    other: &str,
    before: Option<String>,
    after: Option<String>,
)
    requires
        call_ensures(Reservations::release, (bookings, request_id), released),
        call_ensures(Reservations::get, (&*old(bookings), other), before),
        call_ensures(Reservations::get, (&*final(bookings), other), after),
    ensures
        other@ == request_id@ ==> crate::worker::alike_text(before, released) && after is None,
        other@ != request_id@ ==> crate::worker::alike_text(before, after),
{
}

} // verus!
