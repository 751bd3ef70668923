//! The data served by the mock endpoint: departure records and the fixed
//! set of four of them that every `GET /nextrip/{stop_id}` request gets.

use vstd::prelude::*;

verus! {

/// Status of a departure relative to its published schedule.
#[derive(Clone, Copy, Debug, PartialEq, Eq, Structural)]
pub enum ScheduleRelationship {
    NoData,
    Scheduled,
    Skipped,
}

/// One simulated vehicle departure event.
#[derive(Debug)]
pub struct Departure {
    /// Whether the departure time is a real-time estimate rather than a
    /// scheduled-only value.
    pub actual: bool,
    pub trip_id: String,
    /// Human-readable departure time, e.g. `Due` or `4 Min`.
    pub departure_text: String,
    pub route_short_name: String,
    /// Terminal or platform label; absent for some departures.
    pub terminal: Option<String>,
    pub schedule_relationship: ScheduleRelationship,
}

/// Mathematical image of a [`Departure`]: the same fields with strings as
/// character sequences.
#[verifier::ext_equal]
pub struct DepartureView {
    pub actual: bool,
    pub trip_id: Seq<char>,
    pub departure_text: Seq<char>,
    pub route_short_name: Seq<char>,
    pub terminal: Option<Seq<char>>,
    pub schedule_relationship: ScheduleRelationship,
}

impl View for Departure {
    type V = DepartureView;

    open spec fn view(&self) -> DepartureView {
        DepartureView {
            actual: self.actual,
            trip_id: self.trip_id@,
            departure_text: self.departure_text@,
            route_short_name: self.route_short_name@,
            terminal: match self.terminal {
                Some(t) => Some(t@),
                None => None,
            },
            schedule_relationship: self.schedule_relationship,
        }
    }
}

/// The response envelope: an ordered sequence of departure records.
#[derive(Debug)]
pub struct NexTripResponse {
    pub departures: Vec<Departure>,
}

impl View for NexTripResponse {
    type V = Seq<DepartureView>;

    open spec fn view(&self) -> Seq<DepartureView> {
        self.departures@.map_values(|d: Departure| d@)
    }
}

/// The four departure records served for every stop id, in order.
pub open spec fn fixture_departures() -> Seq<DepartureView> {
    seq![
        DepartureView {
            actual: true,
            trip_id: "foo"@,
            departure_text: "Due"@,
            route_short_name: "0"@,
            terminal: Some("Z"@),
            schedule_relationship: ScheduleRelationship::Scheduled,
        },
        DepartureView {
            actual: true,
            trip_id: "bar"@,
            departure_text: "4 Min"@,
            route_short_name: "012"@,
            terminal: None,
            schedule_relationship: ScheduleRelationship::Scheduled,
        },
        DepartureView {
            actual: false,
            trip_id: "baz"@,
            departure_text: "12:34"@,
            route_short_name: "99"@,
            terminal: Some("E"@),
            schedule_relationship: ScheduleRelationship::Skipped,
        },
        DepartureView {
            actual: false,
            trip_id: "qux"@,
            departure_text: "1:23"@,
            route_short_name: "42"@,
            terminal: Some("B"@),
            schedule_relationship: ScheduleRelationship::NoData,
        },
    ]
}

/// Builds the response served for every valid `GET /nextrip/{stop_id}`
/// request: exactly the four fixed records, in order.
pub fn nextrip_response() -> (r: NexTripResponse)
    ensures
        r@ == fixture_departures(),
{
    let mut departures: Vec<Departure> = Vec::new();
    departures.push(Departure {
        actual: true,
        trip_id: "foo".to_owned(),
        departure_text: "Due".to_owned(),
        route_short_name: "0".to_owned(),
        terminal: Some("Z".to_owned()),
        schedule_relationship: ScheduleRelationship::Scheduled,
    });
    departures.push(Departure {
        actual: true,
        trip_id: "bar".to_owned(),
        departure_text: "4 Min".to_owned(),
        route_short_name: "012".to_owned(),
        terminal: None,
        schedule_relationship: ScheduleRelationship::Scheduled,
    });
    departures.push(Departure {
        actual: false,
        trip_id: "baz".to_owned(),
        departure_text: "12:34".to_owned(),
        route_short_name: "99".to_owned(),
        terminal: Some("E".to_owned()),
        schedule_relationship: ScheduleRelationship::Skipped,
    });
    departures.push(Departure {
        actual: false,
        trip_id: "qux".to_owned(),
        departure_text: "1:23".to_owned(),
        route_short_name: "42".to_owned(),
        terminal: Some("B".to_owned()),
        schedule_relationship: ScheduleRelationship::NoData,
    });
    let r = NexTripResponse { departures };
    proof {
        assert(r@ =~~= fixture_departures());
    }
    r
}

} // verus!
