//! The route search form: which fields a search mode shows, and when a
//! search can run.
use vstd::prelude::*;
use crate::text::{blank, is_blank};

verus! {

#[derive(Debug, Clone, Copy, PartialEq, Eq, Structural)]
pub enum SearchMode {
    /// Scheduled routes to every airport.
    AnyDestination,
    /// Scheduled routes to chosen airports.
    SpecificDestination,
    /// Ferry flights to sell the aircraft.
    Sell,
}

impl Default for SearchMode {
    fn default() -> (r: SearchMode)
        ensures
            r == SearchMode::AnyDestination,
    {
        SearchMode::AnyDestination
    }
}

/// The fields a search mode shows.
#[derive(Debug, Clone, Copy, PartialEq, Eq, Structural)]
pub struct FormFields {
    pub destination: bool,
    pub distance_filters: bool,
    pub num_ac: bool,
    pub tpd: bool,
    pub ci: bool,
}

/// Destinations are chosen only for specific destinations, which hide the
/// distance filters; the number of aircraft is asked only when any
/// destination goes; selling asks neither trips per day nor a cost index.
pub open spec fn fields_spec(mode: SearchMode) -> FormFields {
    FormFields {
        destination: mode == SearchMode::SpecificDestination,
        distance_filters: mode != SearchMode::SpecificDestination,
        num_ac: mode == SearchMode::AnyDestination,
        tpd: mode != SearchMode::Sell,
        ci: mode != SearchMode::Sell,
    }
}

impl SearchMode {
    pub fn fields(&self) -> (r: FormFields)
        ensures
            r == fields_spec(*self),
    {
        FormFields {
            destination: *self == SearchMode::SpecificDestination,
            distance_filters: *self != SearchMode::SpecificDestination,
            num_ac: *self == SearchMode::AnyDestination,
            tpd: *self != SearchMode::Sell,
            ci: *self != SearchMode::Sell,
        }
    }

    /// A search runs once an aircraft and an origin are chosen, and a
    /// destination when the mode asks for one.
    pub fn can_execute(&self, aircraft_chosen: usize, origins_chosen: usize, destinations_chosen: usize) -> (r: bool)
        ensures
            r == (aircraft_chosen > 0 && origins_chosen > 0 && (*self != SearchMode::SpecificDestination
                || destinations_chosen > 0)),
    {
        aircraft_chosen > 0 && origins_chosen > 0 && (*self != SearchMode::SpecificDestination
            || destinations_chosen > 0)
    }

    /// Stopovers inflate the distance only when any destination goes and the
    /// option is on.
    pub fn inflates_with_stopover(&self, stopover: bool) -> (r: bool)
        ensures
            r == (*self == SearchMode::AnyDestination && stopover),
    {
        *self == SearchMode::AnyDestination && stopover
    }
}

/// The stopover option stays on only while a maximum distance is typed.
pub fn keep_stopover_option(stopover: bool, dist_max: &str) -> (r: bool)
    ensures
        r == (stopover && !is_blank(dist_max@)),
{
    stopover && !blank(dist_max)
}

} // verus!
