//! The records of a transit feed as the alignment reads them.
use vstd::prelude::*;

verus! {

/// Whether a service is available at a stop or on a trip.
#[derive(Clone, Copy, Debug, PartialEq, Eq, Structural)]
pub enum Availability {
    InformationNotAvailable,
    Available,
    NotAvailable,
    Unknown(i16),
}

/// Whether bicycles may be taken on a trip.
#[derive(Clone, Copy, Debug, PartialEq, Eq, Structural)]
pub enum BikesAllowedType {
    NoBikeInfo,
    AtLeastOneBike,
    NoBikesAllowed,
    Unknown(i16),
}

/// The direction of travel of a trip.
#[derive(Clone, Copy, Debug, PartialEq, Eq, Structural)]
pub enum DirectionType {
    Outbound,
    Inbound,
}

/// Whether a calendar date adds or removes service.
#[derive(Clone, Copy, Debug, PartialEq, Eq, Structural)]
pub enum Exception {
    Added,
    Deleted,
}

/// The kind of vehicle that serves a route.
#[derive(Clone, Copy, Debug, PartialEq, Eq, Structural)]
pub enum RouteType {
    Tramway,
    Subway,
    Rail,
    Bus,
    Ferry,
    CableCar,
    Gondola,
    Funicular,
    /// Any other code of the feed.
    Other(i16),
}

/// A day of the proleptic Gregorian calendar.
#[derive(Clone, Copy, Debug, PartialEq, Eq, Structural)]
pub struct GtfsDate {
    pub year: i32,
    pub month: u32,
    pub day: u32,
}

/// The operator of a network.
#[derive(Debug)]
pub struct GtfsAgency {
    pub id: Option<String>,
    pub name: String,
    pub url: String,
    pub phone: Option<String>,
}

/// A place where vehicles pick up or drop off riders. The coordinates are
/// number literals.
#[derive(Debug)]
pub struct GtfsStop {
    pub id: String,
    pub name: String,
    pub latitude: Option<String>,
    pub longitude: Option<String>,
    pub zone_id: Option<String>,
    pub wheelchair_boarding: Availability,
}

/// A group of trips shown to riders as one service.
#[derive(Debug)]
pub struct GtfsRoute {
    pub id: String,
    pub agency_id: Option<String>,
    pub short_name: String,
    pub long_name: String,
    pub route_type: RouteType,
}

/// A call of a trip at a stop. Times are seconds after the midnight that
/// starts the service day.
#[derive(Debug)]
pub struct GtfsStopTime {
    pub stop_id: String,
    pub arrival_time: Option<u32>,
    pub departure_time: Option<u32>,
    pub stop_sequence: u32,
}

/// A journey of a vehicle along a route, with its calls in order.
#[derive(Debug)]
pub struct GtfsTrip {
    pub id: String,
    pub route_id: String,
    pub service_id: String,
    pub trip_headsign: Option<String>,
    pub direction_id: Option<DirectionType>,
    pub wheelchair_accessible: Availability,
    pub bikes_allowed: BikesAllowedType,
    pub stop_times: Vec<GtfsStopTime>,
}

/// The days of the week on which a service runs, between two dates.
#[derive(Debug)]
pub struct GtfsCalendar {
    pub id: String,
    pub start_date: GtfsDate,
    pub end_date: GtfsDate,
    pub monday: bool,
    pub tuesday: bool,
    pub wednesday: bool,
    pub thursday: bool,
    pub friday: bool,
    pub saturday: bool,
    pub sunday: bool,
}

/// One date on which a service runs or does not run, whatever its week says.
#[derive(Debug)]
pub struct GtfsCalendarDate {
    pub service_id: String,
    pub date: GtfsDate,
    pub exception_type: Exception,
}

/// One transit feed, decoded.
#[derive(Debug)]
pub struct Gtfs {
    pub agencies: Vec<GtfsAgency>,
    pub stops: Vec<GtfsStop>,
    pub routes: Vec<GtfsRoute>,
    pub trips: Vec<GtfsTrip>,
    pub calendar: Vec<GtfsCalendar>,
    pub calendar_dates: Vec<GtfsCalendarDate>,
}

} // verus!
