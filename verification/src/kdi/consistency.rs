//! What holds of every merged model: its references resolve, and it is the
//! same whenever the sources hold the same records.
use crate::kdi::align::{
    calendar_exceptions_of, calendars_of, coordinates_of, fare_of, fare_rule_of, fare_rules_of,
    fares_of, lemma_namespace_injective, namespace, poi_location_of, poi_locations_of,
    public_transport_stops_of, routes_of, stop_location_of, stop_locations_of, stop_time_of,
    stop_times_of, three_tables, trip_of, trip_stop_times_of, trips_of, zone_id, zone_location_of,
    zone_locations_of, zone_or_default, CalendarBuilder, CalendarExceptionBuilder, FareBuilder,
    FareRuleBuilder, PoiFamily, PoiLocationBuilder, PublicTransportStopBuilder, RouteBuilder,
    StopLocationBuilder, StopTimeBuilder, TT, TripBuilder, ZoneLocationBuilder,
};
use crate::kdi::builder::{
    built_by, lemma_built_elements, lemma_built_members, lemma_built_same_records,
    lemma_try_flat_map_members, lemma_try_flat_map_same_records, try_flat_map, Builder,
};
use crate::kdi::enums::KdiFareEnum;
use crate::kdi::error::AlignError;
use crate::kdi::gtfs::{Gtfs, GtfsStop, GtfsTrip};
use crate::kdi::kml::Placemark;
use crate::kdi::model::{
    chain, is_model_of, model_agencies, model_calendar_exceptions, model_calendars,
    model_fare_rules, model_fares, model_fault, model_locations, model_parking_stops,
    model_public_transport_stops, model_routes, model_stop_times, model_trips, KdiModelView,
    PoiSources, TierSources,
};
use crate::kdi::order::{
    distinct_keys, is_stable_sort, lemma_distinct_keys_of_same_records,
    lemma_stable_sort_ignores_order, lemma_stable_sort_unique, Keyed,
};
use crate::kdi::structs::{
    KdiAgency, KdiCalendar, KdiCalendarException, KdiFare, KdiFareRule, KdiFareRuleRow,
    KdiFareRuleView, KdiFareView, KdiLocation, KdiLocationView, KdiParkingStop,
    KdiPublicTransportStop, KdiRoute, KdiStopTime, KdiStopTimeView, KdiTrip, KdiTripView, KdiZone,
};
use crate::kdi::text::{decimal, is_number, lemma_decimal_injective, split};
use vstd::prelude::*;
use vstd::seq_lib::{lemma_multiset_commutative, to_multiset_contains};

verus! {

/// The sources of a tier.
pub open spec fn tier(tt: TT, urban: TierSources, extra_urban: TierSources) -> TierSources {
    match tt {
        TT::Urban => urban,
        TT::ExtraUrban => extra_urban,
    }
}

/// Whether a feed has a route of an identifier.
pub open spec fn feed_has_route(gtfs: Gtfs, id: Seq<char>) -> bool {
    exists|j: int| 0 <= j < gtfs.routes@.len() && (#[trigger] gtfs.routes@[j]).id@ == id
}

/// Whether a feed has a calendar of an identifier.
pub open spec fn feed_has_calendar(gtfs: Gtfs, id: Seq<char>) -> bool {
    exists|j: int| 0 <= j < gtfs.calendar@.len() && (#[trigger] gtfs.calendar@[j]).id@ == id
}

/// Whether a feed has a stop of an identifier.
pub open spec fn feed_has_stop(gtfs: Gtfs, id: Seq<char>) -> bool {
    exists|j: int| 0 <= j < gtfs.stops@.len() && (#[trigger] gtfs.stops@[j]).id@ == id
}

/// Whether a zone table has a zone of an identifier.
pub open spec fn has_zone(zones: Seq<KdiZone>, id: Seq<char>) -> bool {
    exists|j: int| 0 <= j < zones.len() && (#[trigger] zones[j]).id@ == id
}

/// Whether the references of a feed resolve within it: every trip names a
/// route and a calendar of the feed, and every call a stop of the feed.
pub open spec fn feed_references_resolve(gtfs: Gtfs) -> bool {
    forall|i: int|
        0 <= i < gtfs.trips@.len() ==> {
            let trip = #[trigger] gtfs.trips@[i];
            &&& feed_has_route(gtfs, trip.route_id@)
            &&& feed_has_calendar(gtfs, trip.service_id@)
            &&& forall|k: int|
                0 <= k < trip.stop_times@.len() ==> feed_has_stop(
                    gtfs,
                    (#[trigger] trip.stop_times@[k]).stop_id@,
                )
        }
}

/// Whether the zones of the rows of a fare-rule table, the default zone
/// where a row names none, are zones of a zone table.
pub open spec fn rows_refer_to_zones(rows: Seq<KdiFareRuleRow>, zones: Seq<KdiZone>) -> bool {
    forall|i: int|
        0 <= i < rows.len() ==> {
            let row = #[trigger] rows[i];
            &&& has_zone(zones, zone_or_default(row.origin))
            &&& has_zone(zones, zone_or_default(row.destination))
        }
}

/// Whether the references of the sources of a tier resolve within the tier.
pub open spec fn tier_references_resolve(t: TierSources) -> bool {
    &&& feed_references_resolve(t.gtfs)
    &&& rows_refer_to_zones(t.fare_rules_cash@, t.zones@)
    &&& rows_refer_to_zones(t.fare_rules_card@, t.zones@)
    &&& rows_refer_to_zones(t.fare_rules_mobile@, t.zones@)
}

/// Whether a model has a location of an identifier.
pub open spec fn has_location(model: KdiModelView, id: Seq<char>) -> bool {
    exists|j: int| 0 <= j < model.locations.len() && (#[trigger] model.locations[j]).id == id
}

/// Whether a model has a route of an identifier.
pub open spec fn has_route(model: KdiModelView, id: Seq<char>) -> bool {
    exists|j: int| 0 <= j < model.routes.len() && (#[trigger] model.routes[j]).id == id
}

/// Whether a model has a calendar of an identifier.
pub open spec fn has_calendar(model: KdiModelView, id: Seq<char>) -> bool {
    exists|j: int| 0 <= j < model.calendars.len() && (#[trigger] model.calendars[j]).id == id
}

/// Whether a model has a trip of an identifier.
pub open spec fn has_trip(model: KdiModelView, id: Seq<char>) -> bool {
    exists|j: int| 0 <= j < model.trips.len() && (#[trigger] model.trips[j]).id == id
}

/// Whether the references of a model resolve within it: the route and the
/// calendar of every trip, the trip and the stop of every stop time, and the
/// two zones of every fare rule.
pub open spec fn foreign_keys_resolve(model: KdiModelView) -> bool {
    &&& forall|i: int|
        0 <= i < model.trips.len() ==> {
            let trip = #[trigger] model.trips[i];
            has_route(model, trip.route) && has_calendar(model, trip.calendar)
        }
    &&& forall|i: int|
        0 <= i < model.stop_times.len() ==> {
            let call = #[trigger] model.stop_times[i];
            has_trip(model, call.trip) && has_location(model, call.stop)
        }
    &&& forall|i: int|
        0 <= i < model.fare_rules.len() ==> {
            let rule = #[trigger] model.fare_rules[i];
            has_location(model, rule.origin) && has_location(model, rule.destination)
        }
}

/// A sorted collection holds the records that were built, and no others.
proof fn lemma_sorted_members<T: Keyed>(out: Seq<T::V>, inp: Seq<T::V>, x: T::V)
    requires
        is_stable_sort::<T>(out, inp),
    ensures
        out.contains(x) <==> inp.contains(x),
{
    to_multiset_contains(out, x);
    to_multiset_contains(inp, x);
}

/// What two builder calls in a row build holds what either built.
proof fn lemma_chain_members<B>(
    first: Result<Seq<B>, AlignError>,
    next: Result<Seq<B>, AlignError>,
    x: B,
)
    requires
        chain(first, next) is Ok,
    ensures
        first is Ok,
        next is Ok,
        chain(first, next)->Ok_0.contains(x) <==> first->Ok_0.contains(x) || next->Ok_0.contains(
            x,
        ),
{
    let a = first->Ok_0;
    let b = next->Ok_0;
    if (a + b).contains(x) {
        let p = choose|p: int| 0 <= p < (a + b).len() && (a + b)[p] == x;
        if p < a.len() {
            assert(a[p] == x);
        } else {
            assert(b[p - a.len()] == x);
        }
    }
    if a.contains(x) {
        let p = choose|p: int| 0 <= p < a.len() && a[p] == x;
        assert((a + b)[p] == x);
    }
    if b.contains(x) {
        let p = choose|p: int| 0 <= p < b.len() && b[p] == x;
        assert((a + b)[a.len() + p] == x);
    }
}

/// The placemarks of the feed of a family of points of interest.
pub open spec fn placemarks_of(family: PoiFamily, poi: PoiSources) -> Seq<Placemark> {
    match family {
        PoiFamily::CarSharing => poi.car_sharing.document.folder.placemarks@,
        PoiFamily::CentroInBici => poi.centro_in_bici.document.folder.placemarks@,
        PoiFamily::ParcheggioProtettoBiciclette =>
            poi.parcheggio_protetto_biciclette.document.folder.placemarks@,
        PoiFamily::Taxi => poi.taxi.document.folder.placemarks@,
    }
}

/// Whether every builder call for the locations builds without a fault.
pub open spec fn locations_built(
    urban: TierSources,
    extra_urban: TierSources,
    poi: PoiSources,
) -> bool {
    &&& forall|tt: TT| #[trigger]
        zone_locations_of(tt, tier(tt, urban, extra_urban).zones@) is Ok
    &&& forall|tt: TT| #[trigger]
        stop_locations_of(tt, tier(tt, urban, extra_urban).gtfs.stops@) is Ok
    &&& forall|family: PoiFamily| #[trigger]
        poi_locations_of(family, placemarks_of(family, poi)) is Ok
}

/// Whether a location was built by one of the builder calls for the
/// locations.
pub open spec fn location_built(
    urban: TierSources,
    extra_urban: TierSources,
    poi: PoiSources,
    y: KdiLocationView,
) -> bool {
    ||| exists|tt: TT| #[trigger]
        zone_locations_of(tt, tier(tt, urban, extra_urban).zones@)->Ok_0.contains(y)
    ||| exists|tt: TT| #[trigger]
        stop_locations_of(tt, tier(tt, urban, extra_urban).gtfs.stops@)->Ok_0.contains(y)
    ||| exists|family: PoiFamily| #[trigger]
        poi_locations_of(family, placemarks_of(family, poi))->Ok_0.contains(y)
}

/// The locations that are built are those that the eight builder calls for
/// the locations build.
proof fn lemma_location_members(
    urban: TierSources,
    extra_urban: TierSources,
    poi: PoiSources,
    y: KdiLocationView,
)
    requires
        model_locations(urban, extra_urban, poi) is Ok,
    ensures
        locations_built(urban, extra_urban, poi),
        model_locations(urban, extra_urban, poi)->Ok_0.contains(y) <==> location_built(
            urban,
            extra_urban,
            poi,
            y,
        ),
{
    let zones_extra_urban = zone_locations_of(
        TT::ExtraUrban,
        tier(TT::ExtraUrban, urban, extra_urban).zones@,
    );
    let zones_urban = zone_locations_of(TT::Urban, tier(TT::Urban, urban, extra_urban).zones@);
    let stops_extra_urban = stop_locations_of(
        TT::ExtraUrban,
        tier(TT::ExtraUrban, urban, extra_urban).gtfs.stops@,
    );
    let stops_urban = stop_locations_of(
        TT::Urban,
        tier(TT::Urban, urban, extra_urban).gtfs.stops@,
    );
    let car_sharing = poi_locations_of(
        PoiFamily::CarSharing,
        placemarks_of(PoiFamily::CarSharing, poi),
    );
    let centro_in_bici = poi_locations_of(
        PoiFamily::CentroInBici,
        placemarks_of(PoiFamily::CentroInBici, poi),
    );
    let bike_parks = poi_locations_of(
        PoiFamily::ParcheggioProtettoBiciclette,
        placemarks_of(PoiFamily::ParcheggioProtettoBiciclette, poi),
    );
    let taxi = poi_locations_of(PoiFamily::Taxi, placemarks_of(PoiFamily::Taxi, poi));
    let zones = chain(zones_extra_urban, zones_urban);
    let with_stops = chain(zones, stops_extra_urban);
    let places = chain(with_stops, stops_urban);
    let with_cars = chain(places, car_sharing);
    let shared = chain(with_cars, centro_in_bici);
    let with_parks = chain(shared, bike_parks);
    assert(chain(with_parks, taxi) == model_locations(urban, extra_urban, poi));
    lemma_chain_members(with_parks, taxi, y);
    lemma_chain_members(shared, bike_parks, y);
    lemma_chain_members(with_cars, centro_in_bici, y);
    lemma_chain_members(places, car_sharing, y);
    lemma_chain_members(with_stops, stops_urban, y);
    lemma_chain_members(zones, stops_extra_urban, y);
    lemma_chain_members(zones_extra_urban, zones_urban, y);
    assert forall|tt: TT| #[trigger]
        zone_locations_of(tt, tier(tt, urban, extra_urban).zones@) is Ok by {
        assert(tt == TT::Urban || tt == TT::ExtraUrban);
    }
    assert forall|tt: TT| #[trigger]
        stop_locations_of(tt, tier(tt, urban, extra_urban).gtfs.stops@) is Ok by {
        assert(tt == TT::Urban || tt == TT::ExtraUrban);
    }
    assert forall|family: PoiFamily| #[trigger]
        poi_locations_of(family, placemarks_of(family, poi)) is Ok by {
        assert(family == PoiFamily::CarSharing || family == PoiFamily::CentroInBici || family
            == PoiFamily::ParcheggioProtettoBiciclette || family == PoiFamily::Taxi);
    }
    if location_built(urban, extra_urban, poi, y) {
        if exists|tt: TT| #[trigger]
            zone_locations_of(tt, tier(tt, urban, extra_urban).zones@)->Ok_0.contains(y) {
            let tt = choose|tt: TT| #[trigger]
                zone_locations_of(tt, tier(tt, urban, extra_urban).zones@)->Ok_0.contains(y);
            assert(tt == TT::Urban || tt == TT::ExtraUrban);
        } else if exists|tt: TT| #[trigger]
            stop_locations_of(tt, tier(tt, urban, extra_urban).gtfs.stops@)->Ok_0.contains(y) {
            let tt = choose|tt: TT| #[trigger]
                stop_locations_of(tt, tier(tt, urban, extra_urban).gtfs.stops@)->Ok_0.contains(y);
            assert(tt == TT::Urban || tt == TT::ExtraUrban);
        } else {
            let family = choose|family: PoiFamily| #[trigger]
                poi_locations_of(family, placemarks_of(family, poi))->Ok_0.contains(y);
            assert(family == PoiFamily::CarSharing || family == PoiFamily::CentroInBici || family
                == PoiFamily::ParcheggioProtettoBiciclette || family == PoiFamily::Taxi);
        }
    }
    if model_locations(urban, extra_urban, poi)->Ok_0.contains(y) {
        if zones_extra_urban->Ok_0.contains(y) || zones_urban->Ok_0.contains(y) {
        } else if stops_extra_urban->Ok_0.contains(y) || stops_urban->Ok_0.contains(y) {
        } else {
            assert(car_sharing->Ok_0.contains(y) || centro_in_bici->Ok_0.contains(y)
                || bike_parks->Ok_0.contains(y) || taxi->Ok_0.contains(y));
        }
    }
}

/// The location of a zone of a tier is in the model.
proof fn lemma_zone_in_model(
    model: KdiModelView,
    urban: TierSources,
    extra_urban: TierSources,
    poi: PoiSources,
    tt: TT,
    j: int,
)
    requires
        is_model_of(model, urban, extra_urban, poi),
        0 <= j < tier(tt, urban, extra_urban).zones@.len(),
    ensures
        has_location(model, zone_id(tt, tier(tt, urban, extra_urban).zones@[j].id@)),
{
    let s = tier(tt, urban, extra_urban).zones@;
    let builder = ZoneLocationBuilder { tt };
    let dummy = builder.makes(j, s[j])->Ok_0;
    lemma_location_members(urban, extra_urban, poi, dummy);
    lemma_built_elements(builder, s);
    assert(builder.makes(j, s[j]) is Ok);
    let y = built_by(builder, s)->Ok_0[j];
    assert(y == dummy);
    assert(zone_locations_of(tt, s)->Ok_0.contains(y));
    lemma_sorted_members::<KdiLocation>(
        model.locations,
        model_locations(urban, extra_urban, poi)->Ok_0,
        y,
    );
    let p = choose|p: int| 0 <= p < model.locations.len() && model.locations[p] == y;
    assert(model.locations[p].id == zone_id(tt, s[j].id@));
}

/// The location of a stop of a tier is in the model.
proof fn lemma_stop_in_model(
    model: KdiModelView,
    urban: TierSources,
    extra_urban: TierSources,
    poi: PoiSources,
    tt: TT,
    j: int,
)
    requires
        is_model_of(model, urban, extra_urban, poi),
        0 <= j < tier(tt, urban, extra_urban).gtfs.stops@.len(),
    ensures
        has_location(model, namespace(tt, tier(tt, urban, extra_urban).gtfs.stops@[j].id@)),
{
    let s = tier(tt, urban, extra_urban).gtfs.stops@;
    let builder = StopLocationBuilder { tt };
    let dummy = builder.makes(j, s[j])->Ok_0;
    lemma_location_members(urban, extra_urban, poi, dummy);
    lemma_built_elements(builder, s);
    assert(builder.makes(j, s[j]) is Ok);
    let y = built_by(builder, s)->Ok_0[j];
    assert(y == dummy);
    assert(stop_locations_of(tt, s)->Ok_0.contains(y));
    lemma_sorted_members::<KdiLocation>(
        model.locations,
        model_locations(urban, extra_urban, poi)->Ok_0,
        y,
    );
    let p = choose|p: int| 0 <= p < model.locations.len() && model.locations[p] == y;
    assert(model.locations[p].id == namespace(tt, s[j].id@));
}

/// The route of the model for a route of a tier is in the model.
proof fn lemma_route_in_model(
    model: KdiModelView,
    urban: TierSources,
    extra_urban: TierSources,
    poi: PoiSources,
    tt: TT,
    j: int,
)
    requires
        is_model_of(model, urban, extra_urban, poi),
        0 <= j < tier(tt, urban, extra_urban).gtfs.routes@.len(),
    ensures
        has_route(model, namespace(tt, tier(tt, urban, extra_urban).gtfs.routes@[j].id@)),
{
    let s = tier(tt, urban, extra_urban).gtfs.routes@;
    let builder = RouteBuilder { tt };
    let first = routes_of(TT::ExtraUrban, extra_urban.gtfs.routes@);
    let next = routes_of(TT::Urban, urban.gtfs.routes@);
    let dummy = builder.makes(j, s[j])->Ok_0;
    lemma_chain_members(first, next, dummy);
    lemma_built_elements(builder, s);
    assert(builder.makes(j, s[j]) is Ok);
    let y = built_by(builder, s)->Ok_0[j];
    assert(y == dummy);
    assert(routes_of(tt, s)->Ok_0.contains(y));
    lemma_sorted_members::<KdiRoute>(model.routes, model_routes(urban, extra_urban, poi)->Ok_0, y);
    let p = choose|p: int| 0 <= p < model.routes.len() && model.routes[p] == y;
    assert(model.routes[p].id == namespace(tt, s[j].id@));
}

/// The calendar of the model for a calendar of a tier is in the model.
proof fn lemma_calendar_in_model(
    model: KdiModelView,
    urban: TierSources,
    extra_urban: TierSources,
    poi: PoiSources,
    tt: TT,
    j: int,
)
    requires
        is_model_of(model, urban, extra_urban, poi),
        0 <= j < tier(tt, urban, extra_urban).gtfs.calendar@.len(),
    ensures
        has_calendar(model, namespace(tt, tier(tt, urban, extra_urban).gtfs.calendar@[j].id@)),
{
    let s = tier(tt, urban, extra_urban).gtfs.calendar@;
    let builder = CalendarBuilder { tt };
    let first = calendars_of(TT::ExtraUrban, extra_urban.gtfs.calendar@);
    let next = calendars_of(TT::Urban, urban.gtfs.calendar@);
    let dummy = builder.makes(j, s[j])->Ok_0;
    lemma_chain_members(first, next, dummy);
    lemma_built_elements(builder, s);
    assert(builder.makes(j, s[j]) is Ok);
    let y = built_by(builder, s)->Ok_0[j];
    assert(y == dummy);
    assert(calendars_of(tt, s)->Ok_0.contains(y));
    lemma_sorted_members::<KdiCalendar>(
        model.calendars,
        model_calendars(urban, extra_urban, poi)->Ok_0,
        y,
    );
    let p = choose|p: int| 0 <= p < model.calendars.len() && model.calendars[p] == y;
    assert(model.calendars[p].id == namespace(tt, s[j].id@));
}

/// The trip of the model for a trip of a tier is in the model.
proof fn lemma_trip_in_model(
    model: KdiModelView,
    urban: TierSources,
    extra_urban: TierSources,
    poi: PoiSources,
    tt: TT,
    j: int,
)
    requires
        is_model_of(model, urban, extra_urban, poi),
        0 <= j < tier(tt, urban, extra_urban).gtfs.trips@.len(),
    ensures
        has_trip(model, namespace(tt, tier(tt, urban, extra_urban).gtfs.trips@[j].id@)),
{
    let s = tier(tt, urban, extra_urban).gtfs.trips@;
    let builder = TripBuilder { tt };
    let first = trips_of(TT::ExtraUrban, extra_urban.gtfs.trips@);
    let next = trips_of(TT::Urban, urban.gtfs.trips@);
    let dummy = builder.makes(j, s[j])->Ok_0;
    lemma_chain_members(first, next, dummy);
    lemma_built_elements(builder, s);
    assert(builder.makes(j, s[j]) is Ok);
    let y = built_by(builder, s)->Ok_0[j];
    assert(y == dummy);
    assert(trips_of(tt, s)->Ok_0.contains(y));
    lemma_sorted_members::<KdiTrip>(model.trips, model_trips(urban, extra_urban, poi)->Ok_0, y);
    let p = choose|p: int| 0 <= p < model.trips.len() && model.trips[p] == y;
    assert(model.trips[p].id == namespace(tt, s[j].id@));
}

/// The route and the calendar of a trip of the model are in the model.
proof fn lemma_trip_resolves(
    model: KdiModelView,
    urban: TierSources,
    extra_urban: TierSources,
    poi: PoiSources,
    i: int,
)
    requires
        is_model_of(model, urban, extra_urban, poi),
        tier_references_resolve(urban),
        tier_references_resolve(extra_urban),
        0 <= i < model.trips.len(),
    ensures
        has_route(model, model.trips[i].route),
        has_calendar(model, model.trips[i].calendar),
{
    let y = model.trips[i];
    assert(model.trips.contains(y));
    lemma_sorted_members::<KdiTrip>(model.trips, model_trips(urban, extra_urban, poi)->Ok_0, y);
    let first = trips_of(TT::ExtraUrban, extra_urban.gtfs.trips@);
    let next = trips_of(TT::Urban, urban.gtfs.trips@);
    lemma_chain_members(first, next, y);
    let tt = if first->Ok_0.contains(y) {
        TT::ExtraUrban
    } else {
        TT::Urban
    };
    let g = tier(tt, urban, extra_urban).gtfs;
    let builder = TripBuilder { tt };
    lemma_built_members(builder, g.trips@, y);
    let q = choose|q: int|
        0 <= q < g.trips@.len() && builder.makes(q, #[trigger] g.trips@[q]) == Ok::<
            KdiTripView,
            AlignError,
        >(y);
    let trip = g.trips@[q];
    assert(trip_of(tt, trip) == Ok::<KdiTripView, AlignError>(y));
    assert(feed_has_route(g, trip.route_id@));
    let jr = choose|j: int|
        0 <= j < g.routes@.len() && (#[trigger] g.routes@[j]).id@ == trip.route_id@;
    lemma_route_in_model(model, urban, extra_urban, poi, tt, jr);
    assert(feed_has_calendar(g, trip.service_id@));
    let jc = choose|j: int|
        0 <= j < g.calendar@.len() && (#[trigger] g.calendar@[j]).id@ == trip.service_id@;
    lemma_calendar_in_model(model, urban, extra_urban, poi, tt, jc);
}

/// The trip and the stop of a stop time of the model are in the model.
proof fn lemma_stop_time_resolves(
    model: KdiModelView,
    urban: TierSources,
    extra_urban: TierSources,
    poi: PoiSources,
    i: int,
)
    requires
        is_model_of(model, urban, extra_urban, poi),
        tier_references_resolve(urban),
        tier_references_resolve(extra_urban),
        0 <= i < model.stop_times.len(),
    ensures
        has_trip(model, model.stop_times[i].trip),
        has_location(model, model.stop_times[i].stop),
{
    let y = model.stop_times[i];
    assert(model.stop_times.contains(y));
    lemma_sorted_members::<KdiStopTime>(
        model.stop_times,
        model_stop_times(urban, extra_urban, poi)->Ok_0,
        y,
    );
    let first = stop_times_of(TT::ExtraUrban, extra_urban.gtfs.trips@);
    let next = stop_times_of(TT::Urban, urban.gtfs.trips@);
    lemma_chain_members(first, next, y);
    let tt = if first->Ok_0.contains(y) {
        TT::ExtraUrban
    } else {
        TT::Urban
    };
    let g = tier(tt, urban, extra_urban).gtfs;
    let f = |trip: GtfsTrip| trip_stop_times_of(tt, trip);
    assert(try_flat_map(g.trips@, f) == stop_times_of(tt, g.trips@));
    lemma_try_flat_map_members(g.trips@, f);
    assert(try_flat_map(g.trips@, f)->Ok_0.contains(y));
    let q = choose|q: int| 0 <= q < g.trips@.len() && f(#[trigger] g.trips@[q])->Ok_0.contains(y);
    let trip = g.trips@[q];
    assert(f(trip) is Ok);
    let builder = StopTimeBuilder { tt, trip: &trip };
    lemma_built_members(builder, trip.stop_times@, y);
    let k = choose|k: int|
        0 <= k < trip.stop_times@.len() && builder.makes(k, #[trigger] trip.stop_times@[k]) == Ok::<
            KdiStopTimeView,
            AlignError,
        >(y);
    let call = trip.stop_times@[k];
    assert(stop_time_of(tt, trip.id@, call) == Ok::<KdiStopTimeView, AlignError>(y));
    lemma_trip_in_model(model, urban, extra_urban, poi, tt, q);
    assert(feed_has_stop(g, call.stop_id@));
    let js = choose|j: int|
        0 <= j < g.stops@.len() && (#[trigger] g.stops@[j]).id@ == call.stop_id@;
    lemma_stop_in_model(model, urban, extra_urban, poi, tt, js);
}

/// The rows of the three fare-rule tables of a tier that a fare rule may
/// have been built of.
proof fn lemma_fare_rule_row(tt: TT, t: TierSources, y: KdiFareRuleView) -> (row: KdiFareRuleRow)
    requires
        fare_rules_of(tt, t.fare_rules_cash@, t.fare_rules_card@, t.fare_rules_mobile@) is Ok,
        fare_rules_of(
            tt,
            t.fare_rules_cash@,
            t.fare_rules_card@,
            t.fare_rules_mobile@,
        )->Ok_0.contains(y),
        tier_references_resolve(t),
    ensures
        fare_rule_of(tt, row) == Ok::<KdiFareRuleView, AlignError>(y),
        has_zone(t.zones@, zone_or_default(row.origin)),
        has_zone(t.zones@, zone_or_default(row.destination)),
{
    let builder = FareRuleBuilder { tt };
    let a = built_by(builder, t.fare_rules_cash@);
    let b = built_by(builder, t.fare_rules_card@);
    let c = built_by(builder, t.fare_rules_mobile@);
    let all = a->Ok_0 + b->Ok_0 + c->Ok_0;
    let p = choose|p: int| 0 <= p < all.len() && all[p] == y;
    let rows = if p < a->Ok_0.len() {
        t.fare_rules_cash@
    } else if p < a->Ok_0.len() + b->Ok_0.len() {
        t.fare_rules_card@
    } else {
        t.fare_rules_mobile@
    };
    assert(built_by(builder, rows)->Ok_0.contains(y)) by {
        if p < a->Ok_0.len() {
            assert(a->Ok_0[p] == y);
        } else if p < a->Ok_0.len() + b->Ok_0.len() {
            assert(b->Ok_0[p - a->Ok_0.len()] == y);
        } else {
            assert(c->Ok_0[p - a->Ok_0.len() - b->Ok_0.len()] == y);
        }
    }
    lemma_built_members(builder, rows, y);
    let q = choose|q: int|
        0 <= q < rows.len() && builder.makes(q, #[trigger] rows[q]) == Ok::<
            KdiFareRuleView,
            AlignError,
        >(y);
    rows[q]
}

/// The two zones of a fare rule of the model are in the model.
proof fn lemma_fare_rule_resolves(
    model: KdiModelView,
    urban: TierSources,
    extra_urban: TierSources,
    poi: PoiSources,
    i: int,
)
    requires
        is_model_of(model, urban, extra_urban, poi),
        tier_references_resolve(urban),
        tier_references_resolve(extra_urban),
        0 <= i < model.fare_rules.len(),
    ensures
        has_location(model, model.fare_rules[i].origin),
        has_location(model, model.fare_rules[i].destination),
{
    let y = model.fare_rules[i];
    assert(model.fare_rules.contains(y));
    lemma_sorted_members::<KdiFareRule>(
        model.fare_rules,
        model_fare_rules(urban, extra_urban, poi)->Ok_0,
        y,
    );
    let first = fare_rules_of(
        TT::ExtraUrban,
        extra_urban.fare_rules_cash@,
        extra_urban.fare_rules_card@,
        extra_urban.fare_rules_mobile@,
    );
    let next = fare_rules_of(
        TT::Urban,
        urban.fare_rules_cash@,
        urban.fare_rules_card@,
        urban.fare_rules_mobile@,
    );
    lemma_chain_members(first, next, y);
    let tt = if first->Ok_0.contains(y) {
        TT::ExtraUrban
    } else {
        TT::Urban
    };
    let t = tier(tt, urban, extra_urban);
    let row = lemma_fare_rule_row(tt, t, y);
    let jo = choose|j: int|
        0 <= j < t.zones@.len() && (#[trigger] t.zones@[j]).id@ == zone_or_default(row.origin);
    lemma_zone_in_model(model, urban, extra_urban, poi, tt, jo);
    let jd = choose|j: int|
        0 <= j < t.zones@.len() && (#[trigger] t.zones@[j]).id@ == zone_or_default(
            row.destination,
        );
    lemma_zone_in_model(model, urban, extra_urban, poi, tt, jd);
}

/// The references of a merged model resolve within it, where those of the
/// sources resolve within their tier: the route and the calendar of every
/// trip are among the routes and the calendars, the trip and the stop of
/// every stop time among the trips and the locations, and the two zones of
/// every fare rule among the locations.
pub proof fn lemma_foreign_keys_resolve(
    model: KdiModelView,
    urban: TierSources,
    extra_urban: TierSources,
    poi: PoiSources,
)
    requires
        is_model_of(model, urban, extra_urban, poi),
        tier_references_resolve(urban),
        tier_references_resolve(extra_urban),
    ensures
        foreign_keys_resolve(model),
{
    assert forall|i: int| 0 <= i < model.trips.len() implies has_route(
        model,
        (#[trigger] model.trips[i]).route,
    ) && has_calendar(model, model.trips[i].calendar) by {
        lemma_trip_resolves(model, urban, extra_urban, poi, i);
    }
    assert forall|i: int| 0 <= i < model.stop_times.len() implies has_trip(
        model,
        (#[trigger] model.stop_times[i]).trip,
    ) && has_location(model, model.stop_times[i].stop) by {
        lemma_stop_time_resolves(model, urban, extra_urban, poi, i);
    }
    assert forall|i: int| 0 <= i < model.fare_rules.len() implies has_location(
        model,
        (#[trigger] model.fare_rules[i]).origin,
    ) && has_location(model, model.fare_rules[i].destination) by {
        lemma_fare_rule_resolves(model, urban, extra_urban, poi, i);
    }
}

/// Whether two feeds hold the same records: the same agencies, and the
/// same stops, routes, trips, calendars and calendar dates, each as often,
/// in whatever order.
pub open spec fn same_feed_records(a: Gtfs, b: Gtfs) -> bool {
    &&& a.agencies@ == b.agencies@
    &&& a.stops@.to_multiset() == b.stops@.to_multiset()
    &&& a.routes@.to_multiset() == b.routes@.to_multiset()
    &&& a.trips@.to_multiset() == b.trips@.to_multiset()
    &&& a.calendar@.to_multiset() == b.calendar@.to_multiset()
    &&& a.calendar_dates@.to_multiset() == b.calendar_dates@.to_multiset()
}

/// Whether the sources of a tier hold the same records in two runs: feeds
/// of the same records, and the same tables.
pub open spec fn same_tier_records(a: TierSources, b: TierSources) -> bool {
    &&& same_feed_records(a.gtfs, b.gtfs)
    &&& a.zones@ == b.zones@
    &&& a.fare_rules_cash@ == b.fare_rules_cash@
    &&& a.fare_rules_card@ == b.fare_rules_card@
    &&& a.fare_rules_mobile@ == b.fare_rules_mobile@
    &&& a.fares_cash@ == b.fares_cash@
    &&& a.fares_card@ == b.fares_card@
    &&& a.fares_mobile@ == b.fares_mobile@
}

/// Whether two outcomes of building hold the same records: both are faults,
/// or both are records, the same and each as often.
pub open spec fn same_records_built<B>(
    a: Result<Seq<B>, AlignError>,
    b: Result<Seq<B>, AlignError>,
) -> bool {
    &&& a is Ok <==> b is Ok
    &&& a is Ok ==> a->Ok_0.to_multiset() == b->Ok_0.to_multiset()
}

/// Builder calls in a row that build the same records, call by call, build
/// the same records in all.
proof fn lemma_chain_same_records<B>(
    a1: Result<Seq<B>, AlignError>,
    b1: Result<Seq<B>, AlignError>,
    a2: Result<Seq<B>, AlignError>,
    b2: Result<Seq<B>, AlignError>,
)
    requires
        same_records_built(a1, a2),
        same_records_built(b1, b2),
    ensures
        same_records_built(chain(a1, b1), chain(a2, b2)),
{
    if chain(a1, b1) is Ok {
        lemma_multiset_commutative(a1->Ok_0, b1->Ok_0);
        lemma_multiset_commutative(a2->Ok_0, b2->Ok_0);
    }
}

/// The locations of the stops of a feed are the same records, whatever the
/// order of the stops.
proof fn lemma_stop_locations_same(tt: TT, a: Gtfs, b: Gtfs)
    requires
        same_feed_records(a, b),
    ensures
        same_records_built(stop_locations_of(tt, a.stops@), stop_locations_of(tt, b.stops@)),
{
    lemma_built_same_records(StopLocationBuilder { tt }, a.stops@, b.stops@);
}

/// The locations that are built are the same records, whatever the order of
/// the records of the feeds.
proof fn lemma_locations_same(
    u1: TierSources,
    e1: TierSources,
    u2: TierSources,
    e2: TierSources,
    poi: PoiSources,
)
    requires
        same_tier_records(u1, u2),
        same_tier_records(e1, e2),
    ensures
        same_records_built(model_locations(u1, e1, poi), model_locations(u2, e2, poi)),
{
    lemma_stop_locations_same(TT::ExtraUrban, e1.gtfs, e2.gtfs);
    lemma_stop_locations_same(TT::Urban, u1.gtfs, u2.gtfs);
    let zones = chain(
        zone_locations_of(TT::ExtraUrban, e1.zones@),
        zone_locations_of(TT::Urban, u1.zones@),
    );
    assert(zones == chain(
        zone_locations_of(TT::ExtraUrban, e2.zones@),
        zone_locations_of(TT::Urban, u2.zones@),
    ));
    let stops_first = stop_locations_of(TT::ExtraUrban, e1.gtfs.stops@);
    let stops_second = stop_locations_of(TT::ExtraUrban, e2.gtfs.stops@);
    lemma_chain_same_records(zones, stops_first, zones, stops_second);
    let first = chain(zones, stops_first);
    let second = chain(zones, stops_second);
    let stops_first = stop_locations_of(TT::Urban, u1.gtfs.stops@);
    let stops_second = stop_locations_of(TT::Urban, u2.gtfs.stops@);
    lemma_chain_same_records(first, stops_first, second, stops_second);
    let first = chain(first, stops_first);
    let second = chain(second, stops_second);
    let points = poi_locations_of(
        PoiFamily::CarSharing,
        poi.car_sharing.document.folder.placemarks@,
    );
    lemma_chain_same_records(first, points, second, points);
    let first = chain(first, points);
    let second = chain(second, points);
    let points = poi_locations_of(
        PoiFamily::CentroInBici,
        poi.centro_in_bici.document.folder.placemarks@,
    );
    lemma_chain_same_records(first, points, second, points);
    let first = chain(first, points);
    let second = chain(second, points);
    let points = poi_locations_of(
        PoiFamily::ParcheggioProtettoBiciclette,
        poi.parcheggio_protetto_biciclette.document.folder.placemarks@,
    );
    lemma_chain_same_records(first, points, second, points);
    let first = chain(first, points);
    let second = chain(second, points);
    let points = poi_locations_of(PoiFamily::Taxi, poi.taxi.document.folder.placemarks@);
    lemma_chain_same_records(first, points, second, points);
}

/// The calendar exceptions that are built are the same records, whatever the
/// order of the records of the feeds.
proof fn lemma_calendar_exceptions_same(
    u1: TierSources,
    e1: TierSources,
    u2: TierSources,
    e2: TierSources,
    poi: PoiSources,
)
    requires
        same_tier_records(u1, u2),
        same_tier_records(e1, e2),
    ensures
        same_records_built(
            model_calendar_exceptions(u1, e1, poi),
            model_calendar_exceptions(u2, e2, poi),
        ),
{
    lemma_built_same_records(
        CalendarExceptionBuilder { tt: TT::ExtraUrban },
        e1.gtfs.calendar_dates@,
        e2.gtfs.calendar_dates@,
    );
    lemma_built_same_records(
        CalendarExceptionBuilder { tt: TT::Urban },
        u1.gtfs.calendar_dates@,
        u2.gtfs.calendar_dates@,
    );
    lemma_chain_same_records(
        calendar_exceptions_of(TT::ExtraUrban, e1.gtfs.calendar_dates@),
        calendar_exceptions_of(TT::Urban, u1.gtfs.calendar_dates@),
        calendar_exceptions_of(TT::ExtraUrban, e2.gtfs.calendar_dates@),
        calendar_exceptions_of(TT::Urban, u2.gtfs.calendar_dates@),
    );
}

/// The calendars that are built are the same records, whatever the order of
/// the records of the feeds.
proof fn lemma_calendars_same(
    u1: TierSources,
    e1: TierSources,
    u2: TierSources,
    e2: TierSources,
    poi: PoiSources,
)
    requires
        same_tier_records(u1, u2),
        same_tier_records(e1, e2),
    ensures
        same_records_built(model_calendars(u1, e1, poi), model_calendars(u2, e2, poi)),
{
    lemma_built_same_records(
        CalendarBuilder { tt: TT::ExtraUrban },
        e1.gtfs.calendar@,
        e2.gtfs.calendar@,
    );
    lemma_built_same_records(
        CalendarBuilder { tt: TT::Urban },
        u1.gtfs.calendar@,
        u2.gtfs.calendar@,
    );
    lemma_chain_same_records(
        calendars_of(TT::ExtraUrban, e1.gtfs.calendar@),
        calendars_of(TT::Urban, u1.gtfs.calendar@),
        calendars_of(TT::ExtraUrban, e2.gtfs.calendar@),
        calendars_of(TT::Urban, u2.gtfs.calendar@),
    );
}

/// The public-transport stops that are built are the same records, whatever
/// the order of the records of the feeds.
proof fn lemma_public_transport_stops_same(
    u1: TierSources,
    e1: TierSources,
    u2: TierSources,
    e2: TierSources,
    poi: PoiSources,
)
    requires
        same_tier_records(u1, u2),
        same_tier_records(e1, e2),
    ensures
        same_records_built(
            model_public_transport_stops(u1, e1, poi),
            model_public_transport_stops(u2, e2, poi),
        ),
{
    lemma_built_same_records(
        PublicTransportStopBuilder { tt: TT::ExtraUrban },
        e1.gtfs.stops@,
        e2.gtfs.stops@,
    );
    lemma_built_same_records(
        PublicTransportStopBuilder { tt: TT::Urban },
        u1.gtfs.stops@,
        u2.gtfs.stops@,
    );
    lemma_chain_same_records(
        public_transport_stops_of(TT::ExtraUrban, e1.gtfs.stops@),
        public_transport_stops_of(TT::Urban, u1.gtfs.stops@),
        public_transport_stops_of(TT::ExtraUrban, e2.gtfs.stops@),
        public_transport_stops_of(TT::Urban, u2.gtfs.stops@),
    );
}

/// The trips that are built are the same records, whatever the order of
/// the records of the feeds.
proof fn lemma_trips_same(
    u1: TierSources,
    e1: TierSources,
    u2: TierSources,
    e2: TierSources,
    poi: PoiSources,
)
    requires
        same_tier_records(u1, u2),
        same_tier_records(e1, e2),
    ensures
        same_records_built(model_trips(u1, e1, poi), model_trips(u2, e2, poi)),
{
    lemma_built_same_records(TripBuilder { tt: TT::ExtraUrban }, e1.gtfs.trips@, e2.gtfs.trips@);
    lemma_built_same_records(TripBuilder { tt: TT::Urban }, u1.gtfs.trips@, u2.gtfs.trips@);
    lemma_chain_same_records(
        trips_of(TT::ExtraUrban, e1.gtfs.trips@),
        trips_of(TT::Urban, u1.gtfs.trips@),
        trips_of(TT::ExtraUrban, e2.gtfs.trips@),
        trips_of(TT::Urban, u2.gtfs.trips@),
    );
}

/// The routes that are built are the same records, whatever the order of
/// the records of the feeds.
proof fn lemma_routes_same(
    u1: TierSources,
    e1: TierSources,
    u2: TierSources,
    e2: TierSources,
    poi: PoiSources,
)
    requires
        same_tier_records(u1, u2),
        same_tier_records(e1, e2),
    ensures
        same_records_built(model_routes(u1, e1, poi), model_routes(u2, e2, poi)),
{
    lemma_built_same_records(RouteBuilder { tt: TT::ExtraUrban }, e1.gtfs.routes@, e2.gtfs.routes@);
    lemma_built_same_records(RouteBuilder { tt: TT::Urban }, u1.gtfs.routes@, u2.gtfs.routes@);
    lemma_chain_same_records(
        routes_of(TT::ExtraUrban, e1.gtfs.routes@),
        routes_of(TT::Urban, u1.gtfs.routes@),
        routes_of(TT::ExtraUrban, e2.gtfs.routes@),
        routes_of(TT::Urban, u2.gtfs.routes@),
    );
}

/// The stop times that are built are the same records, whatever the order
/// of the trips of the feeds.
proof fn lemma_stop_times_same(
    u1: TierSources,
    e1: TierSources,
    u2: TierSources,
    e2: TierSources,
    poi: PoiSources,
)
    requires
        same_tier_records(u1, u2),
        same_tier_records(e1, e2),
    ensures
        same_records_built(model_stop_times(u1, e1, poi), model_stop_times(u2, e2, poi)),
{
    let tt = TT::ExtraUrban;
    let f = |trip: GtfsTrip| trip_stop_times_of(tt, trip);
    assert(try_flat_map(e1.gtfs.trips@, f) == stop_times_of(tt, e1.gtfs.trips@));
    assert(try_flat_map(e2.gtfs.trips@, f) == stop_times_of(tt, e2.gtfs.trips@));
    lemma_try_flat_map_same_records(e1.gtfs.trips@, e2.gtfs.trips@, f);
    let tt = TT::Urban;
    let g = |trip: GtfsTrip| trip_stop_times_of(tt, trip);
    assert(try_flat_map(u1.gtfs.trips@, g) == stop_times_of(tt, u1.gtfs.trips@));
    assert(try_flat_map(u2.gtfs.trips@, g) == stop_times_of(tt, u2.gtfs.trips@));
    lemma_try_flat_map_same_records(u1.gtfs.trips@, u2.gtfs.trips@, g);
    lemma_chain_same_records(
        stop_times_of(TT::ExtraUrban, e1.gtfs.trips@),
        stop_times_of(TT::Urban, u1.gtfs.trips@),
        stop_times_of(TT::ExtraUrban, e2.gtfs.trips@),
        stop_times_of(TT::Urban, u2.gtfs.trips@),
    );
}

/// Whether no two records have the same key in any collection that is built
/// of the records of the feeds.
pub open spec fn keys_distinct(model: KdiModelView) -> bool {
    &&& distinct_keys::<KdiLocation>(model.locations)
    &&& distinct_keys::<KdiCalendarException>(model.calendar_exceptions)
    &&& distinct_keys::<KdiCalendar>(model.calendars)
    &&& distinct_keys::<KdiPublicTransportStop>(model.public_transport_stops)
    &&& distinct_keys::<KdiStopTime>(model.stop_times)
    &&& distinct_keys::<KdiTrip>(model.trips)
    &&& distinct_keys::<KdiRoute>(model.routes)
}

/// A collection of the model is the same in two runs that built the same
/// records for it, no two of them with the same key.
proof fn lemma_collection_same<T: Keyed>(
    built1: Result<Seq<T::V>, AlignError>,
    built2: Result<Seq<T::V>, AlignError>,
    out1: Seq<T::V>,
    out2: Seq<T::V>,
)
    requires
        same_records_built(built1, built2),
        built1 is Ok,
        is_stable_sort::<T>(out1, built1->Ok_0),
        is_stable_sort::<T>(out2, built2->Ok_0),
        distinct_keys::<T>(out1),
    ensures
        out1 == out2,
{
    lemma_distinct_keys_of_same_records::<T>(out1, built1->Ok_0);
    lemma_stable_sort_ignores_order::<T>(built1->Ok_0, built2->Ok_0, out1, out2);
}

/// The sources have one model: whatever two runs on the same sources hand
/// out, it is the same.
pub proof fn lemma_model_unique(
    m1: KdiModelView,
    m2: KdiModelView,
    urban: TierSources,
    extra_urban: TierSources,
    poi: PoiSources,
)
    requires
        is_model_of(m1, urban, extra_urban, poi),
        is_model_of(m2, urban, extra_urban, poi),
    ensures
        m1 == m2,
{
    lemma_stable_sort_unique::<KdiLocation>(
        m1.locations,
        m2.locations,
        model_locations(urban, extra_urban, poi)->Ok_0,
    );
    lemma_stable_sort_unique::<KdiCalendarException>(
        m1.calendar_exceptions,
        m2.calendar_exceptions,
        model_calendar_exceptions(urban, extra_urban, poi)->Ok_0,
    );
    lemma_stable_sort_unique::<KdiCalendar>(
        m1.calendars,
        m2.calendars,
        model_calendars(urban, extra_urban, poi)->Ok_0,
    );
    lemma_stable_sort_unique::<KdiAgency>(
        m1.agencies,
        m2.agencies,
        model_agencies(urban, extra_urban, poi)->Ok_0,
    );
    lemma_stable_sort_unique::<KdiFareRule>(
        m1.fare_rules,
        m2.fare_rules,
        model_fare_rules(urban, extra_urban, poi)->Ok_0,
    );
    lemma_stable_sort_unique::<KdiParkingStop>(
        m1.parking_stops,
        m2.parking_stops,
        model_parking_stops(urban, extra_urban, poi)->Ok_0,
    );
    lemma_stable_sort_unique::<KdiFare>(
        m1.fares,
        m2.fares,
        model_fares(urban, extra_urban, poi)->Ok_0,
    );
    lemma_stable_sort_unique::<KdiPublicTransportStop>(
        m1.public_transport_stops,
        m2.public_transport_stops,
        model_public_transport_stops(urban, extra_urban, poi)->Ok_0,
    );
    lemma_stable_sort_unique::<KdiStopTime>(
        m1.stop_times,
        m2.stop_times,
        model_stop_times(urban, extra_urban, poi)->Ok_0,
    );
    lemma_stable_sort_unique::<KdiTrip>(
        m1.trips,
        m2.trips,
        model_trips(urban, extra_urban, poi)->Ok_0,
    );
    lemma_stable_sort_unique::<KdiRoute>(
        m1.routes,
        m2.routes,
        model_routes(urban, extra_urban, poi)->Ok_0,
    );
}

/// The order in which the feeds hand out their records does not decide
/// whether a run succeeds: sources of the same records have a fault in both
/// runs or in neither.
pub proof fn lemma_fault_ignores_feed_order(
    u1: TierSources,
    e1: TierSources,
    u2: TierSources,
    e2: TierSources,
    poi: PoiSources,
)
    requires
        same_tier_records(u1, u2),
        same_tier_records(e1, e2),
    ensures
        model_fault(u1, e1, poi) is None <==> model_fault(u2, e2, poi) is None,
{
    lemma_locations_same(u1, e1, u2, e2, poi);
    lemma_calendar_exceptions_same(u1, e1, u2, e2, poi);
    lemma_calendars_same(u1, e1, u2, e2, poi);
    lemma_public_transport_stops_same(u1, e1, u2, e2, poi);
    lemma_stop_times_same(u1, e1, u2, e2, poi);
    lemma_trips_same(u1, e1, u2, e2, poi);
    lemma_routes_same(u1, e1, u2, e2, poi);
    assert(model_agencies(u1, e1, poi) == model_agencies(u2, e2, poi));
    assert(model_fare_rules(u1, e1, poi) == model_fare_rules(u2, e2, poi));
    assert(model_parking_stops(u1, e1, poi) == model_parking_stops(u2, e2, poi));
    assert(model_fares(u1, e1, poi) == model_fares(u2, e2, poi));
}

/// The order in which the feeds hand out their records does not show in the
/// model: two runs on sources of the same records hand out the same model,
/// where no two records of a collection built of the feeds have the same
/// key.
pub proof fn lemma_model_ignores_feed_order(
    m1: KdiModelView,
    u1: TierSources,
    e1: TierSources,
    m2: KdiModelView,
    u2: TierSources,
    e2: TierSources,
    poi: PoiSources,
)
    requires
        same_tier_records(u1, u2),
        same_tier_records(e1, e2),
        is_model_of(m1, u1, e1, poi),
        is_model_of(m2, u2, e2, poi),
        keys_distinct(m1),
    ensures
        m1 == m2,
{
    lemma_locations_same(u1, e1, u2, e2, poi);
    lemma_calendar_exceptions_same(u1, e1, u2, e2, poi);
    lemma_calendars_same(u1, e1, u2, e2, poi);
    lemma_public_transport_stops_same(u1, e1, u2, e2, poi);
    lemma_stop_times_same(u1, e1, u2, e2, poi);
    lemma_trips_same(u1, e1, u2, e2, poi);
    lemma_routes_same(u1, e1, u2, e2, poi);
    assert(model_agencies(u1, e1, poi) == model_agencies(u2, e2, poi));
    assert(model_fare_rules(u1, e1, poi) == model_fare_rules(u2, e2, poi));
    assert(model_parking_stops(u1, e1, poi) == model_parking_stops(u2, e2, poi));
    assert(model_fares(u1, e1, poi) == model_fares(u2, e2, poi));
    lemma_collection_same::<KdiLocation>(
        model_locations(u1, e1, poi),
        model_locations(u2, e2, poi),
        m1.locations,
        m2.locations,
    );
    lemma_collection_same::<KdiCalendarException>(
        model_calendar_exceptions(u1, e1, poi),
        model_calendar_exceptions(u2, e2, poi),
        m1.calendar_exceptions,
        m2.calendar_exceptions,
    );
    lemma_collection_same::<KdiCalendar>(
        model_calendars(u1, e1, poi),
        model_calendars(u2, e2, poi),
        m1.calendars,
        m2.calendars,
    );
    lemma_stable_sort_unique::<KdiAgency>(
        m1.agencies,
        m2.agencies,
        model_agencies(u1, e1, poi)->Ok_0,
    );
    lemma_stable_sort_unique::<KdiFareRule>(
        m1.fare_rules,
        m2.fare_rules,
        model_fare_rules(u1, e1, poi)->Ok_0,
    );
    lemma_stable_sort_unique::<KdiParkingStop>(
        m1.parking_stops,
        m2.parking_stops,
        model_parking_stops(u1, e1, poi)->Ok_0,
    );
    lemma_stable_sort_unique::<KdiFare>(m1.fares, m2.fares, model_fares(u1, e1, poi)->Ok_0);
    lemma_collection_same::<KdiPublicTransportStop>(
        model_public_transport_stops(u1, e1, poi),
        model_public_transport_stops(u2, e2, poi),
        m1.public_transport_stops,
        m2.public_transport_stops,
    );
    lemma_collection_same::<KdiStopTime>(
        model_stop_times(u1, e1, poi),
        model_stop_times(u2, e2, poi),
        m1.stop_times,
        m2.stop_times,
    );
    lemma_collection_same::<KdiTrip>(
        model_trips(u1, e1, poi),
        model_trips(u2, e2, poi),
        m1.trips,
        m2.trips,
    );
    lemma_collection_same::<KdiRoute>(
        model_routes(u1, e1, poi),
        model_routes(u2, e2, poi),
        m1.routes,
        m2.routes,
    );
}

/// Whether no two zones of a table have the same identifier.
pub open spec fn zone_ids_distinct(zones: Seq<KdiZone>) -> bool {
    forall|i: int, j: int|
        0 <= i < j < zones.len() ==> (#[trigger] zones[i]).id@ != (#[trigger] zones[j]).id@
}

/// Whether no two stops of a feed have the same identifier.
pub open spec fn stop_ids_distinct(stops: Seq<GtfsStop>) -> bool {
    forall|i: int, j: int|
        0 <= i < j < stops.len() ==> (#[trigger] stops[i]).id@ != (#[trigger] stops[j]).id@
}

/// The family of locations that an identifier belongs to, told by how it
/// begins: the zones of the extra-urban tier and of the urban tier, the
/// stops of the extra-urban tier and of the urban tier, and the four
/// families of points of interest, in the order in which they are built.
pub open spec fn location_family(id: Seq<char>) -> int {
    if id.len() == 0 {
        8
    } else if id[0] == 'Z' {
        if id.len() > 5 && id[5] == 'E' {
            0
        } else {
            1
        }
    } else if id[0] == 'E' {
        2
    } else if id[0] == 'U' {
        3
    } else if id[0] == 'C' {
        if id.len() > 1 && id[1] == 'S' {
            4
        } else {
            5
        }
    } else if id[0] == 'P' {
        6
    } else {
        7
    }
}

/// Whether all locations of a sequence belong to one family.
pub open spec fn in_family(s: Seq<KdiLocationView>, k: int) -> bool {
    forall|i: int| 0 <= i < s.len() ==> location_family((#[trigger] s[i]).id) == k
}

/// Whether all locations of a sequence belong to families before a given
/// one.
pub open spec fn before_family(s: Seq<KdiLocationView>, k: int) -> bool {
    forall|i: int| 0 <= i < s.len() ==> location_family((#[trigger] s[i]).id) < k
}

/// Locations of distinct identifiers, followed by locations of distinct
/// identifiers of a later family, have distinct identifiers.
proof fn lemma_join_families(a: Seq<KdiLocationView>, b: Seq<KdiLocationView>, k: int)
    requires
        distinct_keys::<KdiLocation>(a),
        before_family(a, k),
        distinct_keys::<KdiLocation>(b),
        in_family(b, k),
    ensures
        distinct_keys::<KdiLocation>(a + b),
        before_family(a + b, k + 1),
{
    let all = a + b;
    assert forall|i: int| 0 <= i < all.len() implies location_family((#[trigger] all[i]).id) < k
        + 1 by {
        if i < a.len() {
            assert(all[i] == a[i]);
        } else {
            assert(all[i] == b[i - a.len()]);
        }
    }
    assert forall|i: int, j: int| 0 <= i < j < all.len() implies KdiLocation::sort_key(
        #[trigger] all[i],
    ) != KdiLocation::sort_key(#[trigger] all[j]) by {
        if j < a.len() {
            assert(all[i] == a[i] && all[j] == a[j]);
        } else if i < a.len() {
            assert(all[i] == a[i] && all[j] == b[j - a.len()]);
        } else {
            assert(all[i] == b[i - a.len()] && all[j] == b[j - a.len()]);
        }
    }
}

/// The locations of the zones of a tier are of one family, and have
/// distinct identifiers where the zones have.
proof fn lemma_zone_family(tt: TT, zones: Seq<KdiZone>)
    requires
        zone_locations_of(tt, zones) is Ok,
        zone_ids_distinct(zones),
    ensures
        distinct_keys::<KdiLocation>(zone_locations_of(tt, zones)->Ok_0),
        in_family(
            zone_locations_of(tt, zones)->Ok_0,
            match tt {
                TT::ExtraUrban => 0int,
                TT::Urban => 1int,
            },
        ),
{
    reveal_strlit("ZONE_");
    let built = zone_locations_of(tt, zones)->Ok_0;
    lemma_built_elements(ZoneLocationBuilder { tt }, zones);
    assert forall|i: int| 0 <= i < built.len() implies (#[trigger] built[i]).id == zone_id(
        tt,
        zones[i].id@,
    ) by {
        assert((ZoneLocationBuilder { tt }).makes(i, zones[i]) is Ok);
    }
    assert forall|i: int| 0 <= i < built.len() implies location_family((#[trigger] built[i]).id)
        == (match tt {
        TT::ExtraUrban => 0int,
        TT::Urban => 1int,
    }) by {
        let id = zone_id(tt, zones[i].id@);
        assert(id[0] == 'Z');
        assert(id[5] == namespace(tt, zones[i].id@)[0]);
    }
    assert forall|i: int, j: int| 0 <= i < j < built.len() implies KdiLocation::sort_key(
        #[trigger] built[i],
    ) != KdiLocation::sort_key(#[trigger] built[j]) by {
        let a = namespace(tt, zones[i].id@);
        let b = namespace(tt, zones[j].id@);
        if built[i].id == built[j].id {
            assert(a =~= zone_id(tt, zones[i].id@).skip(5));
            assert(b =~= zone_id(tt, zones[j].id@).skip(5));
            lemma_namespace_injective(tt, zones[i].id@, tt, zones[j].id@);
        }
    }
}

/// The locations of the stops of a feed are of one family, and have
/// distinct identifiers where the stops have.
proof fn lemma_stop_family(tt: TT, stops: Seq<GtfsStop>)
    requires
        stop_locations_of(tt, stops) is Ok,
        stop_ids_distinct(stops),
    ensures
        distinct_keys::<KdiLocation>(stop_locations_of(tt, stops)->Ok_0),
        in_family(
            stop_locations_of(tt, stops)->Ok_0,
            match tt {
                TT::ExtraUrban => 2int,
                TT::Urban => 3int,
            },
        ),
{
    let built = stop_locations_of(tt, stops)->Ok_0;
    lemma_built_elements(StopLocationBuilder { tt }, stops);
    assert forall|i: int| 0 <= i < built.len() implies (#[trigger] built[i]).id == namespace(
        tt,
        stops[i].id@,
    ) by {
        assert((StopLocationBuilder { tt }).makes(i, stops[i]) is Ok);
    }
    assert forall|i: int| 0 <= i < built.len() implies location_family((#[trigger] built[i]).id)
        == (match tt {
        TT::ExtraUrban => 2int,
        TT::Urban => 3int,
    }) by {
        let id = namespace(tt, stops[i].id@);
        assert(id[0] == tt.code()[0]);
    }
    assert forall|i: int, j: int| 0 <= i < j < built.len() implies KdiLocation::sort_key(
        #[trigger] built[i],
    ) != KdiLocation::sort_key(#[trigger] built[j]) by {
        if built[i].id == built[j].id {
            lemma_namespace_injective(tt, stops[i].id@, tt, stops[j].id@);
        }
    }
}

/// The place of a family of points of interest among the families of
/// locations.
pub open spec fn poi_family_place(family: PoiFamily) -> int {
    match family {
        PoiFamily::CarSharing => 4,
        PoiFamily::CentroInBici => 5,
        PoiFamily::ParcheggioProtettoBiciclette => 6,
        PoiFamily::Taxi => 7,
    }
}

/// The locations of the points of interest of a family are of one family,
/// and have distinct identifiers.
proof fn lemma_poi_family(family: PoiFamily, placemarks: Seq<Placemark>)
    requires
        poi_locations_of(family, placemarks) is Ok,
    ensures
        distinct_keys::<KdiLocation>(poi_locations_of(family, placemarks)->Ok_0),
        in_family(poi_locations_of(family, placemarks)->Ok_0, poi_family_place(family)),
{
    reveal_strlit("CS_");
    reveal_strlit("CIB_");
    reveal_strlit("PPB_");
    reveal_strlit("TX_");
    let built = poi_locations_of(family, placemarks)->Ok_0;
    lemma_built_elements(PoiLocationBuilder { family }, placemarks);
    assert forall|i: int| 0 <= i < built.len() implies (#[trigger] built[i]).id == family.mark()
        + decimal(i as nat) by {
        assert((PoiLocationBuilder { family }).makes(i, placemarks[i]) is Ok);
    }
    assert forall|i: int| 0 <= i < built.len() implies location_family((#[trigger] built[i]).id)
        == poi_family_place(family) by {
        let id = family.mark() + decimal(i as nat);
        assert(id[0] == family.mark()[0]);
        assert(id[1] == family.mark()[1]);
    }
    assert forall|i: int, j: int| 0 <= i < j < built.len() implies KdiLocation::sort_key(
        #[trigger] built[i],
    ) != KdiLocation::sort_key(#[trigger] built[j]) by {
        if built[i].id == built[j].id {
            let n = family.mark().len() as int;
            assert(decimal(i as nat) =~= built[i].id.skip(n));
            assert(decimal(j as nat) =~= built[j].id.skip(n));
            lemma_decimal_injective(i as nat, j as nat);
        }
    }
}

/// The identifiers of the locations of a merged model are distinct, where
/// those of the zones of each tier and those of the stops of each tier are:
/// the tiers and the families of locations never share an identifier.
pub proof fn lemma_location_ids_distinct(
    model: KdiModelView,
    urban: TierSources,
    extra_urban: TierSources,
    poi: PoiSources,
)
    requires
        is_model_of(model, urban, extra_urban, poi),
        zone_ids_distinct(urban.zones@),
        zone_ids_distinct(extra_urban.zones@),
        stop_ids_distinct(urban.gtfs.stops@),
        stop_ids_distinct(extra_urban.gtfs.stops@),
    ensures
        distinct_keys::<KdiLocation>(model.locations),
{
    let zones_extra_urban = zone_locations_of(TT::ExtraUrban, extra_urban.zones@);
    let zones_urban = zone_locations_of(TT::Urban, urban.zones@);
    let stops_extra_urban = stop_locations_of(TT::ExtraUrban, extra_urban.gtfs.stops@);
    let stops_urban = stop_locations_of(TT::Urban, urban.gtfs.stops@);
    let car_sharing = poi_locations_of(
        PoiFamily::CarSharing,
        poi.car_sharing.document.folder.placemarks@,
    );
    let centro_in_bici = poi_locations_of(
        PoiFamily::CentroInBici,
        poi.centro_in_bici.document.folder.placemarks@,
    );
    let bike_parks = poi_locations_of(
        PoiFamily::ParcheggioProtettoBiciclette,
        poi.parcheggio_protetto_biciclette.document.folder.placemarks@,
    );
    let taxi = poi_locations_of(PoiFamily::Taxi, poi.taxi.document.folder.placemarks@);
    let joined_1 = chain(zones_extra_urban, zones_urban);
    let joined_2 = chain(joined_1, stops_extra_urban);
    let joined_3 = chain(joined_2, stops_urban);
    let joined_4 = chain(joined_3, car_sharing);
    let joined_5 = chain(joined_4, centro_in_bici);
    let joined_6 = chain(joined_5, bike_parks);
    let joined_7 = chain(joined_6, taxi);
    assert(joined_7 == model_locations(urban, extra_urban, poi));
    lemma_zone_family(TT::ExtraUrban, extra_urban.zones@);
    lemma_zone_family(TT::Urban, urban.zones@);
    lemma_stop_family(TT::ExtraUrban, extra_urban.gtfs.stops@);
    lemma_stop_family(TT::Urban, urban.gtfs.stops@);
    lemma_poi_family(PoiFamily::CarSharing, poi.car_sharing.document.folder.placemarks@);
    lemma_poi_family(PoiFamily::CentroInBici, poi.centro_in_bici.document.folder.placemarks@);
    lemma_poi_family(
        PoiFamily::ParcheggioProtettoBiciclette,
        poi.parcheggio_protetto_biciclette.document.folder.placemarks@,
    );
    lemma_poi_family(PoiFamily::Taxi, poi.taxi.document.folder.placemarks@);
    lemma_join_families(zones_extra_urban->Ok_0, zones_urban->Ok_0, 1);
    lemma_join_families(joined_1->Ok_0, stops_extra_urban->Ok_0, 2);
    lemma_join_families(joined_2->Ok_0, stops_urban->Ok_0, 3);
    lemma_join_families(joined_3->Ok_0, car_sharing->Ok_0, 4);
    lemma_join_families(joined_4->Ok_0, centro_in_bici->Ok_0, 5);
    lemma_join_families(joined_5->Ok_0, bike_parks->Ok_0, 6);
    lemma_join_families(joined_6->Ok_0, taxi->Ok_0, 7);
    lemma_distinct_keys_of_same_records::<KdiLocation>(joined_7->Ok_0, model.locations);
}

/// Whether the coordinates of a location are number literals.
pub open spec fn has_coordinates(location: KdiLocationView) -> bool {
    is_number(location.latitude) && is_number(location.longitude)
}

/// A location that a builder call for the locations built has coordinates
/// that are number literals.
proof fn lemma_built_location_has_coordinates(
    urban: TierSources,
    extra_urban: TierSources,
    poi: PoiSources,
    y: KdiLocationView,
)
    requires
        locations_built(urban, extra_urban, poi),
        location_built(urban, extra_urban, poi, y),
    ensures
        has_coordinates(y),
{
    if exists|tt: TT| #[trigger]
        zone_locations_of(tt, tier(tt, urban, extra_urban).zones@)->Ok_0.contains(y) {
        let tt = choose|tt: TT| #[trigger]
            zone_locations_of(tt, tier(tt, urban, extra_urban).zones@)->Ok_0.contains(y);
        let zones = tier(tt, urban, extra_urban).zones@;
        let builder = ZoneLocationBuilder { tt };
        assert(zone_locations_of(tt, zones) is Ok);
        lemma_built_members(builder, zones, y);
        let q = choose|q: int|
            0 <= q < zones.len() && builder.makes(q, #[trigger] zones[q]) == Ok::<
                KdiLocationView,
                AlignError,
            >(y);
        assert(zone_location_of(tt, zones[q]) == Ok::<KdiLocationView, AlignError>(y));
    } else if exists|tt: TT| #[trigger]
        stop_locations_of(tt, tier(tt, urban, extra_urban).gtfs.stops@)->Ok_0.contains(y) {
        let tt = choose|tt: TT| #[trigger]
            stop_locations_of(tt, tier(tt, urban, extra_urban).gtfs.stops@)->Ok_0.contains(y);
        let stops = tier(tt, urban, extra_urban).gtfs.stops@;
        let builder = StopLocationBuilder { tt };
        assert(stop_locations_of(tt, stops) is Ok);
        lemma_built_members(builder, stops, y);
        let q = choose|q: int|
            0 <= q < stops.len() && builder.makes(q, #[trigger] stops[q]) == Ok::<
                KdiLocationView,
                AlignError,
            >(y);
        assert(stop_location_of(tt, stops[q]) == Ok::<KdiLocationView, AlignError>(y));
    } else {
        let family = choose|family: PoiFamily| #[trigger]
            poi_locations_of(family, placemarks_of(family, poi))->Ok_0.contains(y);
        let placemarks = placemarks_of(family, poi);
        let builder = PoiLocationBuilder { family };
        assert(poi_locations_of(family, placemarks) is Ok);
        lemma_built_members(builder, placemarks, y);
        let q = choose|q: int|
            0 <= q < placemarks.len() && builder.makes(q, #[trigger] placemarks[q]) == Ok::<
                KdiLocationView,
                AlignError,
            >(y);
        assert(poi_location_of(family, q, placemarks[q]) == Ok::<KdiLocationView, AlignError>(y));
        let parts = split(placemarks[q].point.coordinates@, ',');
        assert(coordinates_of(placemarks[q].point.coordinates@) is Ok);
        assert(is_number(parts[0]) && is_number(parts[1]));
    }
}

/// What is built of three tables holds what was built of any of them.
proof fn lemma_three_tables_members<V>(
    cash: Result<Seq<V>, AlignError>,
    card: Result<Seq<V>, AlignError>,
    mobile: Result<Seq<V>, AlignError>,
    y: V,
)
    requires
        three_tables(cash, card, mobile) is Ok,
    ensures
        cash is Ok,
        card is Ok,
        mobile is Ok,
        three_tables(cash, card, mobile)->Ok_0.contains(y) <==> cash->Ok_0.contains(y)
            || card->Ok_0.contains(y) || mobile->Ok_0.contains(y),
{
    let a = cash->Ok_0;
    let b = card->Ok_0;
    let c = mobile->Ok_0;
    let all = a + b + c;
    if all.contains(y) {
        let p = choose|p: int| 0 <= p < all.len() && all[p] == y;
        if p < a.len() {
            assert(a[p] == y);
        } else if p < a.len() + b.len() {
            assert(b[p - a.len()] == y);
        } else {
            assert(c[p - a.len() - b.len()] == y);
        }
    }
    if a.contains(y) {
        let p = choose|p: int| 0 <= p < a.len() && a[p] == y;
        assert(all[p] == y);
    }
    if b.contains(y) {
        let p = choose|p: int| 0 <= p < b.len() && b[p] == y;
        assert(all[a.len() + p] == y);
    }
    if c.contains(y) {
        let p = choose|p: int| 0 <= p < c.len() && c[p] == y;
        assert(all[a.len() + b.len() + p] == y);
    }
}

/// A fare that was built of a table of a channel has a price that is a
/// number literal.
proof fn lemma_built_fare_has_price(tt: TT, ftype: KdiFareEnum, rows: Seq<KdiFare>, y: KdiFareView)
    requires
        built_by(FareBuilder { tt, ftype }, rows) is Ok,
        built_by(FareBuilder { tt, ftype }, rows)->Ok_0.contains(y),
    ensures
        is_number(y.price),
{
    let builder = FareBuilder { tt, ftype };
    lemma_built_members(builder, rows, y);
    let q = choose|q: int|
        0 <= q < rows.len() && builder.makes(q, #[trigger] rows[q]) == Ok::<
            KdiFareView,
            AlignError,
        >(y);
    assert(fare_of(tt, ftype, rows[q]) == Ok::<KdiFareView, AlignError>(y));
}

/// The numbers of a merged model are numbers: the coordinates of every
/// location and the price of every fare are number literals.
pub proof fn lemma_numbers_are_numbers(
    model: KdiModelView,
    urban: TierSources,
    extra_urban: TierSources,
    poi: PoiSources,
)
    requires
        is_model_of(model, urban, extra_urban, poi),
    ensures
        forall|i: int| 0 <= i < model.locations.len() ==> has_coordinates(
            #[trigger] model.locations[i],
        ),
        forall|i: int| 0 <= i < model.fares.len() ==> is_number((#[trigger] model.fares[i]).price),
{
    assert forall|i: int| 0 <= i < model.locations.len() implies has_coordinates(
        #[trigger] model.locations[i],
    ) by {
        let y = model.locations[i];
        assert(model.locations.contains(y));
        lemma_sorted_members::<KdiLocation>(
            model.locations,
            model_locations(urban, extra_urban, poi)->Ok_0,
            y,
        );
        lemma_location_members(urban, extra_urban, poi, y);
        lemma_built_location_has_coordinates(urban, extra_urban, poi, y);
    }
    assert forall|i: int| 0 <= i < model.fares.len() implies is_number(
        (#[trigger] model.fares[i]).price,
    ) by {
        let y = model.fares[i];
        assert(model.fares.contains(y));
        lemma_sorted_members::<KdiFare>(model.fares, model_fares(urban, extra_urban, poi)->Ok_0, y);
        let first = fares_of(
            TT::ExtraUrban,
            extra_urban.fares_cash@,
            extra_urban.fares_card@,
            extra_urban.fares_mobile@,
        );
        let next = fares_of(TT::Urban, urban.fares_cash@, urban.fares_card@, urban.fares_mobile@);
        lemma_chain_members(first, next, y);
        let tt = if first->Ok_0.contains(y) {
            TT::ExtraUrban
        } else {
            TT::Urban
        };
        let t = tier(tt, urban, extra_urban);
        let cash = built_by(FareBuilder { tt, ftype: KdiFareEnum::Cash }, t.fares_cash@);
        let card = built_by(FareBuilder { tt, ftype: KdiFareEnum::Cartascalare }, t.fares_card@);
        let mobile = built_by(FareBuilder { tt, ftype: KdiFareEnum::Mobile }, t.fares_mobile@);
        lemma_three_tables_members(cash, card, mobile, y);
        if cash->Ok_0.contains(y) {
            lemma_built_fare_has_price(tt, KdiFareEnum::Cash, t.fares_cash@, y);
        } else if card->Ok_0.contains(y) {
            lemma_built_fare_has_price(tt, KdiFareEnum::Cartascalare, t.fares_card@, y);
        } else {
            lemma_built_fare_has_price(tt, KdiFareEnum::Mobile, t.fares_mobile@, y);
        }
    }
}

} // verus!
