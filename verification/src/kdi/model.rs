//! The assembler: runs every builder on the sources of both tiers and of the
//! points-of-interest feeds, and holds the merged model.
use crate::kdi::align::{
    agencies_of, align_agency, align_calendar, align_calendar_exception, align_fare,
    align_fare_rule, align_location_car_sharing, align_location_centro_in_bici,
    align_location_parcheggio_protetto_biciclette, align_location_public_transport_stop,
    align_location_taxi, align_location_zone, align_parking_stop_car_sharing,
    align_parking_stop_centro_in_bici, align_parking_stop_parcheggio_protetto_biciclette,
    align_parking_stop_taxi, align_public_transport_stop, align_route, align_stop_time, align_trip,
    calendar_exceptions_of, calendars_of, fare_rules_of, fares_of, poi_locations_of,
    poi_parking_stops_of, public_transport_stops_of, routes_of, stop_locations_of, stop_times_of,
    trips_of, zone_locations_of, PoiFamily, TT,
};
use crate::kdi::builder::aligned;
use crate::kdi::error::AlignError;
use crate::kdi::gtfs::Gtfs;
use crate::kdi::kml::Kml;
use crate::kdi::order::{is_stable_sort, lemma_stable_sort_extends, Keyed};
use crate::kdi::structs::{
    KdiAgency, KdiAgencyView, KdiCalendar, KdiCalendarException, KdiCalendarExceptionView,
    KdiCalendarView, KdiFare, KdiFareRule, KdiFareRuleRow, KdiFareRuleView, KdiFareView,
    KdiLocation, KdiLocationView, KdiParkingStop, KdiParkingStopView, KdiPublicTransportStop,
    KdiPublicTransportStopView, KdiRoute, KdiRouteView, KdiStopTime, KdiStopTimeView, KdiTrip,
    KdiTripView, KdiZone,
};
use vstd::prelude::*;

verus! {

/// The sources of one tier: its feed, its zones, and its fare tables, one
/// for each channel.
#[derive(Debug)]
pub struct TierSources {
    pub gtfs: Gtfs,
    pub zones: Vec<KdiZone>,
    pub fare_rules_cash: Vec<KdiFareRuleRow>,
    pub fare_rules_card: Vec<KdiFareRuleRow>,
    pub fare_rules_mobile: Vec<KdiFareRuleRow>,
    pub fares_cash: Vec<KdiFare>,
    pub fares_card: Vec<KdiFare>,
    pub fares_mobile: Vec<KdiFare>,
}

/// The points-of-interest feeds.
#[derive(Debug)]
pub struct PoiSources {
    pub car_sharing: Kml,
    pub centro_in_bici: Kml,
    pub parcheggio_protetto_biciclette: Kml,
    pub taxi: Kml,
}

/// The merged model: one collection for every kind of entity.
#[derive(Debug)]
pub struct KdiModel {
    pub locations: Vec<KdiLocation>,
    pub calendar_exceptions: Vec<KdiCalendarException>,
    pub calendars: Vec<KdiCalendar>,
    pub agencies: Vec<KdiAgency>,
    pub fare_rules: Vec<KdiFareRule>,
    pub parking_stops: Vec<KdiParkingStop>,
    pub fares: Vec<KdiFare>,
    pub public_transport_stops: Vec<KdiPublicTransportStop>,
    pub stop_times: Vec<KdiStopTime>,
    pub trips: Vec<KdiTrip>,
    pub routes: Vec<KdiRoute>,
}

/// What a model holds.
pub struct KdiModelView {
    pub locations: Seq<KdiLocationView>,
    pub calendar_exceptions: Seq<KdiCalendarExceptionView>,
    pub calendars: Seq<KdiCalendarView>,
    pub agencies: Seq<KdiAgencyView>,
    pub fare_rules: Seq<KdiFareRuleView>,
    pub parking_stops: Seq<KdiParkingStopView>,
    pub fares: Seq<KdiFareView>,
    pub public_transport_stops: Seq<KdiPublicTransportStopView>,
    pub stop_times: Seq<KdiStopTimeView>,
    pub trips: Seq<KdiTripView>,
    pub routes: Seq<KdiRouteView>,
}

impl DeepView for KdiModel {
    type V = KdiModelView;

    open spec fn deep_view(&self) -> KdiModelView {
        KdiModelView {
            locations: self.locations.deep_view(),
            calendar_exceptions: self.calendar_exceptions.deep_view(),
            calendars: self.calendars.deep_view(),
            agencies: self.agencies.deep_view(),
            fare_rules: self.fare_rules.deep_view(),
            parking_stops: self.parking_stops.deep_view(),
            fares: self.fares.deep_view(),
            public_transport_stops: self.public_transport_stops.deep_view(),
            stop_times: self.stop_times.deep_view(),
            trips: self.trips.deep_view(),
            routes: self.routes.deep_view(),
        }
    }
}

/// What two builder calls in a row build: the records of both, or the first
/// fault.
pub open spec fn chain<V>(first: Result<Seq<V>, AlignError>, next: Result<Seq<V>, AlignError>)
    -> Result<Seq<V>, AlignError> {
    match first {
        Err(e) => Err(e),
        Ok(a) => match next {
            Err(e) => Err(e),
            Ok(b) => Ok(a + b),
        },
    }
}

/// What a collection is after the builder calls that fill it: where the
/// sources have no fault, all that was built, sorted by key with ties left
/// in the order in which they were built; where they have one, nothing but
/// the first fault.
pub open spec fn merged<T: Keyed>(
    r: Result<Seq<T::V>, AlignError>,
    built: Result<Seq<T::V>, AlignError>,
) -> bool {
    match built {
        Ok(all) => r is Ok && is_stable_sort::<T>(r->Ok_0, all),
        Err(e) => r == Err::<Seq<T::V>, AlignError>(e),
    }
}

/// The outcome of filling a collection, as a view.
pub open spec fn outcome<T: DeepView>(r: Result<Vec<T>, AlignError>) -> Result<
    Seq<T::V>,
    AlignError,
> {
    match r {
        Ok(v) => Ok(v.deep_view()),
        Err(e) => Err(e),
    }
}

/// What the first builder call on an empty collection leaves.
proof fn lemma_first_call<T: Keyed>(
    after: Seq<T::V>,
    built: Result<Seq<T::V>, AlignError>,
    r: Result<(), AlignError>,
)
    requires
        aligned::<T>(Seq::<T::V>::empty(), after, built, r),
    ensures
        built is Ok ==> r is Ok && is_stable_sort::<T>(after, built->Ok_0),
        built is Err ==> r == Err::<(), AlignError>(built->Err_0),
{
    if built is Ok {
        assert(Seq::<T::V>::empty() + built->Ok_0 =~= built->Ok_0);
    }
}

/// What one more builder call leaves of a collection that held what the
/// calls before it built.
proof fn lemma_next_call<T: Keyed>(
    so_far: Result<Seq<T::V>, AlignError>,
    before: Seq<T::V>,
    after: Seq<T::V>,
    built: Result<Seq<T::V>, AlignError>,
    r: Result<(), AlignError>,
)
    requires
        so_far is Ok,
        is_stable_sort::<T>(before, so_far->Ok_0),
        aligned::<T>(before, after, built, r),
    ensures
        chain(so_far, built) is Ok ==> r is Ok && is_stable_sort::<T>(
            after,
            chain(so_far, built)->Ok_0,
        ),
        chain(so_far, built) is Err ==> r == Err::<(), AlignError>(chain(so_far, built)->Err_0),
{
    if built is Ok {
        lemma_stable_sort_extends::<T>(so_far->Ok_0, before, built->Ok_0, after);
    }
}

/// What is built for the locations: the fare zones of both tiers, the stops
/// of both tiers, then the car-sharing points, the bike-sharing points, the
/// protected bike parks and the taxi stands, in that order.
pub open spec fn model_locations(
    urban: TierSources,
    extra_urban: TierSources,
    poi: PoiSources,
) -> Result<Seq<KdiLocationView>, AlignError> {
    let zones_extra_urban = zone_locations_of(TT::ExtraUrban, extra_urban.zones@);
    let zones_urban = zone_locations_of(TT::Urban, urban.zones@);
    let stops_extra_urban = stop_locations_of(TT::ExtraUrban, extra_urban.gtfs.stops@);
    let stops_urban = stop_locations_of(TT::Urban, urban.gtfs.stops@);
    let car_sharing = poi_locations_of(
        PoiFamily::CarSharing,
        poi.car_sharing.document.folder.placemarks@,
    );
    let centro_in_bici = poi_locations_of(
        PoiFamily::CentroInBici,
        poi.centro_in_bici.document.folder.placemarks@,
    );
    let bike_parks = poi_locations_of(
        PoiFamily::ParcheggioProtettoBiciclette,
        poi.parcheggio_protetto_biciclette.document.folder.placemarks@,
    );
    let taxi = poi_locations_of(PoiFamily::Taxi, poi.taxi.document.folder.placemarks@);
    let zones = chain(zones_extra_urban, zones_urban);
    let places = chain(chain(zones, stops_extra_urban), stops_urban);
    let shared = chain(chain(places, car_sharing), centro_in_bici);
    chain(chain(shared, bike_parks), taxi)
}

/// What is built for the calendar exceptions: those of the extra-urban tier,
/// then those of the urban tier.
pub open spec fn model_calendar_exceptions(
    urban: TierSources,
    extra_urban: TierSources,
    poi: PoiSources,
) -> Result<Seq<KdiCalendarExceptionView>, AlignError> {
    let extra_urban_part = calendar_exceptions_of(TT::ExtraUrban, extra_urban.gtfs.calendar_dates@);
    let urban_part = calendar_exceptions_of(TT::Urban, urban.gtfs.calendar_dates@);
    chain(extra_urban_part, urban_part)
}

/// What is built for the calendars: those of the extra-urban tier, then those
/// of the urban tier.
pub open spec fn model_calendars(
    urban: TierSources,
    extra_urban: TierSources,
    poi: PoiSources,
) -> Result<Seq<KdiCalendarView>, AlignError> {
    let extra_urban_part = calendars_of(TT::ExtraUrban, extra_urban.gtfs.calendar@);
    let urban_part = calendars_of(TT::Urban, urban.gtfs.calendar@);
    chain(extra_urban_part, urban_part)
}

/// What is built for the agencies: the one agency.
pub open spec fn model_agencies(
    urban: TierSources,
    extra_urban: TierSources,
    poi: PoiSources,
) -> Result<Seq<KdiAgencyView>, AlignError> {
    agencies_of(urban.gtfs.agencies@, extra_urban.gtfs.agencies@)
}

/// What is built for the fare rules: those of the extra-urban tier, then
/// those of the urban tier.
pub open spec fn model_fare_rules(
    urban: TierSources,
    extra_urban: TierSources,
    poi: PoiSources,
) -> Result<Seq<KdiFareRuleView>, AlignError> {
    let extra_urban_part = fare_rules_of(
        TT::ExtraUrban,
        extra_urban.fare_rules_cash@,
        extra_urban.fare_rules_card@,
        extra_urban.fare_rules_mobile@,
    );
    let urban_part = fare_rules_of(
        TT::Urban,
        urban.fare_rules_cash@,
        urban.fare_rules_card@,
        urban.fare_rules_mobile@,
    );
    chain(extra_urban_part, urban_part)
}

/// What is built for the parking stops: the car-sharing points, the
/// bike-sharing points, the protected bike parks and the taxi stands, in that
/// order.
pub open spec fn model_parking_stops(
    urban: TierSources,
    extra_urban: TierSources,
    poi: PoiSources,
) -> Result<Seq<KdiParkingStopView>, AlignError> {
    let car_sharing = poi_parking_stops_of(
        PoiFamily::CarSharing,
        poi.car_sharing.document.folder.placemarks@,
    );
    let centro_in_bici = poi_parking_stops_of(
        PoiFamily::CentroInBici,
        poi.centro_in_bici.document.folder.placemarks@,
    );
    let bike_parks = poi_parking_stops_of(
        PoiFamily::ParcheggioProtettoBiciclette,
        poi.parcheggio_protetto_biciclette.document.folder.placemarks@,
    );
    let taxi = poi_parking_stops_of(PoiFamily::Taxi, poi.taxi.document.folder.placemarks@);
    chain(chain(chain(car_sharing, centro_in_bici), bike_parks), taxi)
}

/// What is built for the fares: those of the extra-urban tier, then those of
/// the urban tier.
pub open spec fn model_fares(
    urban: TierSources,
    extra_urban: TierSources,
    poi: PoiSources,
) -> Result<Seq<KdiFareView>, AlignError> {
    let extra_urban_part = fares_of(
        TT::ExtraUrban,
        extra_urban.fares_cash@,
        extra_urban.fares_card@,
        extra_urban.fares_mobile@,
    );
    let urban_part = fares_of(TT::Urban, urban.fares_cash@, urban.fares_card@, urban.fares_mobile@);
    chain(extra_urban_part, urban_part)
}

/// What is built for the public-transport stops: those of the extra-urban
/// tier, then those of the urban tier.
pub open spec fn model_public_transport_stops(
    urban: TierSources,
    extra_urban: TierSources,
    poi: PoiSources,
) -> Result<Seq<KdiPublicTransportStopView>, AlignError> {
    let extra_urban_part = public_transport_stops_of(TT::ExtraUrban, extra_urban.gtfs.stops@);
    let urban_part = public_transport_stops_of(TT::Urban, urban.gtfs.stops@);
    chain(extra_urban_part, urban_part)
}

/// What is built for the stop times: those of the extra-urban tier, then
/// those of the urban tier.
pub open spec fn model_stop_times(
    urban: TierSources,
    extra_urban: TierSources,
    poi: PoiSources,
) -> Result<Seq<KdiStopTimeView>, AlignError> {
    let extra_urban_part = stop_times_of(TT::ExtraUrban, extra_urban.gtfs.trips@);
    let urban_part = stop_times_of(TT::Urban, urban.gtfs.trips@);
    chain(extra_urban_part, urban_part)
}

/// What is built for the trips: those of the extra-urban tier, then those of
/// the urban tier.
pub open spec fn model_trips(
    urban: TierSources,
    extra_urban: TierSources,
    poi: PoiSources,
) -> Result<Seq<KdiTripView>, AlignError> {
    let extra_urban_part = trips_of(TT::ExtraUrban, extra_urban.gtfs.trips@);
    let urban_part = trips_of(TT::Urban, urban.gtfs.trips@);
    chain(extra_urban_part, urban_part)
}

/// What is built for the routes: those of the extra-urban tier, then those of
/// the urban tier.
pub open spec fn model_routes(
    urban: TierSources,
    extra_urban: TierSources,
    poi: PoiSources,
) -> Result<Seq<KdiRouteView>, AlignError> {
    let extra_urban_part = routes_of(TT::ExtraUrban, extra_urban.gtfs.routes@);
    let urban_part = routes_of(TT::Urban, urban.gtfs.routes@);
    chain(extra_urban_part, urban_part)
}

/// The first fault of the sources, in the order in which the collections
/// are built, if they have one.
pub open spec fn model_fault(
    urban: TierSources,
    extra_urban: TierSources,
    poi: PoiSources,
) -> Option<AlignError> {
    if model_locations(urban, extra_urban, poi) is Err {
        Some(model_locations(urban, extra_urban, poi)->Err_0)
    } else if model_calendar_exceptions(urban, extra_urban, poi) is Err {
        Some(model_calendar_exceptions(urban, extra_urban, poi)->Err_0)
    } else if model_calendars(urban, extra_urban, poi) is Err {
        Some(model_calendars(urban, extra_urban, poi)->Err_0)
    } else if model_agencies(urban, extra_urban, poi) is Err {
        Some(model_agencies(urban, extra_urban, poi)->Err_0)
    } else if model_fare_rules(urban, extra_urban, poi) is Err {
        Some(model_fare_rules(urban, extra_urban, poi)->Err_0)
    } else if model_parking_stops(urban, extra_urban, poi) is Err {
        Some(model_parking_stops(urban, extra_urban, poi)->Err_0)
    } else if model_fares(urban, extra_urban, poi) is Err {
        Some(model_fares(urban, extra_urban, poi)->Err_0)
    } else if model_public_transport_stops(urban, extra_urban, poi) is Err {
        Some(model_public_transport_stops(urban, extra_urban, poi)->Err_0)
    } else if model_stop_times(urban, extra_urban, poi) is Err {
        Some(model_stop_times(urban, extra_urban, poi)->Err_0)
    } else if model_trips(urban, extra_urban, poi) is Err {
        Some(model_trips(urban, extra_urban, poi)->Err_0)
    } else if model_routes(urban, extra_urban, poi) is Err {
        Some(model_routes(urban, extra_urban, poi)->Err_0)
    } else {
        None
    }
}

/// Whether a model is what the sources give: every collection holds what
/// was built for it, sorted by its key with ties left in the order in which
/// they were built.
pub open spec fn is_model_of(
    model: KdiModelView,
    urban: TierSources,
    extra_urban: TierSources,
    poi: PoiSources,
) -> bool {
    &&& model_locations(urban, extra_urban, poi) is Ok
    &&& is_stable_sort::<KdiLocation>(
        model.locations,
        model_locations(urban, extra_urban, poi)->Ok_0,
    )
    &&& model_calendar_exceptions(urban, extra_urban, poi) is Ok
    &&& is_stable_sort::<KdiCalendarException>(
        model.calendar_exceptions,
        model_calendar_exceptions(urban, extra_urban, poi)->Ok_0,
    )
    &&& model_calendars(urban, extra_urban, poi) is Ok
    &&& is_stable_sort::<KdiCalendar>(
        model.calendars,
        model_calendars(urban, extra_urban, poi)->Ok_0,
    )
    &&& model_agencies(urban, extra_urban, poi) is Ok
    &&& is_stable_sort::<KdiAgency>(
        model.agencies,
        model_agencies(urban, extra_urban, poi)->Ok_0,
    )
    &&& model_fare_rules(urban, extra_urban, poi) is Ok
    &&& is_stable_sort::<KdiFareRule>(
        model.fare_rules,
        model_fare_rules(urban, extra_urban, poi)->Ok_0,
    )
    &&& model_parking_stops(urban, extra_urban, poi) is Ok
    &&& is_stable_sort::<KdiParkingStop>(
        model.parking_stops,
        model_parking_stops(urban, extra_urban, poi)->Ok_0,
    )
    &&& model_fares(urban, extra_urban, poi) is Ok
    &&& is_stable_sort::<KdiFare>(
        model.fares,
        model_fares(urban, extra_urban, poi)->Ok_0,
    )
    &&& model_public_transport_stops(urban, extra_urban, poi) is Ok
    &&& is_stable_sort::<KdiPublicTransportStop>(
        model.public_transport_stops,
        model_public_transport_stops(urban, extra_urban, poi)->Ok_0,
    )
    &&& model_stop_times(urban, extra_urban, poi) is Ok
    &&& is_stable_sort::<KdiStopTime>(
        model.stop_times,
        model_stop_times(urban, extra_urban, poi)->Ok_0,
    )
    &&& model_trips(urban, extra_urban, poi) is Ok
    &&& is_stable_sort::<KdiTrip>(
        model.trips,
        model_trips(urban, extra_urban, poi)->Ok_0,
    )
    &&& model_routes(urban, extra_urban, poi) is Ok
    &&& is_stable_sort::<KdiRoute>(
        model.routes,
        model_routes(urban, extra_urban, poi)->Ok_0,
    )
}

/// Builds the locations of the model.
fn merge_locations(
    urban: &TierSources,
    extra_urban: &TierSources,
    poi: &PoiSources,
) -> (r: Result<Vec<KdiLocation>, AlignError>)
    ensures
        merged::<KdiLocation>(outcome(r), model_locations(*urban, *extra_urban, *poi)),
{
    let mut locations: Vec<KdiLocation> = Vec::new();
    assert(locations.deep_view() =~= Seq::<KdiLocationView>::empty());
    let ghost zones_extra_urban = zone_locations_of(TT::ExtraUrban, extra_urban.zones@);
    let called = align_location_zone(extra_urban.zones.as_slice(), &mut locations, TT::ExtraUrban);
    proof {
        lemma_first_call::<KdiLocation>(locations.deep_view(), zones_extra_urban, called);
    }
    let ghost mut so_far = zones_extra_urban;
    if let Err(e) = called {
        return Err(e);
    }
    let ghost zones_urban = zone_locations_of(TT::Urban, urban.zones@);
    let ghost before = locations.deep_view();
    let called = align_location_zone(urban.zones.as_slice(), &mut locations, TT::Urban);
    proof {
        lemma_next_call::<KdiLocation>(so_far, before, locations.deep_view(), zones_urban, called);
        so_far = chain(so_far, zones_urban);
    }
    if let Err(e) = called {
        return Err(e);
    }
    let ghost stops_extra_urban = stop_locations_of(TT::ExtraUrban, extra_urban.gtfs.stops@);
    let ghost before = locations.deep_view();
    let called = align_location_public_transport_stop(
        &extra_urban.gtfs,
        &mut locations,
        TT::ExtraUrban,
    );
    proof {
        lemma_next_call::<KdiLocation>(
            so_far,
            before,
            locations.deep_view(),
            stops_extra_urban,
            called,
        );
        so_far = chain(so_far, stops_extra_urban);
    }
    if let Err(e) = called {
        return Err(e);
    }
    let ghost stops_urban = stop_locations_of(TT::Urban, urban.gtfs.stops@);
    let ghost before = locations.deep_view();
    let called = align_location_public_transport_stop(&urban.gtfs, &mut locations, TT::Urban);
    proof {
        lemma_next_call::<KdiLocation>(so_far, before, locations.deep_view(), stops_urban, called);
        so_far = chain(so_far, stops_urban);
    }
    if let Err(e) = called {
        return Err(e);
    }
    let ghost car_sharing = poi_locations_of(
        PoiFamily::CarSharing,
        poi.car_sharing.document.folder.placemarks@,
    );
    let ghost before = locations.deep_view();
    let called = align_location_car_sharing(&poi.car_sharing, &mut locations);
    proof {
        lemma_next_call::<KdiLocation>(so_far, before, locations.deep_view(), car_sharing, called);
        so_far = chain(so_far, car_sharing);
    }
    if let Err(e) = called {
        return Err(e);
    }
    let ghost centro_in_bici = poi_locations_of(
        PoiFamily::CentroInBici,
        poi.centro_in_bici.document.folder.placemarks@,
    );
    let ghost before = locations.deep_view();
    let called = align_location_centro_in_bici(&poi.centro_in_bici, &mut locations);
    proof {
        lemma_next_call::<KdiLocation>(
            so_far,
            before,
            locations.deep_view(),
            centro_in_bici,
            called,
        );
        so_far = chain(so_far, centro_in_bici);
    }
    if let Err(e) = called {
        return Err(e);
    }
    let ghost bike_parks = poi_locations_of(
        PoiFamily::ParcheggioProtettoBiciclette,
        poi.parcheggio_protetto_biciclette.document.folder.placemarks@,
    );
    let ghost before = locations.deep_view();
    let called = align_location_parcheggio_protetto_biciclette(
        &poi.parcheggio_protetto_biciclette,
        &mut locations,
    );
    proof {
        lemma_next_call::<KdiLocation>(so_far, before, locations.deep_view(), bike_parks, called);
        so_far = chain(so_far, bike_parks);
    }
    if let Err(e) = called {
        return Err(e);
    }
    let ghost taxi = poi_locations_of(PoiFamily::Taxi, poi.taxi.document.folder.placemarks@);
    let ghost before = locations.deep_view();
    let called = align_location_taxi(&poi.taxi, &mut locations);
    proof {
        lemma_next_call::<KdiLocation>(so_far, before, locations.deep_view(), taxi, called);
        so_far = chain(so_far, taxi);
    }
    if let Err(e) = called {
        return Err(e);
    }
    Ok(locations)
}

/// Builds the calendar exceptions of the model.
fn merge_calendar_exceptions(
    urban: &TierSources,
    extra_urban: &TierSources,
    poi: &PoiSources,
) -> (r: Result<Vec<KdiCalendarException>, AlignError>)
    ensures
        merged::<KdiCalendarException>(
            outcome(r),
            model_calendar_exceptions(*urban, *extra_urban, *poi),
        ),
{
    let mut calendar_exceptions: Vec<KdiCalendarException> = Vec::new();
    assert(calendar_exceptions.deep_view() =~= Seq::<KdiCalendarExceptionView>::empty());
    let ghost extra_urban_part = calendar_exceptions_of(
        TT::ExtraUrban,
        extra_urban.gtfs.calendar_dates@,
    );
    let called = align_calendar_exception(
        &extra_urban.gtfs,
        &mut calendar_exceptions,
        TT::ExtraUrban,
    );
    proof {
        lemma_first_call::<KdiCalendarException>(
            calendar_exceptions.deep_view(),
            extra_urban_part,
            called,
        );
    }
    let ghost mut so_far = extra_urban_part;
    if let Err(e) = called {
        return Err(e);
    }
    let ghost urban_part = calendar_exceptions_of(TT::Urban, urban.gtfs.calendar_dates@);
    let ghost before = calendar_exceptions.deep_view();
    let called = align_calendar_exception(&urban.gtfs, &mut calendar_exceptions, TT::Urban);
    proof {
        lemma_next_call::<KdiCalendarException>(
            so_far,
            before,
            calendar_exceptions.deep_view(),
            urban_part,
            called,
        );
        so_far = chain(so_far, urban_part);
    }
    if let Err(e) = called {
        return Err(e);
    }
    Ok(calendar_exceptions)
}

/// Builds the calendars of the model.
fn merge_calendars(
    urban: &TierSources,
    extra_urban: &TierSources,
    poi: &PoiSources,
) -> (r: Result<Vec<KdiCalendar>, AlignError>)
    ensures
        merged::<KdiCalendar>(outcome(r), model_calendars(*urban, *extra_urban, *poi)),
{
    let mut calendars: Vec<KdiCalendar> = Vec::new();
    assert(calendars.deep_view() =~= Seq::<KdiCalendarView>::empty());
    let ghost extra_urban_part = calendars_of(TT::ExtraUrban, extra_urban.gtfs.calendar@);
    let called = align_calendar(&extra_urban.gtfs, &mut calendars, TT::ExtraUrban);
    proof {
        lemma_first_call::<KdiCalendar>(calendars.deep_view(), extra_urban_part, called);
    }
    let ghost mut so_far = extra_urban_part;
    if let Err(e) = called {
        return Err(e);
    }
    let ghost urban_part = calendars_of(TT::Urban, urban.gtfs.calendar@);
    let ghost before = calendars.deep_view();
    let called = align_calendar(&urban.gtfs, &mut calendars, TT::Urban);
    proof {
        lemma_next_call::<KdiCalendar>(so_far, before, calendars.deep_view(), urban_part, called);
        so_far = chain(so_far, urban_part);
    }
    if let Err(e) = called {
        return Err(e);
    }
    Ok(calendars)
}

/// Builds the agencies of the model.
fn merge_agencies(
    urban: &TierSources,
    extra_urban: &TierSources,
    poi: &PoiSources,
) -> (r: Result<Vec<KdiAgency>, AlignError>)
    ensures
        merged::<KdiAgency>(outcome(r), model_agencies(*urban, *extra_urban, *poi)),
{
    let mut agencies: Vec<KdiAgency> = Vec::new();
    assert(agencies.deep_view() =~= Seq::<KdiAgencyView>::empty());
    let ghost agency = agencies_of(urban.gtfs.agencies@, extra_urban.gtfs.agencies@);
    let called = align_agency(&urban.gtfs, &extra_urban.gtfs, &mut agencies);
    proof {
        lemma_first_call::<KdiAgency>(agencies.deep_view(), agency, called);
    }
    if let Err(e) = called {
        return Err(e);
    }
    Ok(agencies)
}

/// Builds the fare rules of the model.
fn merge_fare_rules(
    urban: &TierSources,
    extra_urban: &TierSources,
    poi: &PoiSources,
) -> (r: Result<Vec<KdiFareRule>, AlignError>)
    ensures
        merged::<KdiFareRule>(outcome(r), model_fare_rules(*urban, *extra_urban, *poi)),
{
    let mut fare_rules: Vec<KdiFareRule> = Vec::new();
    assert(fare_rules.deep_view() =~= Seq::<KdiFareRuleView>::empty());
    let ghost extra_urban_part = fare_rules_of(
        TT::ExtraUrban,
        extra_urban.fare_rules_cash@,
        extra_urban.fare_rules_card@,
        extra_urban.fare_rules_mobile@,
    );
    let called = align_fare_rule(
        extra_urban.fare_rules_cash.as_slice(),
        extra_urban.fare_rules_card.as_slice(),
        extra_urban.fare_rules_mobile.as_slice(),
        &mut fare_rules,
        TT::ExtraUrban,
    );
    proof {
        lemma_first_call::<KdiFareRule>(fare_rules.deep_view(), extra_urban_part, called);
    }
    let ghost mut so_far = extra_urban_part;
    if let Err(e) = called {
        return Err(e);
    }
    let ghost urban_part = fare_rules_of(
        TT::Urban,
        urban.fare_rules_cash@,
        urban.fare_rules_card@,
        urban.fare_rules_mobile@,
    );
    let ghost before = fare_rules.deep_view();
    let called = align_fare_rule(
        urban.fare_rules_cash.as_slice(),
        urban.fare_rules_card.as_slice(),
        urban.fare_rules_mobile.as_slice(),
        &mut fare_rules,
        TT::Urban,
    );
    proof {
        lemma_next_call::<KdiFareRule>(so_far, before, fare_rules.deep_view(), urban_part, called);
        so_far = chain(so_far, urban_part);
    }
    if let Err(e) = called {
        return Err(e);
    }
    Ok(fare_rules)
}

/// Builds the parking stops of the model.
fn merge_parking_stops(
    urban: &TierSources,
    extra_urban: &TierSources,
    poi: &PoiSources,
) -> (r: Result<Vec<KdiParkingStop>, AlignError>)
    ensures
        merged::<KdiParkingStop>(outcome(r), model_parking_stops(*urban, *extra_urban, *poi)),
{
    let mut parking_stops: Vec<KdiParkingStop> = Vec::new();
    assert(parking_stops.deep_view() =~= Seq::<KdiParkingStopView>::empty());
    let ghost car_sharing = poi_parking_stops_of(
        PoiFamily::CarSharing,
        poi.car_sharing.document.folder.placemarks@,
    );
    let called = align_parking_stop_car_sharing(&poi.car_sharing, &mut parking_stops);
    proof {
        lemma_first_call::<KdiParkingStop>(parking_stops.deep_view(), car_sharing, called);
    }
    let ghost mut so_far = car_sharing;
    if let Err(e) = called {
        return Err(e);
    }
    let ghost centro_in_bici = poi_parking_stops_of(
        PoiFamily::CentroInBici,
        poi.centro_in_bici.document.folder.placemarks@,
    );
    let ghost before = parking_stops.deep_view();
    let called = align_parking_stop_centro_in_bici(&poi.centro_in_bici, &mut parking_stops);
    proof {
        lemma_next_call::<KdiParkingStop>(
            so_far,
            before,
            parking_stops.deep_view(),
            centro_in_bici,
            called,
        );
        so_far = chain(so_far, centro_in_bici);
    }
    if let Err(e) = called {
        return Err(e);
    }
    let ghost bike_parks = poi_parking_stops_of(
        PoiFamily::ParcheggioProtettoBiciclette,
        poi.parcheggio_protetto_biciclette.document.folder.placemarks@,
    );
    let ghost before = parking_stops.deep_view();
    let called = align_parking_stop_parcheggio_protetto_biciclette(
        &poi.parcheggio_protetto_biciclette,
        &mut parking_stops,
    );
    proof {
        lemma_next_call::<KdiParkingStop>(
            so_far,
            before,
            parking_stops.deep_view(),
            bike_parks,
            called,
        );
        so_far = chain(so_far, bike_parks);
    }
    if let Err(e) = called {
        return Err(e);
    }
    let ghost taxi = poi_parking_stops_of(PoiFamily::Taxi, poi.taxi.document.folder.placemarks@);
    let ghost before = parking_stops.deep_view();
    let called = align_parking_stop_taxi(&poi.taxi, &mut parking_stops);
    proof {
        lemma_next_call::<KdiParkingStop>(so_far, before, parking_stops.deep_view(), taxi, called);
        so_far = chain(so_far, taxi);
    }
    if let Err(e) = called {
        return Err(e);
    }
    Ok(parking_stops)
}

/// Builds the fares of the model.
fn merge_fares(
    urban: &TierSources,
    extra_urban: &TierSources,
    poi: &PoiSources,
) -> (r: Result<Vec<KdiFare>, AlignError>)
    ensures
        merged::<KdiFare>(outcome(r), model_fares(*urban, *extra_urban, *poi)),
{
    let mut fares: Vec<KdiFare> = Vec::new();
    assert(fares.deep_view() =~= Seq::<KdiFareView>::empty());
    let ghost extra_urban_part = fares_of(
        TT::ExtraUrban,
        extra_urban.fares_cash@,
        extra_urban.fares_card@,
        extra_urban.fares_mobile@,
    );
    let called = align_fare(
        extra_urban.fares_cash.as_slice(),
        extra_urban.fares_card.as_slice(),
        extra_urban.fares_mobile.as_slice(),
        &mut fares,
        TT::ExtraUrban,
    );
    proof {
        lemma_first_call::<KdiFare>(fares.deep_view(), extra_urban_part, called);
    }
    let ghost mut so_far = extra_urban_part;
    if let Err(e) = called {
        return Err(e);
    }
    let ghost urban_part = fares_of(
        TT::Urban,
        urban.fares_cash@,
        urban.fares_card@,
        urban.fares_mobile@,
    );
    let ghost before = fares.deep_view();
    let called = align_fare(
        urban.fares_cash.as_slice(),
        urban.fares_card.as_slice(),
        urban.fares_mobile.as_slice(),
        &mut fares,
        TT::Urban,
    );
    proof {
        lemma_next_call::<KdiFare>(so_far, before, fares.deep_view(), urban_part, called);
        so_far = chain(so_far, urban_part);
    }
    if let Err(e) = called {
        return Err(e);
    }
    Ok(fares)
}

/// Builds the public-transport stops of the model.
fn merge_public_transport_stops(
    urban: &TierSources,
    extra_urban: &TierSources,
    poi: &PoiSources,
) -> (r: Result<Vec<KdiPublicTransportStop>, AlignError>)
    ensures
        merged::<KdiPublicTransportStop>(
            outcome(r),
            model_public_transport_stops(*urban, *extra_urban, *poi),
        ),
{
    let mut public_transport_stops: Vec<KdiPublicTransportStop> = Vec::new();
    assert(public_transport_stops.deep_view() =~= Seq::<KdiPublicTransportStopView>::empty());
    let ghost extra_urban_part = public_transport_stops_of(TT::ExtraUrban, extra_urban.gtfs.stops@);
    let called = align_public_transport_stop(
        &extra_urban.gtfs,
        &mut public_transport_stops,
        TT::ExtraUrban,
    );
    proof {
        lemma_first_call::<KdiPublicTransportStop>(
            public_transport_stops.deep_view(),
            extra_urban_part,
            called,
        );
    }
    let ghost mut so_far = extra_urban_part;
    if let Err(e) = called {
        return Err(e);
    }
    let ghost urban_part = public_transport_stops_of(TT::Urban, urban.gtfs.stops@);
    let ghost before = public_transport_stops.deep_view();
    let called = align_public_transport_stop(&urban.gtfs, &mut public_transport_stops, TT::Urban);
    proof {
        lemma_next_call::<KdiPublicTransportStop>(
            so_far,
            before,
            public_transport_stops.deep_view(),
            urban_part,
            called,
        );
        so_far = chain(so_far, urban_part);
    }
    if let Err(e) = called {
        return Err(e);
    }
    Ok(public_transport_stops)
}

/// Builds the stop times of the model.
fn merge_stop_times(
    urban: &TierSources,
    extra_urban: &TierSources,
    poi: &PoiSources,
) -> (r: Result<Vec<KdiStopTime>, AlignError>)
    ensures
        merged::<KdiStopTime>(outcome(r), model_stop_times(*urban, *extra_urban, *poi)),
{
    let mut stop_times: Vec<KdiStopTime> = Vec::new();
    assert(stop_times.deep_view() =~= Seq::<KdiStopTimeView>::empty());
    let ghost extra_urban_part = stop_times_of(TT::ExtraUrban, extra_urban.gtfs.trips@);
    let called = align_stop_time(&extra_urban.gtfs, &mut stop_times, TT::ExtraUrban);
    proof {
        lemma_first_call::<KdiStopTime>(stop_times.deep_view(), extra_urban_part, called);
    }
    let ghost mut so_far = extra_urban_part;
    if let Err(e) = called {
        return Err(e);
    }
    let ghost urban_part = stop_times_of(TT::Urban, urban.gtfs.trips@);
    let ghost before = stop_times.deep_view();
    let called = align_stop_time(&urban.gtfs, &mut stop_times, TT::Urban);
    proof {
        lemma_next_call::<KdiStopTime>(so_far, before, stop_times.deep_view(), urban_part, called);
        so_far = chain(so_far, urban_part);
    }
    if let Err(e) = called {
        return Err(e);
    }
    Ok(stop_times)
}

/// Builds the trips of the model.
fn merge_trips(
    urban: &TierSources,
    extra_urban: &TierSources,
    poi: &PoiSources,
) -> (r: Result<Vec<KdiTrip>, AlignError>)
    ensures
        merged::<KdiTrip>(outcome(r), model_trips(*urban, *extra_urban, *poi)),
{
    let mut trips: Vec<KdiTrip> = Vec::new();
    assert(trips.deep_view() =~= Seq::<KdiTripView>::empty());
    let ghost extra_urban_part = trips_of(TT::ExtraUrban, extra_urban.gtfs.trips@);
    let called = align_trip(&extra_urban.gtfs, &mut trips, TT::ExtraUrban);
    proof {
        lemma_first_call::<KdiTrip>(trips.deep_view(), extra_urban_part, called);
    }
    let ghost mut so_far = extra_urban_part;
    if let Err(e) = called {
        return Err(e);
    }
    let ghost urban_part = trips_of(TT::Urban, urban.gtfs.trips@);
    let ghost before = trips.deep_view();
    let called = align_trip(&urban.gtfs, &mut trips, TT::Urban);
    proof {
        lemma_next_call::<KdiTrip>(so_far, before, trips.deep_view(), urban_part, called);
        so_far = chain(so_far, urban_part);
    }
    if let Err(e) = called {
        return Err(e);
    }
    Ok(trips)
}

/// Builds the routes of the model.
fn merge_routes(
    urban: &TierSources,
    extra_urban: &TierSources,
    poi: &PoiSources,
) -> (r: Result<Vec<KdiRoute>, AlignError>)
    ensures
        merged::<KdiRoute>(outcome(r), model_routes(*urban, *extra_urban, *poi)),
{
    let mut routes: Vec<KdiRoute> = Vec::new();
    assert(routes.deep_view() =~= Seq::<KdiRouteView>::empty());
    let ghost extra_urban_part = routes_of(TT::ExtraUrban, extra_urban.gtfs.routes@);
    let called = align_route(&extra_urban.gtfs, &mut routes, TT::ExtraUrban);
    proof {
        lemma_first_call::<KdiRoute>(routes.deep_view(), extra_urban_part, called);
    }
    let ghost mut so_far = extra_urban_part;
    if let Err(e) = called {
        return Err(e);
    }
    let ghost urban_part = routes_of(TT::Urban, urban.gtfs.routes@);
    let ghost before = routes.deep_view();
    let called = align_route(&urban.gtfs, &mut routes, TT::Urban);
    proof {
        lemma_next_call::<KdiRoute>(so_far, before, routes.deep_view(), urban_part, called);
        so_far = chain(so_far, urban_part);
    }
    if let Err(e) = called {
        return Err(e);
    }
    Ok(routes)
}

/// Builds the merged model from the sources of both tiers and the
/// points-of-interest feeds. The first fault of the sources ends the run, and
/// nothing is then handed out.
pub fn align_model(urban: &TierSources, extra_urban: &TierSources, poi: &PoiSources) -> (r: Result<
    KdiModel,
    AlignError,
>)
    ensures
        match model_fault(*urban, *extra_urban, *poi) {
            Some(e) => r == Err::<KdiModel, AlignError>(e),
            None => r is Ok && is_model_of(r->Ok_0.deep_view(), *urban, *extra_urban, *poi),
        },
{
    let locations = match merge_locations(urban, extra_urban, poi) {
        Err(e) => {
            return Err(e);
        },
        Ok(locations) => locations,
    };
    let calendar_exceptions = match merge_calendar_exceptions(urban, extra_urban, poi) {
        Err(e) => {
            return Err(e);
        },
        Ok(calendar_exceptions) => calendar_exceptions,
    };
    let calendars = match merge_calendars(urban, extra_urban, poi) {
        Err(e) => {
            return Err(e);
        },
        Ok(calendars) => calendars,
    };
    let agencies = match merge_agencies(urban, extra_urban, poi) {
        Err(e) => {
            return Err(e);
        },
        Ok(agencies) => agencies,
    };
    let fare_rules = match merge_fare_rules(urban, extra_urban, poi) {
        Err(e) => {
            return Err(e);
        },
        Ok(fare_rules) => fare_rules,
    };
    let parking_stops = match merge_parking_stops(urban, extra_urban, poi) {
        Err(e) => {
            return Err(e);
        },
        Ok(parking_stops) => parking_stops,
    };
    let fares = match merge_fares(urban, extra_urban, poi) {
        Err(e) => {
            return Err(e);
        },
        Ok(fares) => fares,
    };
    let public_transport_stops = match merge_public_transport_stops(urban, extra_urban, poi) {
        Err(e) => {
            return Err(e);
        },
        Ok(public_transport_stops) => public_transport_stops,
    };
    let stop_times = match merge_stop_times(urban, extra_urban, poi) {
        Err(e) => {
            return Err(e);
        },
        Ok(stop_times) => stop_times,
    };
    let trips = match merge_trips(urban, extra_urban, poi) {
        Err(e) => {
            return Err(e);
        },
        Ok(trips) => trips,
    };
    let routes = match merge_routes(urban, extra_urban, poi) {
        Err(e) => {
            return Err(e);
        },
        Ok(routes) => routes,
    };
    Ok(
        KdiModel {
            locations,
            calendar_exceptions,
            calendars,
            agencies,
            fare_rules,
            parking_stops,
            fares,
            public_transport_stops,
            stop_times,
            trips,
            routes,
        },
    )
}

} // verus!
