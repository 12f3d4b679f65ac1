//! The entity builders: each reads the sources of one tier, or one
//! points-of-interest feed, adds what it builds to the merged collection and
//! sorts the whole. A fault of the sources ends the call and leaves the
//! collection as it was.
use crate::kdi::builder::{
    align, aligned, built_by, collect, commit, lemma_try_flat_map_fails, try_flat_map, Builder,
};
use crate::kdi::enums::{
    KdiDirectionEnum, KdiExceptionEnum, KdiFareEnum, KdiParkingStopEnum, KdiSupportedEnum,
    KdiTransportEnum,
};
use crate::kdi::error::AlignError;
use crate::kdi::gtfs::{
    Gtfs, GtfsAgency, GtfsCalendar, GtfsCalendarDate, GtfsRoute, GtfsStop, GtfsStopTime, GtfsTrip,
};
use crate::kdi::json::BikeSharing;
use crate::kdi::kml::{field_value, Kml, Placemark};
use crate::kdi::structs::{
    default_zone, kdi_fare_rule_default, KdiAgency, KdiAgencyView, KdiBikeSharingStop,
    KdiBikeSharingStopView, KdiCalendar, KdiCalendarException, KdiCalendarExceptionView,
    KdiCalendarView, KdiFare, KdiFareRule, KdiFareRuleRow, KdiFareRuleView, KdiFareView,
    KdiLocation, KdiLocationView, KdiParkingStop, KdiParkingStopView, KdiPublicTransportStop,
    KdiPublicTransportStopView, KdiRoute, KdiRouteView, KdiStopTime, KdiStopTimeView, KdiTrip,
    KdiTripView, KdiZone,
};
use crate::kdi::text::{
    decimal, decimal_text, is_number, is_number_text, parse_nat, parse_usize, split, split_text,
};
use crate::kdi::time::{
    date_text, format_date, format_service_time, service_day, service_time_text, valid_date,
};
use vstd::prelude::*;

verus! {

/// The tier of a source network.
#[derive(Clone, Copy, Debug, PartialEq, Eq, Structural)]
pub enum TT {
    Urban,
    ExtraUrban,
}

impl TT {
    /// The short code of the tier.
    pub open spec fn code(self) -> Seq<char> {
        match self {
            TT::Urban => seq!['U'],
            TT::ExtraUrban => seq!['E', 'U'],
        }
    }

    /// The short code of the tier: `U` or `EU`.
    pub fn to_text(&self) -> (r: String)
        ensures
            r@ == self.code(),
    {
        match self {
            TT::Urban => {
                proof {
                    reveal_strlit("U");
                }
                assert("U"@ =~= seq!['U']);
                String::from_str("U")
            },
            TT::ExtraUrban => {
                proof {
                    reveal_strlit("EU");
                }
                assert("EU"@ =~= seq!['E', 'U']);
                String::from_str("EU")
            },
        }
    }
}

/// The canonical identifier of a raw identifier of a tier: the tier's code,
/// `_`, and the raw identifier.
pub open spec fn namespace(tt: TT, id: Seq<char>) -> Seq<char> {
    tt.code() + seq!['_'] + id
}

/// The identifier of the location of a fare zone.
pub open spec fn zone_id(tt: TT, id: Seq<char>) -> Seq<char> {
    "ZONE_"@ + namespace(tt, id)
}

/// Canonical identifiers of different tiers differ, whatever the raw
/// identifiers, and within a tier they differ as the raw identifiers do: two
/// canonical identifiers are the same only for the same tier and the same
/// raw identifier.
pub proof fn lemma_namespace_injective(t1: TT, id1: Seq<char>, t2: TT, id2: Seq<char>)
    requires
        namespace(t1, id1) == namespace(t2, id2),
    ensures
        t1 == t2,
        id1 == id2,
{
    let a = namespace(t1, id1);
    let b = namespace(t2, id2);
    assert(a[0] == b[0]);
    assert(t1 == t2);
    let n = t1.code().len() + 1;
    assert(id1 =~= a.skip(n as int));
    assert(id2 =~= b.skip(n as int));
}

/// The canonical identifier of a raw identifier of one tier is never that of
/// the same raw identifier of the other tier.
pub proof fn lemma_namespace_separates_tiers(id: Seq<char>)
    ensures
        namespace(TT::Urban, id) != namespace(TT::ExtraUrban, id),
{
    if namespace(TT::Urban, id) == namespace(TT::ExtraUrban, id) {
        lemma_namespace_injective(TT::Urban, id, TT::ExtraUrban, id);
    }
}

/// Prefixes a raw identifier with the short code of its tier.
pub fn to_correct_id(tt: &TT, id: &str) -> (r: String)
    ensures
        r@ == namespace(*tt, id@),
{
    let mut r = tt.to_text();
    proof {
        reveal_strlit("_");
    }
    assert("_"@ =~= seq!['_']);
    r.append("_");
    r.append(id);
    r
}

/// Prefixes the canonical identifier of a raw zone with the mark of zones.
pub fn to_zone_id(tt: &TT, id: &str) -> (r: String)
    ensures
        r@ == zone_id(*tt, id@),
{
    let mut r = String::from_str("ZONE_");
    let id = to_correct_id(tt, id);
    r.append(id.as_str());
    r
}

/// A text in front of another.
fn prefixed(prefix: &str, rest: &str) -> (r: String)
    ensures
        r@ == prefix@ + rest@,
{
    let mut r = String::from_str(prefix);
    r.append(rest);
    r
}

/// Whether every text of a sequence is a number literal.
pub open spec fn all_numbers(parts: Seq<Seq<char>>) -> bool {
    forall|i: int| 0 <= i < parts.len() ==> is_number(#[trigger] parts[i])
}

/// The latitude and the longitude, in that order, that a coordinate text
/// holds. The text gives the longitude first, then a comma, then the
/// latitude. A component that is no number is malformed, and so is a text
/// with any other count of components than two.
pub open spec fn coordinates_of(text: Seq<char>) -> Result<(Seq<char>, Seq<char>), AlignError> {
    let parts = split(text, ',');
    if !all_numbers(parts) {
        Err(AlignError::MalformedNumber)
    } else if parts.len() != 2 {
        Err(AlignError::CoordinateArity)
    } else {
        Ok((parts[1], parts[0]))
    }
}

/// Reads the latitude and the longitude, in that order, from a coordinate
/// text that gives the longitude first.
pub fn parse_coordinates(text: &str) -> (r: Result<(String, String), AlignError>)
    ensures
        match coordinates_of(text@) {
            Ok(v) => r is Ok && r->Ok_0.0@ == v.0 && r->Ok_0.1@ == v.1,
            Err(e) => r == Err::<(String, String), AlignError>(e),
        },
{
    let mut parts = split_text(text, ',');
    let ghost views = parts.deep_view();
    let mut i: usize = 0;
    while i < parts.len()
        invariant
            0 <= i <= parts.len(),
            views == parts.deep_view(),
            views == split(text@, ','),
            forall|j: int| 0 <= j < i ==> is_number(#[trigger] views[j]),
        decreases parts.len() - i,
    {
        assert(views[i as int] == parts@[i as int]@);
        if !is_number_text(parts[i].as_str()) {
            return Err(AlignError::MalformedNumber);
        }
        i = i + 1;
    }
    if parts.len() != 2 {
        return Err(AlignError::CoordinateArity);
    }
    assert(views[1] == parts@[1]@ && views[0] == parts@[0]@);
    let latitude = parts.pop().unwrap();
    let longitude = parts.pop().unwrap();
    Ok((latitude, longitude))
}

/// The count that a text of slots holds. A text that is no unsigned decimal
/// numeral, or whose number does not fit, is malformed.
pub open spec fn slots_of(text: Seq<char>) -> Result<usize, AlignError> {
    match parse_nat(text) {
        Some(n) => if n <= usize::MAX {
            Ok(n as usize)
        } else {
            Err(AlignError::MalformedNumber)
        },
        None => Err(AlignError::MalformedNumber),
    }
}

/// Reads a count of slots.
pub fn parse_slots(text: &str) -> (r: Result<usize, AlignError>)
    ensures
        r == slots_of(text@),
{
    match parse_usize(text) {
        Some(n) => Ok(n),
        None => Err(AlignError::MalformedNumber),
    }
}

/// A family of points of interest. Each has a feed of its own, in which its
/// points have no identifier but their position.
#[derive(Clone, Copy, Debug, PartialEq, Eq, Structural)]
pub enum PoiFamily {
    CarSharing,
    CentroInBici,
    ParcheggioProtettoBiciclette,
    Taxi,
}

impl PoiFamily {
    /// The mark with which the identifiers of the family begin.
    pub open spec fn mark(self) -> Seq<char> {
        match self {
            PoiFamily::CarSharing => "CS_"@,
            PoiFamily::CentroInBici => "CIB_"@,
            PoiFamily::ParcheggioProtettoBiciclette => "PPB_"@,
            PoiFamily::Taxi => "TX_"@,
        }
    }

    /// The field that names a point of the family.
    pub open spec fn name_field(self) -> Seq<char> {
        match self {
            PoiFamily::CarSharing => "nomepos"@,
            PoiFamily::CentroInBici => "desc"@,
            PoiFamily::ParcheggioProtettoBiciclette => "park"@,
            PoiFamily::Taxi => "nome"@,
        }
    }

    /// The field that holds the address of a point of the family.
    pub open spec fn address_field(self) -> Seq<char> {
        match self {
            PoiFamily::CarSharing => "via"@,
            PoiFamily::CentroInBici => "desc"@,
            PoiFamily::ParcheggioProtettoBiciclette => "via"@,
            PoiFamily::Taxi => "indirizzo"@,
        }
    }

    /// The field that counts the slots of a point of the family, where the
    /// family has one. A taxi stand has none, and one slot.
    pub open spec fn slots_field(self) -> Option<Seq<char>> {
        match self {
            PoiFamily::CarSharing => Some("auto"@),
            PoiFamily::CentroInBici => Some("cicloposteggi"@),
            PoiFamily::ParcheggioProtettoBiciclette => Some("posti"@),
            PoiFamily::Taxi => None,
        }
    }

    /// The kind of parking stop that a point of the family is.
    pub open spec fn stop_type(self) -> KdiParkingStopEnum {
        match self {
            PoiFamily::CarSharing => KdiParkingStopEnum::CarSharing,
            PoiFamily::CentroInBici => KdiParkingStopEnum::BikeSharing,
            PoiFamily::ParcheggioProtettoBiciclette => KdiParkingStopEnum::BikeParking,
            PoiFamily::Taxi => KdiParkingStopEnum::Taxi,
        }
    }

    /// The mark of the family.
    fn mark_text(&self) -> (r: &'static str)
        ensures
            r@ == self.mark(),
    {
        match self {
            PoiFamily::CarSharing => "CS_",
            PoiFamily::CentroInBici => "CIB_",
            PoiFamily::ParcheggioProtettoBiciclette => "PPB_",
            PoiFamily::Taxi => "TX_",
        }
    }

    /// The name of the field that names a point.
    fn name_field_text(&self) -> (r: &'static str)
        ensures
            r@ == self.name_field(),
    {
        match self {
            PoiFamily::CarSharing => "nomepos",
            PoiFamily::CentroInBici => "desc",
            PoiFamily::ParcheggioProtettoBiciclette => "park",
            PoiFamily::Taxi => "nome",
        }
    }

    /// The name of the field that holds the address.
    fn address_field_text(&self) -> (r: &'static str)
        ensures
            r@ == self.address_field(),
    {
        match self {
            PoiFamily::CarSharing => "via",
            PoiFamily::CentroInBici => "desc",
            PoiFamily::ParcheggioProtettoBiciclette => "via",
            PoiFamily::Taxi => "indirizzo",
        }
    }

    /// The name of the field that counts the slots, if there is one.
    fn slots_field_text(&self) -> (r: Option<&'static str>)
        ensures
            r.deep_view() == self.slots_field(),
    {
        match self {
            PoiFamily::CarSharing => Some("auto"),
            PoiFamily::CentroInBici => Some("cicloposteggi"),
            PoiFamily::ParcheggioProtettoBiciclette => Some("posti"),
            PoiFamily::Taxi => None,
        }
    }

    /// The kind of parking stop of the family.
    fn stop_type_of(&self) -> (r: KdiParkingStopEnum)
        ensures
            r == self.stop_type(),
    {
        match self {
            PoiFamily::CarSharing => KdiParkingStopEnum::CarSharing,
            PoiFamily::CentroInBici => KdiParkingStopEnum::BikeSharing,
            PoiFamily::ParcheggioProtettoBiciclette => KdiParkingStopEnum::BikeParking,
            PoiFamily::Taxi => KdiParkingStopEnum::Taxi,
        }
    }
}

/// The location of a fare zone. Coordinates that are no numbers are
/// malformed.
pub open spec fn zone_location_of(tt: TT, zone: KdiZone) -> Result<KdiLocationView, AlignError> {
    if is_number(zone.latitude@) && is_number(zone.longitude@) {
        Ok(
            KdiLocationView {
                id: zone_id(tt, zone.id@),
                name: zone.name@,
                latitude: zone.latitude@,
                longitude: zone.longitude@,
            },
        )
    } else {
        Err(AlignError::MalformedNumber)
    }
}

/// Builds the locations of the fare zones of a tier.
pub struct ZoneLocationBuilder {
    pub tt: TT,
}

impl Builder for ZoneLocationBuilder {
    type Source = KdiZone;

    type Target = KdiLocation;

    open spec fn makes(&self, i: int, source: KdiZone) -> Result<KdiLocationView, AlignError> {
        zone_location_of(self.tt, source)
    }

    fn make(&self, i: usize, source: &KdiZone) -> (r: Result<KdiLocation, AlignError>) {
        if !is_number_text(source.latitude.as_str()) || !is_number_text(
            source.longitude.as_str(),
        ) {
            return Err(AlignError::MalformedNumber);
        }
        let made = KdiLocation {
            id: to_zone_id(&self.tt, source.id.as_str()),
            name: source.name.clone(),
            latitude: source.latitude.clone(),
            longitude: source.longitude.clone(),
        };
        assert(made.deep_view() == zone_location_of(self.tt, *source)->Ok_0);
        Ok(made)
    }
}

/// The locations of the fare zones of a tier.
pub open spec fn zone_locations_of(tt: TT, zones: Seq<KdiZone>) -> Result<
    Seq<KdiLocationView>,
    AlignError,
> {
    built_by(ZoneLocationBuilder { tt }, zones)
}

/// Adds the fare zones of a tier to the merged locations.
pub fn align_location_zone(
    zones: &[KdiZone],
    locations: &mut Vec<KdiLocation>,
    tt: TT,
) -> (r: Result<(), AlignError>)
    ensures
        aligned::<KdiLocation>(
            old(locations).deep_view(),
            final(locations).deep_view(),
            zone_locations_of(tt, zones@),
            r,
        ),
{
    align(&ZoneLocationBuilder { tt }, zones, locations)
}

/// The location of a stop of a feed. A stop without coordinates is
/// malformed, and so are coordinates that are no numbers.
pub open spec fn stop_location_of(tt: TT, stop: GtfsStop) -> Result<KdiLocationView, AlignError> {
    match stop.latitude {
        None => Err(AlignError::MissingField),
        Some(latitude) => match stop.longitude {
            None => Err(AlignError::MissingField),
            Some(longitude) => if is_number(latitude@) && is_number(longitude@) {
                Ok(
                    KdiLocationView {
                        id: namespace(tt, stop.id@),
                        name: stop.name@,
                        latitude: latitude@,
                        longitude: longitude@,
                    },
                )
            } else {
                Err(AlignError::MalformedNumber)
            },
        },
    }
}

/// Builds the locations of the stops of a feed.
pub struct StopLocationBuilder {
    pub tt: TT,
}

impl Builder for StopLocationBuilder {
    type Source = GtfsStop;

    type Target = KdiLocation;

    open spec fn makes(&self, i: int, source: GtfsStop) -> Result<KdiLocationView, AlignError> {
        stop_location_of(self.tt, source)
    }

    fn make(&self, i: usize, source: &GtfsStop) -> (r: Result<KdiLocation, AlignError>) {
        let latitude = match &source.latitude {
            None => {
                return Err(AlignError::MissingField);
            },
            Some(latitude) => latitude,
        };
        let longitude = match &source.longitude {
            None => {
                return Err(AlignError::MissingField);
            },
            Some(longitude) => longitude,
        };
        if !is_number_text(latitude.as_str()) || !is_number_text(longitude.as_str()) {
            return Err(AlignError::MalformedNumber);
        }
        let made = KdiLocation {
            id: to_correct_id(&self.tt, source.id.as_str()),
            name: source.name.clone(),
            latitude: latitude.clone(),
            longitude: longitude.clone(),
        };
        assert(made.deep_view() == stop_location_of(self.tt, *source)->Ok_0);
        Ok(made)
    }
}

/// The locations of the stops of a feed.
pub open spec fn stop_locations_of(tt: TT, stops: Seq<GtfsStop>) -> Result<
    Seq<KdiLocationView>,
    AlignError,
> {
    built_by(StopLocationBuilder { tt }, stops)
}

/// Adds the stops of a feed to the merged locations.
pub fn align_location_public_transport_stop(gtfs: &Gtfs,
    locations: &mut Vec<KdiLocation>,
    tt: TT,
) -> (r: Result<(), AlignError>)
    ensures
        aligned::<KdiLocation>(
            old(locations).deep_view(),
            final(locations).deep_view(),
            stop_locations_of(tt, gtfs.stops@),
            r,
        ),
{
    align(&StopLocationBuilder { tt }, gtfs.stops.as_slice(), locations)
}

/// The location of a point of interest: its identifier is the mark of its
/// family and its position in the feed, its name the value of the field
/// that names points of that family. A placemark without that field is
/// malformed.
pub open spec fn poi_location_of(family: PoiFamily, i: int, placemark: Placemark) -> Result<
    KdiLocationView,
    AlignError,
> {
    match coordinates_of(placemark.point.coordinates@) {
        Err(e) => Err(e),
        Ok(position) => match field_value(placemark.datas(), family.name_field()) {
            None => Err(AlignError::MissingField),
            Some(name) => Ok(
                KdiLocationView {
                    id: family.mark() + decimal(i as nat),
                    name,
                    latitude: position.0,
                    longitude: position.1,
                },
            ),
        },
    }
}

/// Builds the locations of the points of interest of one family.
pub struct PoiLocationBuilder {
    pub family: PoiFamily,
}

impl Builder for PoiLocationBuilder {
    type Source = Placemark;

    type Target = KdiLocation;

    open spec fn makes(&self, i: int, source: Placemark) -> Result<KdiLocationView, AlignError> {
        poi_location_of(self.family, i, source)
    }

    fn make(&self, i: usize, source: &Placemark) -> (r: Result<KdiLocation, AlignError>) {
        let position = match parse_coordinates(source.point.coordinates.as_str()) {
            Err(e) => {
                return Err(e);
            },
            Ok(position) => position,
        };
        let name = match source.required_field(self.family.name_field_text()) {
            Err(e) => {
                return Err(e);
            },
            Ok(name) => name,
        };
        let number = decimal_text(i);
        let made = KdiLocation {
            id: prefixed(self.family.mark_text(), number.as_str()),
            name: String::from_str(name),
            latitude: position.0,
            longitude: position.1,
        };
        assert(made.deep_view() == poi_location_of(self.family, i as int, *source)->Ok_0);
        Ok(made)
    }
}

/// The locations of the points of interest of one family.
pub open spec fn poi_locations_of(family: PoiFamily, placemarks: Seq<Placemark>) -> Result<
    Seq<KdiLocationView>,
    AlignError,
> {
    built_by(PoiLocationBuilder { family }, placemarks)
}

/// Adds the car-sharing points of a feed to the merged locations.
pub fn align_location_car_sharing(
    car_sharing: &Kml,
    locations: &mut Vec<KdiLocation>,
) -> (r: Result<(), AlignError>)
    ensures
        aligned::<KdiLocation>(
            old(locations).deep_view(),
            final(locations).deep_view(),
            poi_locations_of(
                PoiFamily::CarSharing,
                car_sharing.document.folder.placemarks@,
            ),
            r,
        ),
{
    align(
        &PoiLocationBuilder { family: PoiFamily::CarSharing },
        car_sharing.document.folder.placemarks.as_slice(),
        locations,
    )
}

/// Adds the bike-sharing points of a feed to the merged locations.
pub fn align_location_centro_in_bici(
    centro_in_bici: &Kml,
    locations: &mut Vec<KdiLocation>,
) -> (r: Result<(), AlignError>)
    ensures
        aligned::<KdiLocation>(
            old(locations).deep_view(),
            final(locations).deep_view(),
            poi_locations_of(
                PoiFamily::CentroInBici,
                centro_in_bici.document.folder.placemarks@,
            ),
            r,
        ),
{
    align(
        &PoiLocationBuilder { family: PoiFamily::CentroInBici },
        centro_in_bici.document.folder.placemarks.as_slice(),
        locations,
    )
}

/// Adds the protected bike parks of a feed to the merged locations.
pub fn align_location_parcheggio_protetto_biciclette(
    parcheggio_protetto_biciclette: &Kml,
    locations: &mut Vec<KdiLocation>,
) -> (r: Result<(), AlignError>)
    ensures
        aligned::<KdiLocation>(
            old(locations).deep_view(),
            final(locations).deep_view(),
            poi_locations_of(
                PoiFamily::ParcheggioProtettoBiciclette,
                parcheggio_protetto_biciclette.document.folder.placemarks@,
            ),
            r,
        ),
{
    align(
        &PoiLocationBuilder { family: PoiFamily::ParcheggioProtettoBiciclette },
        parcheggio_protetto_biciclette.document.folder.placemarks.as_slice(),
        locations,
    )
}

/// Adds the taxi stands of a feed to the merged locations.
pub fn align_location_taxi(
    taxi: &Kml,
    locations: &mut Vec<KdiLocation>,
) -> (r: Result<(), AlignError>)
    ensures
        aligned::<KdiLocation>(
            old(locations).deep_view(),
            final(locations).deep_view(),
            poi_locations_of(
                PoiFamily::Taxi,
                taxi.document.folder.placemarks@,
            ),
            r,
        ),
{
    align(
        &PoiLocationBuilder { family: PoiFamily::Taxi },
        taxi.document.folder.placemarks.as_slice(),
        locations,
    )
}

/// The location of a bike-sharing station: its position holds the latitude,
/// then the longitude, and nothing more.
pub open spec fn bike_sharing_location_of(station: BikeSharing) -> Result<
    KdiLocationView,
    AlignError,
> {
    if station.position@.len() != 2 {
        Err(AlignError::CoordinateArity)
    } else if !is_number(station.position@[0]@) || !is_number(station.position@[1]@) {
        Err(AlignError::MalformedNumber)
    } else {
        Ok(
            KdiLocationView {
                id: "BS_"@ + station.id@,
                name: station.name@,
                latitude: station.position@[0]@,
                longitude: station.position@[1]@,
            },
        )
    }
}

/// Builds the locations of the stations of a bike-sharing feed.
pub struct BikeSharingLocationBuilder;

impl Builder for BikeSharingLocationBuilder {
    type Source = BikeSharing;

    type Target = KdiLocation;

    open spec fn makes(&self, i: int, source: BikeSharing) -> Result<KdiLocationView, AlignError> {
        bike_sharing_location_of(source)
    }

    fn make(&self, i: usize, source: &BikeSharing) -> (r: Result<KdiLocation, AlignError>) {
        if source.position.len() != 2 {
            return Err(AlignError::CoordinateArity);
        }
        if !is_number_text(source.position[0].as_str()) || !is_number_text(
            source.position[1].as_str(),
        ) {
            return Err(AlignError::MalformedNumber);
        }
        let made = KdiLocation {
            id: prefixed("BS_", source.id.as_str()),
            name: source.name.clone(),
            latitude: source.position[0].clone(),
            longitude: source.position[1].clone(),
        };
        assert(made.deep_view() == bike_sharing_location_of(*source)->Ok_0);
        Ok(made)
    }
}

/// The locations of the stations of a bike-sharing feed.
pub open spec fn bike_sharing_locations_of(stations: Seq<BikeSharing>) -> Result<
    Seq<KdiLocationView>,
    AlignError,
> {
    built_by(BikeSharingLocationBuilder, stations)
}

/// Adds the stations of a bike-sharing feed to the merged locations.
pub fn align_location_bike_sharing(
    bike_sharing: &[BikeSharing],
    locations: &mut Vec<KdiLocation>,
) -> (r: Result<(), AlignError>)
    ensures
        aligned::<KdiLocation>(
            old(locations).deep_view(),
            final(locations).deep_view(),
            bike_sharing_locations_of(bike_sharing@),
            r,
        ),
{
    align(&BikeSharingLocationBuilder, bike_sharing, locations)
}

/// The calendar exception of the model for a calendar date of a feed. A
/// date that does not exist is refused.
pub open spec fn calendar_exception_of(tt: TT, date: GtfsCalendarDate) -> Result<
    KdiCalendarExceptionView,
    AlignError,
> {
    if valid_date(date.date) {
        Ok(
            KdiCalendarExceptionView {
                calendar: namespace(tt, date.service_id@),
                date: date_text(date.date),
                exception: KdiExceptionEnum::of_exception(date.exception_type),
            },
        )
    } else {
        Err(AlignError::InvalidDate)
    }
}

/// Builds the calendar exceptions of a feed.
pub struct CalendarExceptionBuilder {
    pub tt: TT,
}

impl Builder for CalendarExceptionBuilder {
    type Source = GtfsCalendarDate;

    type Target = KdiCalendarException;

    open spec fn makes(
        &self,
        i: int,
        source: GtfsCalendarDate,
    ) -> Result<KdiCalendarExceptionView, AlignError> {
        calendar_exception_of(self.tt, source)
    }

    fn make(
        &self,
        i: usize,
        source: &GtfsCalendarDate,
    ) -> (r: Result<KdiCalendarException, AlignError>) {
        let text = match format_date(&source.date) {
            Err(e) => {
                return Err(e);
            },
            Ok(text) => text,
        };
        let made = KdiCalendarException {
            calendar: to_correct_id(&self.tt, source.service_id.as_str()),
            date: text,
            exception: KdiExceptionEnum::from_exception(source.exception_type),
        };
        assert(made.deep_view() == calendar_exception_of(self.tt, *source)->Ok_0);
        Ok(made)
    }
}

/// The calendar exceptions of the model for the calendar dates of a feed.
pub open spec fn calendar_exceptions_of(tt: TT, dates: Seq<GtfsCalendarDate>) -> Result<
    Seq<KdiCalendarExceptionView>,
    AlignError,
> {
    built_by(CalendarExceptionBuilder { tt }, dates)
}

/// Adds the calendar dates of a feed to the merged calendar exceptions.
pub fn align_calendar_exception(
    gtfs: &Gtfs,
    calendar_exceptions: &mut Vec<KdiCalendarException>,
    tt: TT,
) -> (r: Result<(), AlignError>)
    ensures
        aligned::<KdiCalendarException>(
            old(calendar_exceptions).deep_view(),
            final(calendar_exceptions).deep_view(),
            calendar_exceptions_of(tt, gtfs.calendar_dates@),
            r,
        ),
{
    align(&CalendarExceptionBuilder { tt }, gtfs.calendar_dates.as_slice(), calendar_exceptions)
}

/// The calendar of the model for a calendar of a feed. A date that does not
/// exist is refused.
pub open spec fn calendar_of(tt: TT, calendar: GtfsCalendar) -> Result<
    KdiCalendarView,
    AlignError,
> {
    if valid_date(calendar.start_date) && valid_date(calendar.end_date) {
        Ok(
            KdiCalendarView {
                id: namespace(tt, calendar.id@),
                start_date: date_text(calendar.start_date),
                end_date: date_text(calendar.end_date),
                monday: calendar.monday,
                tuesday: calendar.tuesday,
                wednesday: calendar.wednesday,
                thursday: calendar.thursday,
                friday: calendar.friday,
                saturday: calendar.saturday,
                sunday: calendar.sunday,
            },
        )
    } else {
        Err(AlignError::InvalidDate)
    }
}

/// Builds the calendars of a feed.
pub struct CalendarBuilder {
    pub tt: TT,
}

impl Builder for CalendarBuilder {
    type Source = GtfsCalendar;

    type Target = KdiCalendar;

    open spec fn makes(&self, i: int, source: GtfsCalendar) -> Result<KdiCalendarView, AlignError> {
        calendar_of(self.tt, source)
    }

    fn make(&self, i: usize, source: &GtfsCalendar) -> (r: Result<KdiCalendar, AlignError>) {
        let start_date = match format_date(&source.start_date) {
            Err(e) => {
                return Err(e);
            },
            Ok(text) => text,
        };
        let end_date = match format_date(&source.end_date) {
            Err(e) => {
                return Err(e);
            },
            Ok(text) => text,
        };
        let made = KdiCalendar {
            id: to_correct_id(&self.tt, source.id.as_str()),
            start_date,
            end_date,
            monday: source.monday,
            tuesday: source.tuesday,
            wednesday: source.wednesday,
            thursday: source.thursday,
            friday: source.friday,
            saturday: source.saturday,
            sunday: source.sunday,
        };
        assert(made.deep_view() == calendar_of(self.tt, *source)->Ok_0);
        Ok(made)
    }
}

/// The calendars of the model for the calendars of a feed.
pub open spec fn calendars_of(tt: TT, calendars: Seq<GtfsCalendar>) -> Result<
    Seq<KdiCalendarView>,
    AlignError,
> {
    built_by(CalendarBuilder { tt }, calendars)
}

/// Adds the calendars of a feed to the merged calendars.
pub fn align_calendar(
    gtfs: &Gtfs,
    calendars: &mut Vec<KdiCalendar>,
    tt: TT,
) -> (r: Result<(), AlignError>)
    ensures
        aligned::<KdiCalendar>(
            old(calendars).deep_view(),
            final(calendars).deep_view(),
            calendars_of(tt, gtfs.calendar@),
            r,
        ),
{
    align(&CalendarBuilder { tt }, gtfs.calendar.as_slice(), calendars)
}

/// The raw zone that a fare-rule row refers to: the zone it names, or the
/// default zone where it names none.
pub open spec fn zone_or_default(zone: Option<String>) -> Seq<char> {
    match zone {
        Some(z) => z@,
        None => default_zone(),
    }
}

/// The fare rule of the model for a row of a fare-rule table. A zone that
/// the row does not name is the default zone, and is then made a zone of the
/// tier like any other.
pub open spec fn fare_rule_of(tt: TT, row: KdiFareRuleRow) -> Result<
    KdiFareRuleView,
    AlignError,
> {
    Ok(
        KdiFareRuleView {
            fare: namespace(tt, row.fare@),
            origin: zone_id(tt, zone_or_default(row.origin)),
            destination: zone_id(tt, zone_or_default(row.destination)),
        },
    )
}

/// The identifier of the zone location that a fare-rule row refers to.
fn zone_of_row(tt: TT, zone: &Option<String>) -> (r: String)
    ensures
        r@ == zone_id(tt, zone_or_default(*zone)),
{
    match zone {
        Some(z) => to_zone_id(&tt, z.as_str()),
        None => {
            let z = kdi_fare_rule_default();
            to_zone_id(&tt, z.as_str())
        },
    }
}

/// Builds the fare rules of a fare-rule table of a tier.
pub struct FareRuleBuilder {
    pub tt: TT,
}

impl Builder for FareRuleBuilder {
    type Source = KdiFareRuleRow;

    type Target = KdiFareRule;

    open spec fn makes(
        &self,
        i: int,
        source: KdiFareRuleRow,
    ) -> Result<KdiFareRuleView, AlignError> {
        fare_rule_of(self.tt, source)
    }

    fn make(&self, i: usize, source: &KdiFareRuleRow) -> (r: Result<KdiFareRule, AlignError>) {
        let made = KdiFareRule {
            fare: to_correct_id(&self.tt, source.fare.as_str()),
            origin: zone_of_row(self.tt, &source.origin),
            destination: zone_of_row(self.tt, &source.destination),
        };
        assert(made.deep_view() == fare_rule_of(self.tt, *source)->Ok_0);
        Ok(made)
    }
}

/// What is built of three tables, one after the other: the records of all
/// three, or the first fault.
pub open spec fn three_tables<V>(
    cash: Result<Seq<V>, AlignError>,
    card: Result<Seq<V>, AlignError>,
    mobile: Result<Seq<V>, AlignError>,
) -> Result<Seq<V>, AlignError> {
    match cash {
        Err(e) => Err(e),
        Ok(a) => match card {
            Err(e) => Err(e),
            Ok(b) => match mobile {
                Err(e) => Err(e),
                Ok(c) => Ok(a + b + c),
            },
        },
    }
}

/// The fare rules of the model for the three fare-rule tables of a tier:
/// those of the cash table, of the card table and of the mobile table.
pub open spec fn fare_rules_of(
    tt: TT,
    cash: Seq<KdiFareRuleRow>,
    card: Seq<KdiFareRuleRow>,
    mobile: Seq<KdiFareRuleRow>,
) -> Result<Seq<KdiFareRuleView>, AlignError> {
    three_tables(
        built_by(FareRuleBuilder { tt }, cash),
        built_by(FareRuleBuilder { tt }, card),
        built_by(FareRuleBuilder { tt }, mobile),
    )
}

/// Adds the rows of the three fare-rule tables of a tier to the merged fare
/// rules.
pub fn align_fare_rule(
    cash: &[KdiFareRuleRow],
    card: &[KdiFareRuleRow],
    mobile: &[KdiFareRuleRow],
    fare_rules: &mut Vec<KdiFareRule>,
    tt: TT,
) -> (r: Result<(), AlignError>)
    ensures
        aligned::<KdiFareRule>(
            old(fare_rules).deep_view(),
            final(fare_rules).deep_view(),
            fare_rules_of(tt, cash@, card@, mobile@),
            r,
        ),
{
    let mut built: Vec<KdiFareRule> = Vec::new();
    assert(built.deep_view() =~= Seq::<KdiFareRuleView>::empty());
    match collect(&FareRuleBuilder { tt }, cash, &mut built) {
        Err(e) => {
            return Err(e);
        },
        Ok(()) => {},
    }
    match collect(&FareRuleBuilder { tt }, card, &mut built) {
        Err(e) => {
            return Err(e);
        },
        Ok(()) => {},
    }
    match collect(&FareRuleBuilder { tt }, mobile, &mut built) {
        Err(e) => {
            return Err(e);
        },
        Ok(()) => {},
    }
    commit(fare_rules, built);
    Ok(())
}

/// The count of slots of a point of interest of a family: what the slots
/// field of the family holds, or one where the family has no such field. A
/// placemark without the field is malformed, and so is a count that is no
/// number.
pub open spec fn poi_slots_of(family: PoiFamily, placemark: Placemark) -> Result<
    usize,
    AlignError,
> {
    match family.slots_field() {
        None => Ok(1usize),
        Some(field) => match field_value(placemark.datas(), field) {
            None => Err(AlignError::MissingField),
            Some(text) => slots_of(text),
        },
    }
}

/// The parking stop of a point of interest: it stands at the location of
/// the same family and position, and its address is the value of the
/// family's address field. A placemark without that field is malformed.
pub open spec fn poi_parking_stop_of(family: PoiFamily, i: int, placemark: Placemark) -> Result<
    KdiParkingStopView,
    AlignError,
> {
    match field_value(placemark.datas(), family.address_field()) {
        None => Err(AlignError::MissingField),
        Some(address) => match poi_slots_of(family, placemark) {
            Err(e) => Err(e),
            Ok(total_slots) => Ok(
                KdiParkingStopView {
                    location: family.mark() + decimal(i as nat),
                    ptype: family.stop_type(),
                    address,
                    total_slots,
                },
            ),
        },
    }
}

/// Builds the parking stops of the points of interest of one family.
pub struct ParkingStopBuilder {
    pub family: PoiFamily,
}

impl Builder for ParkingStopBuilder {
    type Source = Placemark;

    type Target = KdiParkingStop;

    open spec fn makes(&self, i: int, source: Placemark) -> Result<KdiParkingStopView, AlignError> {
        poi_parking_stop_of(self.family, i, source)
    }

    fn make(&self, i: usize, source: &Placemark) -> (r: Result<KdiParkingStop, AlignError>) {
        let address = match source.required_field(self.family.address_field_text()) {
            Err(e) => {
                return Err(e);
            },
            Ok(address) => address,
        };
        let total_slots: usize = match self.family.slots_field_text() {
            None => 1,
            Some(field) => {
                let text = match source.required_field(field) {
                    Err(e) => {
                        return Err(e);
                    },
                    Ok(text) => text,
                };
                match parse_slots(text) {
                    Err(e) => {
                        return Err(e);
                    },
                    Ok(n) => n,
                }
            },
        };
        let number = decimal_text(i);
        let made = KdiParkingStop {
            location: prefixed(self.family.mark_text(), number.as_str()),
            ptype: self.family.stop_type_of(),
            address: String::from_str(address),
            total_slots,
        };
        assert(made.deep_view() == poi_parking_stop_of(self.family, i as int, *source)->Ok_0);
        Ok(made)
    }
}

/// The parking stops of the points of interest of one family.
pub open spec fn poi_parking_stops_of(family: PoiFamily, placemarks: Seq<Placemark>) -> Result<
    Seq<KdiParkingStopView>,
    AlignError,
> {
    built_by(ParkingStopBuilder { family }, placemarks)
}

/// Adds the car-sharing points of a feed to the merged parking stops.
pub fn align_parking_stop_car_sharing(
    car_sharing: &Kml,
    parking_stops: &mut Vec<KdiParkingStop>,
) -> (r: Result<(), AlignError>)
    ensures
        aligned::<KdiParkingStop>(
            old(parking_stops).deep_view(),
            final(parking_stops).deep_view(),
            poi_parking_stops_of(
                PoiFamily::CarSharing,
                car_sharing.document.folder.placemarks@,
            ),
            r,
        ),
{
    align(
        &ParkingStopBuilder { family: PoiFamily::CarSharing },
        car_sharing.document.folder.placemarks.as_slice(),
        parking_stops,
    )
}

/// Adds the bike-sharing points of a feed to the merged parking stops.
pub fn align_parking_stop_centro_in_bici(
    centro_in_bici: &Kml,
    parking_stops: &mut Vec<KdiParkingStop>,
) -> (r: Result<(), AlignError>)
    ensures
        aligned::<KdiParkingStop>(
            old(parking_stops).deep_view(),
            final(parking_stops).deep_view(),
            poi_parking_stops_of(
                PoiFamily::CentroInBici,
                centro_in_bici.document.folder.placemarks@,
            ),
            r,
        ),
{
    align(
        &ParkingStopBuilder { family: PoiFamily::CentroInBici },
        centro_in_bici.document.folder.placemarks.as_slice(),
        parking_stops,
    )
}

/// Adds the protected bike parks of a feed to the merged parking stops.
pub fn align_parking_stop_parcheggio_protetto_biciclette(
    parcheggio_protetto_biciclette: &Kml,
    parking_stops: &mut Vec<KdiParkingStop>,
) -> (r: Result<(), AlignError>)
    ensures
        aligned::<KdiParkingStop>(
            old(parking_stops).deep_view(),
            final(parking_stops).deep_view(),
            poi_parking_stops_of(
                PoiFamily::ParcheggioProtettoBiciclette,
                parcheggio_protetto_biciclette.document.folder.placemarks@,
            ),
            r,
        ),
{
    align(
        &ParkingStopBuilder { family: PoiFamily::ParcheggioProtettoBiciclette },
        parcheggio_protetto_biciclette.document.folder.placemarks.as_slice(),
        parking_stops,
    )
}

/// Adds the taxi stands of a feed to the merged parking stops. A taxi stand
/// has one slot.
pub fn align_parking_stop_taxi(
    taxi: &Kml,
    parking_stops: &mut Vec<KdiParkingStop>,
) -> (r: Result<(), AlignError>)
    ensures
        aligned::<KdiParkingStop>(
            old(parking_stops).deep_view(),
            final(parking_stops).deep_view(),
            poi_parking_stops_of(
                PoiFamily::Taxi,
                taxi.document.folder.placemarks@,
            ),
            r,
        ),
{
    align(
        &ParkingStopBuilder { family: PoiFamily::Taxi },
        taxi.document.folder.placemarks.as_slice(),
        parking_stops,
    )
}

/// The fare of the model for a row of the fare table of one channel. A
/// price that is no number is malformed.
pub open spec fn fare_of(tt: TT, ftype: KdiFareEnum, fare: KdiFare) -> Result<
    KdiFareView,
    AlignError,
> {
    if is_number(fare.price@) {
        Ok(
            KdiFareView {
                id: namespace(tt, fare.id@),
                price: fare.price@,
                currency: fare.currency,
                ftype,
                payment: fare.payment,
                duration: fare.duration,
            },
        )
    } else {
        Err(AlignError::MalformedNumber)
    }
}

/// Builds the fares of the fare table of one channel of a tier. The rows
/// hold raw identifiers, and the channel they come with is not read.
pub struct FareBuilder {
    pub tt: TT,
    pub ftype: KdiFareEnum,
}

impl Builder for FareBuilder {
    type Source = KdiFare;

    type Target = KdiFare;

    open spec fn makes(&self, i: int, source: KdiFare) -> Result<KdiFareView, AlignError> {
        fare_of(self.tt, self.ftype, source)
    }

    fn make(&self, i: usize, source: &KdiFare) -> (r: Result<KdiFare, AlignError>) {
        if !is_number_text(source.price.as_str()) {
            return Err(AlignError::MalformedNumber);
        }
        let made = KdiFare {
            id: to_correct_id(&self.tt, source.id.as_str()),
            price: source.price.clone(),
            currency: source.currency,
            ftype: self.ftype,
            payment: source.payment,
            duration: source.duration,
        };
        assert(made.deep_view() == fare_of(self.tt, self.ftype, *source)->Ok_0);
        Ok(made)
    }
}

/// The fares of the model for the three fare tables of a tier: each fare
/// once for every table that holds it, with the table's channel.
pub open spec fn fares_of(tt: TT, cash: Seq<KdiFare>, card: Seq<KdiFare>, mobile: Seq<KdiFare>)
    -> Result<Seq<KdiFareView>, AlignError> {
    three_tables(
        built_by(FareBuilder { tt, ftype: KdiFareEnum::Cash }, cash),
        built_by(FareBuilder { tt, ftype: KdiFareEnum::Cartascalare }, card),
        built_by(FareBuilder { tt, ftype: KdiFareEnum::Mobile }, mobile),
    )
}

/// Adds the rows of the three fare tables of a tier to the merged fares.
pub fn align_fare(
    cash: &[KdiFare],
    card: &[KdiFare],
    mobile: &[KdiFare],
    fares: &mut Vec<KdiFare>,
    tt: TT,
) -> (r: Result<(), AlignError>)
    ensures
        aligned::<KdiFare>(
            old(fares).deep_view(),
            final(fares).deep_view(),
            fares_of(tt, cash@, card@, mobile@),
            r,
        ),
{
    let mut built: Vec<KdiFare> = Vec::new();
    assert(built.deep_view() =~= Seq::<KdiFareView>::empty());
    match collect(&FareBuilder { tt, ftype: KdiFareEnum::Cash }, cash, &mut built) {
        Err(e) => {
            return Err(e);
        },
        Ok(()) => {},
    }
    match collect(&FareBuilder { tt, ftype: KdiFareEnum::Cartascalare }, card, &mut built) {
        Err(e) => {
            return Err(e);
        },
        Ok(()) => {},
    }
    match collect(&FareBuilder { tt, ftype: KdiFareEnum::Mobile }, mobile, &mut built) {
        Err(e) => {
            return Err(e);
        },
        Ok(()) => {},
    }
    commit(fares, built);
    Ok(())
}

/// The bike-sharing stop of a station. A station whose position does not
/// hold two components is malformed.
pub open spec fn bike_sharing_stop_of(station: BikeSharing) -> Result<
    KdiBikeSharingStopView,
    AlignError,
> {
    if station.position@.len() != 2 {
        Err(AlignError::CoordinateArity)
    } else {
        Ok(
            KdiBikeSharingStopView {
                location: "BS_"@ + station.id@,
                ptype: KdiParkingStopEnum::BikeSharing,
                address: station.address@,
                total_slots: station.total_slots,
                free_slots: station.slots,
                bikes: station.bikes,
            },
        )
    }
}

/// Builds the bike-sharing stops of the stations of a feed.
pub struct BikeSharingStopBuilder;

impl Builder for BikeSharingStopBuilder {
    type Source = BikeSharing;

    type Target = KdiBikeSharingStop;

    open spec fn makes(
        &self,
        i: int,
        source: BikeSharing,
    ) -> Result<KdiBikeSharingStopView, AlignError> {
        bike_sharing_stop_of(source)
    }

    fn make(&self, i: usize, source: &BikeSharing) -> (r: Result<KdiBikeSharingStop, AlignError>) {
        if source.position.len() != 2 {
            return Err(AlignError::CoordinateArity);
        }
        let made = KdiBikeSharingStop {
            location: prefixed("BS_", source.id.as_str()),
            ptype: KdiParkingStopEnum::BikeSharing,
            address: source.address.clone(),
            total_slots: source.total_slots,
            free_slots: source.slots,
            bikes: source.bikes,
        };
        assert(made.deep_view() == bike_sharing_stop_of(*source)->Ok_0);
        Ok(made)
    }
}

/// The bike-sharing stops of the stations of a feed.
pub open spec fn bike_sharing_stops_of(stations: Seq<BikeSharing>) -> Result<
    Seq<KdiBikeSharingStopView>,
    AlignError,
> {
    built_by(BikeSharingStopBuilder, stations)
}

/// Adds the stations of a bike-sharing feed to the merged bike-sharing stops.
pub fn align_bike_sharing_stop(
    bike_sharing: &[BikeSharing],
    bike_sharing_stops: &mut Vec<KdiBikeSharingStop>,
) -> (r: Result<(), AlignError>)
    ensures
        aligned::<KdiBikeSharingStop>(
            old(bike_sharing_stops).deep_view(),
            final(bike_sharing_stops).deep_view(),
            bike_sharing_stops_of(bike_sharing@),
            r,
        ),
{
    align(&BikeSharingStopBuilder, bike_sharing, bike_sharing_stops)
}

/// The identifier of the zone location of a stop, where the stop has a
/// zone.
pub open spec fn stop_zone_of(tt: TT, zone: Option<String>) -> Option<Seq<char>> {
    match zone {
        Some(z) => Some(zone_id(tt, z@)),
        None => None,
    }
}

/// The public-transport stop of the model for a stop of a feed. The modes
/// that serve the stop are not resolved: the list is left empty.
pub open spec fn public_transport_stop_of(tt: TT, stop: GtfsStop) -> Result<
    KdiPublicTransportStopView,
    AlignError,
> {
    Ok(
        KdiPublicTransportStopView {
            location: namespace(tt, stop.id@),
            zone: stop_zone_of(tt, stop.zone_id),
            ptype: Seq::<KdiTransportEnum>::empty(),
            wheelchair: KdiSupportedEnum::of_availability(stop.wheelchair_boarding),
        },
    )
}

/// Builds the public-transport stops of a feed.
pub struct PublicTransportStopBuilder {
    pub tt: TT,
}

impl Builder for PublicTransportStopBuilder {
    type Source = GtfsStop;

    type Target = KdiPublicTransportStop;

    open spec fn makes(
        &self,
        i: int,
        source: GtfsStop,
    ) -> Result<KdiPublicTransportStopView, AlignError> {
        public_transport_stop_of(self.tt, source)
    }

    fn make(&self, i: usize, source: &GtfsStop) -> (r: Result<KdiPublicTransportStop, AlignError>) {
        let zone = match &source.zone_id {
            Some(z) => Some(to_zone_id(&self.tt, z.as_str())),
            None => None,
        };
        let made = KdiPublicTransportStop {
            location: to_correct_id(&self.tt, source.id.as_str()),
            zone,
            ptype: Vec::new(),
            wheelchair: KdiSupportedEnum::from_availability(source.wheelchair_boarding),
        };
        assert(made.deep_view() == public_transport_stop_of(self.tt, *source)->Ok_0);
        Ok(made)
    }
}

/// The public-transport stops of the model for the stops of a feed.
pub open spec fn public_transport_stops_of(tt: TT, stops: Seq<GtfsStop>) -> Result<
    Seq<KdiPublicTransportStopView>,
    AlignError,
> {
    built_by(PublicTransportStopBuilder { tt }, stops)
}

/// Adds the stops of a feed to the merged public-transport stops.
pub fn align_public_transport_stop(
    gtfs: &Gtfs,
    public_transport_stops: &mut Vec<KdiPublicTransportStop>,
    tt: TT,
) -> (r: Result<(), AlignError>)
    ensures
        aligned::<KdiPublicTransportStop>(
            old(public_transport_stops).deep_view(),
            final(public_transport_stops).deep_view(),
            public_transport_stops_of(tt, gtfs.stops@),
            r,
        ),
{
    align(&PublicTransportStopBuilder { tt }, gtfs.stops.as_slice(), public_transport_stops)
}

/// The text of a service time, where there is a time. A time that runs past
/// the end of the first month is refused.
pub open spec fn time_of(time: Option<u32>) -> Result<Option<Seq<char>>, AlignError> {
    match time {
        None => Ok(None),
        Some(seconds) => if service_day(seconds as int) <= 31 {
            Ok(Some(service_time_text(seconds as int)))
        } else {
            Err(AlignError::InvalidDate)
        },
    }
}

/// The stop time of the model for a call of a trip of a feed.
pub open spec fn stop_time_of(tt: TT, trip: Seq<char>, call: GtfsStopTime) -> Result<
    KdiStopTimeView,
    AlignError,
> {
    match time_of(call.arrival_time) {
        Err(e) => Err(e),
        Ok(arrival) => match time_of(call.departure_time) {
            Err(e) => Err(e),
            Ok(departure) => Ok(
                KdiStopTimeView {
                    trip: namespace(tt, trip),
                    stop: namespace(tt, call.stop_id@),
                    arrival,
                    departure,
                    sequence: call.stop_sequence as usize,
                },
            ),
        },
    }
}

/// Writes a service time, where there is one.
fn build_time(time: Option<u32>) -> (r: Result<Option<String>, AlignError>)
    ensures
        match time_of(time) {
            Ok(v) => r is Ok && r->Ok_0.deep_view() == v,
            Err(e) => r == Err::<Option<String>, AlignError>(e),
        },
{
    match time {
        None => Ok(None),
        Some(seconds) => match format_service_time(seconds) {
            Err(e) => Err(e),
            Ok(text) => Ok(Some(text)),
        },
    }
}

/// Builds the stop times of the calls of one trip.
pub struct StopTimeBuilder<'a> {
    pub tt: TT,
    pub trip: &'a GtfsTrip,
}

impl<'a> Builder for StopTimeBuilder<'a> {
    type Source = GtfsStopTime;

    type Target = KdiStopTime;

    open spec fn makes(&self, i: int, source: GtfsStopTime) -> Result<KdiStopTimeView, AlignError> {
        stop_time_of(self.tt, self.trip.id@, source)
    }

    fn make(&self, i: usize, source: &GtfsStopTime) -> (r: Result<KdiStopTime, AlignError>) {
        let arrival = match build_time(source.arrival_time) {
            Err(e) => {
                return Err(e);
            },
            Ok(arrival) => arrival,
        };
        let departure = match build_time(source.departure_time) {
            Err(e) => {
                return Err(e);
            },
            Ok(departure) => departure,
        };
        let made = KdiStopTime {
            trip: to_correct_id(&self.tt, self.trip.id.as_str()),
            stop: to_correct_id(&self.tt, source.stop_id.as_str()),
            arrival,
            departure,
            sequence: source.stop_sequence as usize,
        };
        assert(made.deep_view() == stop_time_of(self.tt, self.trip.id@, *source)->Ok_0);
        Ok(made)
    }
}

/// The stop times of the model for the calls of one trip.
pub open spec fn trip_stop_times_of(tt: TT, trip: GtfsTrip) -> Result<
    Seq<KdiStopTimeView>,
    AlignError,
> {
    built_by(StopTimeBuilder { tt, trip: &trip }, trip.stop_times@)
}

/// The stop times of the model for the calls of the trips of a feed, trip
/// after trip.
pub open spec fn stop_times_of(tt: TT, trips: Seq<GtfsTrip>) -> Result<
    Seq<KdiStopTimeView>,
    AlignError,
> {
    try_flat_map(trips, |trip: GtfsTrip| trip_stop_times_of(tt, trip))
}

/// Adds the calls of the trips of a feed to the merged stop times.
pub fn align_stop_time(
    gtfs: &Gtfs,
    stop_times: &mut Vec<KdiStopTime>,
    tt: TT,
) -> (r: Result<(), AlignError>)
    ensures
        aligned::<KdiStopTime>(
            old(stop_times).deep_view(),
            final(stop_times).deep_view(),
            stop_times_of(tt, gtfs.trips@),
            r,
        ),
{
    let mut built: Vec<KdiStopTime> = Vec::new();
    let mut i: usize = 0;
    assert(gtfs.trips@.take(0) =~= Seq::<GtfsTrip>::empty());
    assert(built.deep_view() =~= Seq::<KdiStopTimeView>::empty());
    while i < gtfs.trips.len()
        invariant
            0 <= i <= gtfs.trips.len(),
            stop_times_of(tt, gtfs.trips@.take(i as int)) == Ok::<
                Seq<KdiStopTimeView>,
                AlignError,
            >(built.deep_view()),
            *stop_times == *old(stop_times),
        decreases gtfs.trips.len() - i,
    {
        let trip = &gtfs.trips[i];
        proof {
            assert(gtfs.trips@.take(i + 1).drop_last() =~= gtfs.trips@.take(i as int));
            assert(gtfs.trips@.take(i + 1).last() == *trip);
        }
        match collect(&StopTimeBuilder { tt, trip }, trip.stop_times.as_slice(), &mut built) {
            Err(e) => {
                proof {
                    lemma_try_flat_map_fails(
                        gtfs.trips@,
                        |trip: GtfsTrip| trip_stop_times_of(tt, trip),
                        i + 1,
                    );
                }
                return Err(e);
            },
            Ok(()) => {},
        }
        i = i + 1;
    }
    assert(gtfs.trips@.take(i as int) =~= gtfs.trips@);
    commit(stop_times, built);
    Ok(())
}

/// The trip of the model for a trip of a feed. A trip without a headsign or
/// without a direction is malformed.
pub open spec fn trip_of(tt: TT, trip: GtfsTrip) -> Result<KdiTripView, AlignError> {
    match trip.trip_headsign {
        None => Err(AlignError::MissingField),
        Some(name) => match trip.direction_id {
            None => Err(AlignError::MissingField),
            Some(direction) => Ok(
                KdiTripView {
                    id: namespace(tt, trip.id@),
                    route: namespace(tt, trip.route_id@),
                    calendar: namespace(tt, trip.service_id@),
                    name: name@,
                    direction: KdiDirectionEnum::of_direction(direction),
                    wheelchair: KdiSupportedEnum::of_availability(trip.wheelchair_accessible),
                    bike: KdiSupportedEnum::of_bikes_allowed(trip.bikes_allowed),
                },
            ),
        },
    }
}

/// Builds the trips of a feed.
pub struct TripBuilder {
    pub tt: TT,
}

impl Builder for TripBuilder {
    type Source = GtfsTrip;

    type Target = KdiTrip;

    open spec fn makes(&self, i: int, source: GtfsTrip) -> Result<KdiTripView, AlignError> {
        trip_of(self.tt, source)
    }

    fn make(&self, i: usize, source: &GtfsTrip) -> (r: Result<KdiTrip, AlignError>) {
        let name = match &source.trip_headsign {
            None => {
                return Err(AlignError::MissingField);
            },
            Some(name) => name.clone(),
        };
        let direction = match source.direction_id {
            None => {
                return Err(AlignError::MissingField);
            },
            Some(direction) => KdiDirectionEnum::from_direction(direction),
        };
        let made = KdiTrip {
            id: to_correct_id(&self.tt, source.id.as_str()),
            route: to_correct_id(&self.tt, source.route_id.as_str()),
            calendar: to_correct_id(&self.tt, source.service_id.as_str()),
            name,
            direction,
            wheelchair: KdiSupportedEnum::from_availability(source.wheelchair_accessible),
            bike: KdiSupportedEnum::from_bikes_allowed(source.bikes_allowed),
        };
        assert(made.deep_view() == trip_of(self.tt, *source)->Ok_0);
        Ok(made)
    }
}

/// The trips of the model for the trips of a feed.
pub open spec fn trips_of(tt: TT, trips: Seq<GtfsTrip>) -> Result<Seq<KdiTripView>, AlignError> {
    built_by(TripBuilder { tt }, trips)
}

/// Adds the trips of a feed to the merged trips.
pub fn align_trip(gtfs: &Gtfs, trips: &mut Vec<KdiTrip>, tt: TT) -> (r: Result<(), AlignError>)
    ensures
        aligned::<KdiTrip>(
            old(trips).deep_view(),
            final(trips).deep_view(),
            trips_of(tt, gtfs.trips@),
            r,
        ),
{
    align(&TripBuilder { tt }, gtfs.trips.as_slice(), trips)
}

/// The route of the model for a route of a feed. A route without an agency
/// is malformed, and a kind of route outside the model's modes is refused.
pub open spec fn route_of(tt: TT, route: GtfsRoute) -> Result<KdiRouteView, AlignError> {
    match route.agency_id {
        None => Err(AlignError::MissingField),
        Some(agency) => match KdiTransportEnum::of_route_type(route.route_type) {
            Err(e) => Err(e),
            Ok(transport) => Ok(
                KdiRouteView {
                    id: namespace(tt, route.id@),
                    agency: agency@,
                    short_name: route.short_name@,
                    long_name: route.long_name@,
                    transport,
                },
            ),
        },
    }
}

/// Builds the routes of a feed.
pub struct RouteBuilder {
    pub tt: TT,
}

impl Builder for RouteBuilder {
    type Source = GtfsRoute;

    type Target = KdiRoute;

    open spec fn makes(&self, i: int, source: GtfsRoute) -> Result<KdiRouteView, AlignError> {
        route_of(self.tt, source)
    }

    fn make(&self, i: usize, source: &GtfsRoute) -> (r: Result<KdiRoute, AlignError>) {
        let agency = match &source.agency_id {
            None => {
                return Err(AlignError::MissingField);
            },
            Some(agency) => agency.clone(),
        };
        let transport = match KdiTransportEnum::from_route_type(source.route_type) {
            Err(e) => {
                return Err(e);
            },
            Ok(transport) => transport,
        };
        let made = KdiRoute {
            id: to_correct_id(&self.tt, source.id.as_str()),
            agency,
            short_name: source.short_name.clone(),
            long_name: source.long_name.clone(),
            transport,
        };
        assert(made.deep_view() == route_of(self.tt, *source)->Ok_0);
        Ok(made)
    }
}

/// The routes of the model for the routes of a feed.
pub open spec fn routes_of(tt: TT, routes: Seq<GtfsRoute>) -> Result<
    Seq<KdiRouteView>,
    AlignError,
> {
    built_by(RouteBuilder { tt }, routes)
}

/// Adds the routes of a feed to the merged routes.
pub fn align_route(gtfs: &Gtfs, routes: &mut Vec<KdiRoute>, tt: TT) -> (r: Result<(), AlignError>)
    ensures
        aligned::<KdiRoute>(
            old(routes).deep_view(),
            final(routes).deep_view(),
            routes_of(tt, gtfs.routes@),
            r,
        ),
{
    align(&RouteBuilder { tt }, gtfs.routes.as_slice(), routes)
}

/// The address to which riders write.
pub open spec fn agency_email() -> Seq<char> {
    "info@trentinotrasporti.it"@
}

/// The agency of the model for an agency of a feed. An agency without an
/// identifier or without a telephone number is malformed.
pub open spec fn agency_of(agency: GtfsAgency) -> Result<KdiAgencyView, AlignError> {
    match agency.id {
        None => Err(AlignError::MissingField),
        Some(id) => match agency.phone {
            None => Err(AlignError::MissingField),
            Some(phone) => Ok(
                KdiAgencyView {
                    id: id@,
                    name: agency.name@,
                    email: agency_email(),
                    phone: phone@,
                    url: agency.url@,
                },
            ),
        },
    }
}

/// The agency of the model: each feed must name exactly one agency, and
/// that of the urban feed is taken.
pub open spec fn agencies_of(urban: Seq<GtfsAgency>, extra_urban: Seq<GtfsAgency>) -> Result<
    Seq<KdiAgencyView>,
    AlignError,
> {
    if extra_urban.len() != 1 || urban.len() != 1 {
        Err(AlignError::AgencyCount)
    } else {
        match agency_of(urban[0]) {
            Err(e) => Err(e),
            Ok(agency) => Ok(seq![agency]),
        }
    }
}

/// Makes the agency of the model of an agency of a feed.
fn build_agency(agency: &GtfsAgency) -> (r: Result<KdiAgency, AlignError>)
    ensures
        match agency_of(*agency) {
            Ok(v) => r is Ok && r->Ok_0.deep_view() == v,
            Err(e) => r == Err::<KdiAgency, AlignError>(e),
        },
{
    let id = match &agency.id {
        None => {
            return Err(AlignError::MissingField);
        },
        Some(id) => id.clone(),
    };
    let phone = match &agency.phone {
        None => {
            return Err(AlignError::MissingField);
        },
        Some(phone) => phone.clone(),
    };
    Ok(
        KdiAgency {
            id,
            name: agency.name.clone(),
            email: String::from_str("info@trentinotrasporti.it"),
            phone,
            url: agency.url.clone(),
        },
    )
}

/// Adds the agency of the two feeds to the merged agencies.
pub fn align_agency(
    urban: &Gtfs,
    extra_urban: &Gtfs,
    agencies: &mut Vec<KdiAgency>,
) -> (r: Result<(), AlignError>)
    ensures
        aligned::<KdiAgency>(
            old(agencies).deep_view(),
            final(agencies).deep_view(),
            agencies_of(urban.agencies@, extra_urban.agencies@),
            r,
        ),
{
    if extra_urban.agencies.len() != 1 || urban.agencies.len() != 1 {
        return Err(AlignError::AgencyCount);
    }
    let agency = match build_agency(&urban.agencies[0]) {
        Err(e) => {
            return Err(e);
        },
        Ok(agency) => agency,
    };
    let mut built: Vec<KdiAgency> = Vec::new();
    built.push(agency);
    assert(built.deep_view() =~= seq![agency.deep_view()]);
    commit(agencies, built);
    Ok(())
}

} // verus!
