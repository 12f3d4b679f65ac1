use kdi_alignment::kdi::align::{
    align_agency, align_bike_sharing_stop, align_calendar, align_calendar_exception, align_fare,
    align_fare_rule, align_location_bike_sharing, align_location_car_sharing,
    align_location_centro_in_bici, align_location_parcheggio_protetto_biciclette,
    align_location_public_transport_stop, align_location_taxi, align_location_zone,
    align_parking_stop_car_sharing, align_parking_stop_centro_in_bici,
    align_parking_stop_parcheggio_protetto_biciclette, align_parking_stop_taxi,
    align_public_transport_stop, align_route, align_stop_time, align_trip, parse_coordinates,
    parse_slots, to_correct_id, to_zone_id, TT,
};
use kdi_alignment::kdi::enums::{
    KdiCurrencyEnum, KdiDirectionEnum, KdiExceptionEnum, KdiFareEnum, KdiParkingStopEnum,
    KdiPaymentEnum, KdiSupportedEnum, KdiTransportEnum,
};
use kdi_alignment::kdi::error::AlignError;
use kdi_alignment::kdi::gtfs::{
    Availability, BikesAllowedType, DirectionType, Exception, Gtfs, GtfsAgency, GtfsCalendar,
    GtfsCalendarDate, GtfsDate, GtfsRoute, GtfsStop, GtfsStopTime, GtfsTrip, RouteType,
};
use kdi_alignment::kdi::json::BikeSharing;
use kdi_alignment::kdi::kml::{
    Document, ExtendedData, Folder, Kml, Placemark, Point, SchemaData, SimpleData,
};
use kdi_alignment::kdi::structs::{
    kdi_fare_rule_default, KdiFare, KdiFareRule, KdiFareRuleRow, KdiLocation, KdiParkingStop,
    KdiZone,
};

fn empty_feed() -> Gtfs {
    Gtfs {
        agencies: Vec::new(),
        stops: Vec::new(),
        routes: Vec::new(),
        trips: Vec::new(),
        calendar: Vec::new(),
        calendar_dates: Vec::new(),
    }
}

fn stop(id: &str, name: &str, latitude: &str, longitude: &str) -> GtfsStop {
    GtfsStop {
        id: id.to_string(),
        name: name.to_string(),
        latitude: Some(latitude.to_string()),
        longitude: Some(longitude.to_string()),
        zone_id: None,
        wheelchair_boarding: Availability::InformationNotAvailable,
    }
}

fn route(id: &str, route_type: RouteType) -> GtfsRoute {
    GtfsRoute {
        id: id.to_string(),
        agency_id: Some("12".to_string()),
        short_name: format!("short {}", id),
        long_name: format!("long {}", id),
        route_type,
    }
}

fn call(
    stop_id: &str,
    arrival: Option<u32>,
    departure: Option<u32>,
    sequence: u32,
) -> GtfsStopTime {
    GtfsStopTime {
        stop_id: stop_id.to_string(),
        arrival_time: arrival,
        departure_time: departure,
        stop_sequence: sequence,
    }
}

fn trip(id: &str, route_id: &str, service_id: &str, stop_times: Vec<GtfsStopTime>) -> GtfsTrip {
    GtfsTrip {
        id: id.to_string(),
        route_id: route_id.to_string(),
        service_id: service_id.to_string(),
        trip_headsign: Some(format!("to {}", id)),
        direction_id: Some(DirectionType::Outbound),
        wheelchair_accessible: Availability::Available,
        bikes_allowed: BikesAllowedType::NoBikesAllowed,
        stop_times,
    }
}

fn date(year: i32, month: u32, day: u32) -> GtfsDate {
    GtfsDate { year, month, day }
}

fn placemark(coordinates: &str, datas: &[(&str, &str)]) -> Placemark {
    Placemark {
        point: Point { coordinates: coordinates.to_string() },
        extended_data: ExtendedData {
            schema_data: SchemaData {
                simple_datas: datas
                    .iter()
                    .map(|(name, value)| SimpleData {
                        name: name.to_string(),
                        value: value.to_string(),
                    })
                    .collect(),
            },
        },
    }
}

fn kml(placemarks: Vec<Placemark>) -> Kml {
    Kml { document: Document { folder: Folder { name: "feed".to_string(), placemarks } } }
}

fn ids(locations: &[KdiLocation]) -> Vec<&str> {
    locations.iter().map(|l| l.id.as_str()).collect()
}

fn fare_row(id: &str, price: &str) -> KdiFare {
    KdiFare {
        id: id.to_string(),
        price: price.to_string(),
        currency: KdiCurrencyEnum::EUR,
        ftype: KdiFareEnum::default(),
        payment: KdiPaymentEnum::BeforeBoarding,
        duration: 70,
    }
}

fn rule_row(fare: &str, origin: Option<&str>, destination: Option<&str>) -> KdiFareRuleRow {
    KdiFareRuleRow {
        fare: fare.to_string(),
        origin: origin.map(|z| z.to_string()),
        destination: destination.map(|z| z.to_string()),
    }
}

fn rule_triples(rules: &[KdiFareRule]) -> Vec<(&str, &str, &str)> {
    rules.iter().map(|r| (r.fare.as_str(), r.origin.as_str(), r.destination.as_str())).collect()
}

fn station(id: &str, position: &[&str]) -> BikeSharing {
    BikeSharing {
        id: id.to_string(),
        name: format!("station {}", id),
        address: format!("street {}", id),
        bikes: 3,
        slots: 5,
        total_slots: 8,
        position: position.iter().map(|p| p.to_string()).collect(),
    }
}

#[test]
fn namespace_prefixes_the_tier_code() {
    assert_eq!(to_correct_id(&TT::Urban, "12"), "U_12");
    assert_eq!(to_correct_id(&TT::ExtraUrban, "12"), "EU_12");
    assert_eq!(to_correct_id(&TT::Urban, ""), "U_");
    assert_eq!(to_correct_id(&TT::ExtraUrban, "U_12"), "EU_U_12");
    assert_eq!(TT::Urban.to_text(), "U");
    assert_eq!(TT::ExtraUrban.to_text(), "EU");
}

#[test]
fn namespace_keeps_tiers_apart() {
    for raw in ["", "1", "12", "U_1", "EU_1", "_", "à"] {
        assert_ne!(to_correct_id(&TT::Urban, raw), to_correct_id(&TT::ExtraUrban, raw));
    }
    let pairs = [
        (TT::Urban, "1"),
        (TT::Urban, "2"),
        (TT::ExtraUrban, "1"),
        (TT::ExtraUrban, "2"),
        (TT::Urban, "U_1"),
        (TT::ExtraUrban, "_1"),
    ];
    for (i, (ta, a)) in pairs.iter().enumerate() {
        for (j, (tb, b)) in pairs.iter().enumerate() {
            assert_eq!(to_correct_id(ta, a) == to_correct_id(tb, b), i == j);
        }
    }
}

#[test]
fn zone_ids_carry_the_zone_mark() {
    assert_eq!(to_zone_id(&TT::Urban, "0001"), "ZONE_U_0001");
    assert_eq!(to_zone_id(&TT::ExtraUrban, "7"), "ZONE_EU_7");
}

#[test]
fn stops_of_both_tiers_with_one_raw_id_are_both_kept() {
    let mut urban = empty_feed();
    urban.stops.push(stop("12", "Piazza Dante", "46.07", "11.12"));
    let mut extra_urban = empty_feed();
    extra_urban.stops.push(stop("12", "Pergine", "46.06", "11.23"));
    let mut locations = Vec::new();
    assert_eq!(
        align_location_public_transport_stop(&extra_urban, &mut locations, TT::ExtraUrban),
        Ok(())
    );
    assert_eq!(align_location_public_transport_stop(&urban, &mut locations, TT::Urban), Ok(()));
    assert_eq!(ids(&locations), vec!["EU_12", "U_12"]);
    assert_eq!(locations[0].name, "Pergine");
    assert_eq!(locations[0].latitude, "46.06");
    assert_eq!(locations[0].longitude, "11.23");
    assert_eq!(locations[1].name, "Piazza Dante");
    assert_eq!(locations[1].latitude, "46.07");
    assert_eq!(locations[1].longitude, "11.12");
}

#[test]
fn stop_locations_are_added_and_the_whole_is_sorted() {
    let mut feed = empty_feed();
    feed.stops.push(stop("b", "B", "1", "2"));
    feed.stops.push(stop("a", "A", "3", "4"));
    feed.stops.push(stop("c", "C", "5", "6"));
    let mut locations = vec![KdiLocation {
        id: "ZONE_U_1".to_string(),
        name: "zone".to_string(),
        latitude: "0".to_string(),
        longitude: "0".to_string(),
    }, KdiLocation {
        id: "CS_0".to_string(),
        name: "cars".to_string(),
        latitude: "0".to_string(),
        longitude: "0".to_string(),
    }];
    assert_eq!(align_location_public_transport_stop(&feed, &mut locations, TT::Urban), Ok(()));
    assert_eq!(ids(&locations), vec!["CS_0", "U_a", "U_b", "U_c", "ZONE_U_1"]);
}

#[test]
fn stop_without_coordinates_is_malformed() {
    let mut feed = empty_feed();
    feed.stops.push(stop("a", "A", "3", "4"));
    let mut broken = stop("b", "B", "1", "2");
    broken.longitude = None;
    feed.stops.push(broken);
    let mut locations = Vec::new();
    assert_eq!(
        align_location_public_transport_stop(&feed, &mut locations, TT::Urban),
        Err(AlignError::MissingField)
    );
    assert!(locations.is_empty());
    feed.stops[1].longitude = Some("north".to_string());
    assert_eq!(
        align_location_public_transport_stop(&feed, &mut locations, TT::Urban),
        Err(AlignError::MalformedNumber)
    );
    assert!(locations.is_empty());
}

#[test]
fn placemark_coordinates_give_longitude_then_latitude() {
    let feed = kml(vec![placemark("11.12,46.07", &[("nomepos", "Stazione")])]);
    let mut locations = Vec::new();
    assert_eq!(align_location_car_sharing(&feed, &mut locations), Ok(()));
    assert_eq!(locations.len(), 1);
    assert_eq!(locations[0].id, "CS_0");
    assert_eq!(locations[0].name, "Stazione");
    assert_eq!(locations[0].longitude.parse::<f64>().unwrap(), 11.12);
    assert_eq!(locations[0].latitude.parse::<f64>().unwrap(), 46.07);
    assert_eq!(locations[0].longitude, "11.12");
    assert_eq!(locations[0].latitude, "46.07");
}

#[test]
fn parse_coordinates_swaps_the_two_components() {
    assert_eq!(
        parse_coordinates("11.12,46.07"),
        Ok(("46.07".to_string(), "11.12".to_string()))
    );
    assert_eq!(parse_coordinates("-1,+2e3"), Ok(("+2e3".to_string(), "-1".to_string())));
}

#[test]
fn parse_coordinates_refuses_any_other_count_of_components() {
    assert_eq!(parse_coordinates("11.12"), Err(AlignError::CoordinateArity));
    assert_eq!(parse_coordinates("11.12,46.07,0"), Err(AlignError::CoordinateArity));
    assert_eq!(parse_coordinates("1,2,3,4"), Err(AlignError::CoordinateArity));
}

#[test]
fn parse_coordinates_refuses_what_is_no_number() {
    assert_eq!(parse_coordinates(""), Err(AlignError::MalformedNumber));
    assert_eq!(parse_coordinates("11.12,"), Err(AlignError::MalformedNumber));
    assert_eq!(parse_coordinates(",46.07"), Err(AlignError::MalformedNumber));
    assert_eq!(parse_coordinates("11.12, 46.07"), Err(AlignError::MalformedNumber));
    assert_eq!(parse_coordinates("east,north"), Err(AlignError::MalformedNumber));
    assert_eq!(parse_coordinates("1,2,x"), Err(AlignError::MalformedNumber));
}

#[test]
fn points_of_interest_are_numbered_by_position() {
    let mut placemarks = Vec::new();
    for i in 0..12 {
        placemarks.push(placemark("11.1,46.0", &[("desc", &format!("point {}", i))]));
    }
    let mut locations = Vec::new();
    assert_eq!(align_location_centro_in_bici(&kml(placemarks), &mut locations), Ok(()));
    assert_eq!(
        ids(&locations),
        vec![
            "CIB_0", "CIB_1", "CIB_10", "CIB_11", "CIB_2", "CIB_3", "CIB_4", "CIB_5", "CIB_6",
            "CIB_7", "CIB_8", "CIB_9"
        ]
    );
    assert_eq!(locations[2].name, "point 10");
    assert_eq!(locations[4].name, "point 2");
}

#[test]
fn each_family_of_points_has_its_mark_and_its_name_field() {
    let datas = [("nomepos", "a"), ("desc", "b"), ("park", "c"), ("nome", "d")];
    let feed = kml(vec![placemark("1,2", &datas)]);
    let mut locations = Vec::new();
    assert_eq!(align_location_car_sharing(&feed, &mut locations), Ok(()));
    assert_eq!(align_location_centro_in_bici(&feed, &mut locations), Ok(()));
    assert_eq!(align_location_parcheggio_protetto_biciclette(&feed, &mut locations), Ok(()));
    assert_eq!(align_location_taxi(&feed, &mut locations), Ok(()));
    let found: Vec<(&str, &str)> =
        locations.iter().map(|l| (l.id.as_str(), l.name.as_str())).collect();
    assert_eq!(found, vec![("CIB_0", "b"), ("CS_0", "a"), ("PPB_0", "c"), ("TX_0", "d")]);
}

#[test]
fn named_field_is_the_first_of_its_name() {
    let feed = kml(vec![placemark("1,2", &[("x", "0"), ("nome", "first"), ("nome", "second")])]);
    let mut locations = Vec::new();
    assert_eq!(align_location_taxi(&feed, &mut locations), Ok(()));
    assert_eq!(locations[0].name, "first");
    let pm = placemark("1,2", &[("a", "1"), ("b", "2")]);
    assert_eq!(pm.required_field("b"), Ok("2"));
    assert_eq!(pm.required_field("a"), Ok("1"));
    assert_eq!(pm.required_field("c"), Err(AlignError::MissingField));
    assert_eq!(pm.required_field(""), Err(AlignError::MissingField));
}

#[test]
fn placemark_without_its_name_field_is_malformed() {
    let feed = kml(vec![
        placemark("1,2", &[("nome", "ok")]),
        placemark("1,2", &[("name", "misspelt")]),
    ]);
    let mut locations = vec![KdiLocation {
        id: "U_1".to_string(),
        name: "kept".to_string(),
        latitude: "0".to_string(),
        longitude: "0".to_string(),
    }];
    assert_eq!(align_location_taxi(&feed, &mut locations), Err(AlignError::MissingField));
    assert_eq!(ids(&locations), vec!["U_1"]);
}

#[test]
fn placemark_with_wrong_coordinates_is_malformed() {
    let mut locations = Vec::new();
    let three = kml(vec![placemark("1,2,3", &[("nome", "ok")])]);
    assert_eq!(align_location_taxi(&three, &mut locations), Err(AlignError::CoordinateArity));
    let words = kml(vec![placemark("one,two", &[("nome", "ok")])]);
    assert_eq!(align_location_taxi(&words, &mut locations), Err(AlignError::MalformedNumber));
    let both = kml(vec![placemark("one", &[])]);
    assert_eq!(align_location_taxi(&both, &mut locations), Err(AlignError::MalformedNumber));
    let unnamed = kml(vec![placemark("1", &[])]);
    assert_eq!(align_location_taxi(&unnamed, &mut locations), Err(AlignError::CoordinateArity));
    assert!(locations.is_empty());
}

#[test]
fn the_first_malformed_record_decides_the_fault() {
    let feed = kml(vec![
        placemark("1,2", &[("nome", "ok")]),
        placemark("1,2", &[]),
        placemark("1,2,3", &[("nome", "ok")]),
    ]);
    let mut locations = Vec::new();
    assert_eq!(align_location_taxi(&feed, &mut locations), Err(AlignError::MissingField));
    let feed = kml(vec![
        placemark("1,2,3", &[("nome", "ok")]),
        placemark("1,2", &[]),
    ]);
    assert_eq!(align_location_taxi(&feed, &mut locations), Err(AlignError::CoordinateArity));
}

#[test]
fn zones_become_locations_with_the_zone_mark() {
    let zones = vec![
        KdiZone {
            id: "0002".to_string(),
            name: "Pergine".to_string(),
            latitude: "46.06".to_string(),
            longitude: "11.23".to_string(),
        },
        KdiZone {
            id: "0001".to_string(),
            name: "Trento".to_string(),
            latitude: "46.07".to_string(),
            longitude: "11.12".to_string(),
        },
    ];
    let mut locations = Vec::new();
    assert_eq!(align_location_zone(&zones, &mut locations, TT::ExtraUrban), Ok(()));
    assert_eq!(align_location_zone(&zones, &mut locations, TT::Urban), Ok(()));
    assert_eq!(
        ids(&locations),
        vec!["ZONE_EU_0001", "ZONE_EU_0002", "ZONE_U_0001", "ZONE_U_0002"]
    );
    assert_eq!(locations[0].name, "Trento");
    assert_eq!(locations[0].latitude, "46.07");
    assert_eq!(locations[0].longitude, "11.12");
}

#[test]
fn zone_with_a_coordinate_that_is_no_number_is_malformed() {
    let zones = vec![KdiZone {
        id: "1".to_string(),
        name: "Trento".to_string(),
        latitude: "46,07".to_string(),
        longitude: "11.12".to_string(),
    }];
    let mut locations = Vec::new();
    assert_eq!(
        align_location_zone(&zones, &mut locations, TT::Urban),
        Err(AlignError::MalformedNumber)
    );
    assert!(locations.is_empty());
}

#[test]
fn bike_sharing_stations_become_locations_and_stops() {
    let stations = vec![station("9", &["46.07", "11.12"]), station("10", &["46.0", "11.0"])];
    let mut locations = Vec::new();
    assert_eq!(align_location_bike_sharing(&stations, &mut locations), Ok(()));
    assert_eq!(ids(&locations), vec!["BS_10", "BS_9"]);
    assert_eq!(locations[1].name, "station 9");
    assert_eq!(locations[1].latitude, "46.07");
    assert_eq!(locations[1].longitude, "11.12");
    let mut stops = Vec::new();
    assert_eq!(align_bike_sharing_stop(&stations, &mut stops), Ok(()));
    assert_eq!(stops.len(), 2);
    assert_eq!(stops[0].location, "BS_10");
    assert_eq!(stops[1].location, "BS_9");
    assert_eq!(stops[1].ptype, KdiParkingStopEnum::BikeSharing);
    assert_eq!(stops[1].address, "street 9");
    assert_eq!(stops[1].total_slots, 8);
    assert_eq!(stops[1].free_slots, 5);
    assert_eq!(stops[1].bikes, 3);
}

#[test]
fn bike_sharing_station_needs_a_position_of_two() {
    let mut locations = Vec::new();
    let mut stops = Vec::new();
    for position in [&[][..], &["1"][..], &["1", "2", "3"][..]] {
        let stations = vec![station("1", position)];
        assert_eq!(
            align_location_bike_sharing(&stations, &mut locations),
            Err(AlignError::CoordinateArity)
        );
        assert_eq!(
            align_bike_sharing_stop(&stations, &mut stops),
            Err(AlignError::CoordinateArity)
        );
    }
    let stations = vec![station("1", &["1", "x"])];
    assert_eq!(
        align_location_bike_sharing(&stations, &mut locations),
        Err(AlignError::MalformedNumber)
    );
    assert!(locations.is_empty());
    assert!(stops.is_empty());
}

#[test]
fn calendar_dates_become_exceptions_ordered_by_calendar_and_date() {
    let mut feed = empty_feed();
    feed.calendar_dates.push(GtfsCalendarDate {
        service_id: "s2".to_string(),
        date: date(2021, 1, 6),
        exception_type: Exception::Deleted,
    });
    feed.calendar_dates.push(GtfsCalendarDate {
        service_id: "s1".to_string(),
        date: date(2021, 12, 25),
        exception_type: Exception::Added,
    });
    feed.calendar_dates.push(GtfsCalendarDate {
        service_id: "s1".to_string(),
        date: date(2021, 4, 5),
        exception_type: Exception::Deleted,
    });
    let mut exceptions = Vec::new();
    assert_eq!(align_calendar_exception(&feed, &mut exceptions, TT::Urban), Ok(()));
    let found: Vec<(&str, &str, KdiExceptionEnum)> = exceptions
        .iter()
        .map(|e| (e.calendar.as_str(), e.date.as_str(), e.exception))
        .collect();
    assert_eq!(
        found,
        vec![
            ("U_s1", "2021-04-05T00:00:00", KdiExceptionEnum::Removed),
            ("U_s1", "2021-12-25T00:00:00", KdiExceptionEnum::Added),
            ("U_s2", "2021-01-06T00:00:00", KdiExceptionEnum::Removed),
        ]
    );
}

#[test]
fn calendar_date_that_does_not_exist_is_refused() {
    let mut feed = empty_feed();
    feed.calendar_dates.push(GtfsCalendarDate {
        service_id: "s".to_string(),
        date: date(2021, 2, 29),
        exception_type: Exception::Added,
    });
    let mut exceptions = Vec::new();
    assert_eq!(
        align_calendar_exception(&feed, &mut exceptions, TT::Urban),
        Err(AlignError::InvalidDate)
    );
    assert!(exceptions.is_empty());
}

#[test]
fn calendars_pass_their_week_through() {
    let mut feed = empty_feed();
    feed.calendar.push(GtfsCalendar {
        id: "feriale".to_string(),
        start_date: date(2020, 9, 14),
        end_date: date(2021, 6, 10),
        monday: true,
        tuesday: true,
        wednesday: false,
        thursday: true,
        friday: true,
        saturday: false,
        sunday: false,
    });
    let mut calendars = Vec::new();
    assert_eq!(align_calendar(&feed, &mut calendars, TT::ExtraUrban), Ok(()));
    assert_eq!(calendars.len(), 1);
    let c = &calendars[0];
    assert_eq!(c.id, "EU_feriale");
    assert_eq!(c.start_date, "2020-09-14T00:00:00");
    assert_eq!(c.end_date, "2021-06-10T00:00:00");
    assert_eq!(
        (c.monday, c.tuesday, c.wednesday, c.thursday, c.friday, c.saturday, c.sunday),
        (true, true, false, true, true, false, false)
    );
}

#[test]
fn calendar_with_a_date_that_does_not_exist_is_refused() {
    let mut feed = empty_feed();
    feed.calendar.push(GtfsCalendar {
        id: "x".to_string(),
        start_date: date(2020, 9, 14),
        end_date: date(2021, 6, 31),
        monday: true,
        tuesday: true,
        wednesday: true,
        thursday: true,
        friday: true,
        saturday: true,
        sunday: true,
    });
    let mut calendars = Vec::new();
    assert_eq!(align_calendar(&feed, &mut calendars, TT::Urban), Err(AlignError::InvalidDate));
    feed.calendar[0].end_date = date(2021, 6, 30);
    feed.calendar[0].start_date = date(2020, 13, 1);
    assert_eq!(align_calendar(&feed, &mut calendars, TT::Urban), Err(AlignError::InvalidDate));
    assert!(calendars.is_empty());
}

#[test]
fn fare_rule_without_origin_refers_to_the_default_zone() {
    let cash = vec![rule_row("f1", None, Some("0007"))];
    let mut rules = Vec::new();
    assert_eq!(align_fare_rule(&cash, &[], &[], &mut rules, TT::Urban), Ok(()));
    assert_eq!(rule_triples(&rules), vec![("U_f1", "ZONE_U_0001", "ZONE_U_0007")]);
    assert_eq!(kdi_fare_rule_default(), "0001");
}

#[test]
fn fare_rule_without_destination_refers_to_the_default_zone() {
    let mobile = vec![rule_row("f1", Some("0003"), None), rule_row("f2", None, None)];
    let mut rules = Vec::new();
    assert_eq!(align_fare_rule(&[], &[], &mobile, &mut rules, TT::ExtraUrban), Ok(()));
    assert_eq!(
        rule_triples(&rules),
        vec![("EU_f1", "ZONE_EU_0003", "ZONE_EU_0001"), ("EU_f2", "ZONE_EU_0001", "ZONE_EU_0001")]
    );
}

#[test]
fn fare_rule_with_an_empty_zone_keeps_it() {
    let cash = vec![rule_row("f1", Some(""), Some("2"))];
    let mut rules = Vec::new();
    assert_eq!(align_fare_rule(&cash, &[], &[], &mut rules, TT::Urban), Ok(()));
    assert_eq!(rule_triples(&rules), vec![("U_f1", "ZONE_U_", "ZONE_U_2")]);
}

#[test]
fn fare_rules_are_ordered_by_fare_and_ties_keep_their_order() {
    let cash = vec![rule_row("b", Some("9"), Some("1")), rule_row("a", Some("5"), Some("6"))];
    let card = vec![rule_row("b", Some("1"), Some("9")), rule_row("a", Some("2"), Some("3"))];
    let mobile = vec![rule_row("b", Some("4"), Some("4"))];
    let mut rules = Vec::new();
    assert_eq!(align_fare_rule(&cash, &card, &mobile, &mut rules, TT::Urban), Ok(()));
    assert_eq!(
        rule_triples(&rules),
        vec![
            ("U_a", "ZONE_U_5", "ZONE_U_6"),
            ("U_a", "ZONE_U_2", "ZONE_U_3"),
            ("U_b", "ZONE_U_9", "ZONE_U_1"),
            ("U_b", "ZONE_U_1", "ZONE_U_9"),
            ("U_b", "ZONE_U_4", "ZONE_U_4"),
        ]
    );
    let more = vec![rule_row("a", Some("0"), Some("0"))];
    assert_eq!(align_fare_rule(&more, &[], &[], &mut rules, TT::Urban), Ok(()));
    assert_eq!(
        rule_triples(&rules),
        vec![
            ("U_a", "ZONE_U_5", "ZONE_U_6"),
            ("U_a", "ZONE_U_2", "ZONE_U_3"),
            ("U_a", "ZONE_U_0", "ZONE_U_0"),
            ("U_b", "ZONE_U_9", "ZONE_U_1"),
            ("U_b", "ZONE_U_1", "ZONE_U_9"),
            ("U_b", "ZONE_U_4", "ZONE_U_4"),
        ]
    );
}

#[test]
fn fares_are_emitted_once_for_every_channel() {
    let cash = vec![fare_row("1", "1.20")];
    let card = vec![fare_row("1", "0.90")];
    let mobile = vec![fare_row("1", "1.10"), fare_row("0", "2")];
    let mut fares = Vec::new();
    assert_eq!(align_fare(&cash, &card, &mobile, &mut fares, TT::Urban), Ok(()));
    let found: Vec<(&str, &str, KdiFareEnum)> =
        fares.iter().map(|f| (f.id.as_str(), f.price.as_str(), f.ftype)).collect();
    assert_eq!(
        found,
        vec![
            ("U_0", "2", KdiFareEnum::Mobile),
            ("U_1", "1.20", KdiFareEnum::Cash),
            ("U_1", "0.90", KdiFareEnum::Cartascalare),
            ("U_1", "1.10", KdiFareEnum::Mobile),
        ]
    );
    assert_eq!(fares[0].currency, KdiCurrencyEnum::EUR);
    assert_eq!(fares[0].payment, KdiPaymentEnum::BeforeBoarding);
    assert_eq!(fares[0].duration, 70);
    assert_eq!(fares[1].price.parse::<f64>().unwrap(), 1.2);
}

#[test]
fn fare_with_a_price_that_is_no_number_is_malformed() {
    let cash = vec![fare_row("1", "1.20")];
    let card = vec![fare_row("1", "free")];
    let mut fares = Vec::new();
    assert_eq!(
        align_fare(&cash, &card, &[], &mut fares, TT::Urban),
        Err(AlignError::MalformedNumber)
    );
    assert!(fares.is_empty());
}

#[test]
fn parking_stops_of_car_sharing_read_street_and_cars() {
    let feed = kml(vec![
        placemark("1,2", &[("nomepos", "A"), ("via", "Via Roma"), ("auto", "3")]),
        placemark("1,2", &[("auto", "12"), ("via", "Via Verdi")]),
    ]);
    let mut stops: Vec<KdiParkingStop> = Vec::new();
    assert_eq!(align_parking_stop_car_sharing(&feed, &mut stops), Ok(()));
    assert_eq!(stops.len(), 2);
    assert_eq!(stops[0].location, "CS_0");
    assert_eq!(stops[0].ptype, KdiParkingStopEnum::CarSharing);
    assert_eq!(stops[0].address, "Via Roma");
    assert_eq!(stops[0].total_slots, 3);
    assert_eq!(stops[1].location, "CS_1");
    assert_eq!(stops[1].address, "Via Verdi");
    assert_eq!(stops[1].total_slots, 12);
}

#[test]
fn parking_stops_of_each_family_read_their_fields() {
    let datas = [
        ("via", "street"),
        ("desc", "description"),
        ("indirizzo", "address"),
        ("auto", "1"),
        ("cicloposteggi", "2"),
        ("posti", "3"),
    ];
    let feed = kml(vec![placemark("1,2", &datas)]);
    let mut stops = Vec::new();
    assert_eq!(align_parking_stop_car_sharing(&feed, &mut stops), Ok(()));
    assert_eq!(align_parking_stop_centro_in_bici(&feed, &mut stops), Ok(()));
    assert_eq!(align_parking_stop_parcheggio_protetto_biciclette(&feed, &mut stops), Ok(()));
    assert_eq!(align_parking_stop_taxi(&feed, &mut stops), Ok(()));
    let found: Vec<(&str, KdiParkingStopEnum, &str, usize)> = stops
        .iter()
        .map(|s| (s.location.as_str(), s.ptype, s.address.as_str(), s.total_slots))
        .collect();
    assert_eq!(
        found,
        vec![
            ("CIB_0", KdiParkingStopEnum::BikeSharing, "description", 2),
            ("CS_0", KdiParkingStopEnum::CarSharing, "street", 1),
            ("PPB_0", KdiParkingStopEnum::BikeParking, "street", 3),
            ("TX_0", KdiParkingStopEnum::Taxi, "address", 1),
        ]
    );
}

#[test]
fn taxi_stand_has_one_slot() {
    let feed = kml(vec![placemark("1,2", &[("indirizzo", "Piazza Duomo"), ("posti", "40")])]);
    let mut stops = Vec::new();
    assert_eq!(align_parking_stop_taxi(&feed, &mut stops), Ok(()));
    assert_eq!(stops[0].total_slots, 1);
    assert_eq!(stops[0].address, "Piazza Duomo");
}

#[test]
fn parking_stop_without_a_field_is_malformed() {
    let mut stops = Vec::new();
    let no_address = kml(vec![placemark("1,2", &[("auto", "3")])]);
    assert_eq!(
        align_parking_stop_car_sharing(&no_address, &mut stops),
        Err(AlignError::MissingField)
    );
    let no_slots = kml(vec![placemark("1,2", &[("via", "x")])]);
    assert_eq!(
        align_parking_stop_car_sharing(&no_slots, &mut stops),
        Err(AlignError::MissingField)
    );
    assert_eq!(
        align_parking_stop_taxi(&no_slots, &mut stops),
        Err(AlignError::MissingField)
    );
    assert!(stops.is_empty());
}

#[test]
fn parking_stop_with_slots_that_are_no_number_is_malformed() {
    let mut stops = Vec::new();
    for slots in ["", "three", "-1", "3.0", " 3", "99999999999999999999999"] {
        let feed = kml(vec![placemark("1,2", &[("desc", "x"), ("cicloposteggi", slots)])]);
        assert_eq!(
            align_parking_stop_centro_in_bici(&feed, &mut stops),
            Err(AlignError::MalformedNumber),
            "{:?}",
            slots
        );
    }
    assert!(stops.is_empty());
    assert_eq!(parse_slots("12"), Ok(12));
    assert_eq!(parse_slots("+12"), Ok(12));
    assert_eq!(parse_slots("x"), Err(AlignError::MalformedNumber));
}

#[test]
fn public_transport_stops_carry_zone_and_wheelchair() {
    let mut feed = empty_feed();
    let mut a = stop("2", "A", "1", "2");
    a.zone_id = Some("0005".to_string());
    a.wheelchair_boarding = Availability::Available;
    let mut b = stop("1", "B", "1", "2");
    b.wheelchair_boarding = Availability::NotAvailable;
    let mut c = stop("3", "C", "1", "2");
    c.wheelchair_boarding = Availability::Unknown(7);
    feed.stops = vec![a, b, c];
    let mut stops = Vec::new();
    assert_eq!(align_public_transport_stop(&feed, &mut stops, TT::ExtraUrban), Ok(()));
    assert_eq!(stops.len(), 3);
    assert_eq!(stops[0].location, "EU_1");
    assert_eq!(stops[0].zone, None);
    assert_eq!(stops[0].wheelchair, KdiSupportedEnum::NotSupported);
    assert!(stops[0].ptype.is_empty());
    assert_eq!(stops[1].location, "EU_2");
    assert_eq!(stops[1].zone, Some("ZONE_EU_0005".to_string()));
    assert_eq!(stops[1].wheelchair, KdiSupportedEnum::Supported);
    assert_eq!(stops[2].location, "EU_3");
    assert_eq!(stops[2].wheelchair, KdiSupportedEnum::Unknown);
}

#[test]
fn stop_time_past_midnight_falls_on_the_next_day() {
    let mut feed = empty_feed();
    feed.trips.push(trip("t", "r", "s", vec![call("12", Some(90000), Some(90060), 1)]));
    let mut stop_times = Vec::new();
    assert_eq!(align_stop_time(&feed, &mut stop_times, TT::Urban), Ok(()));
    assert_eq!(stop_times.len(), 1);
    assert_eq!(stop_times[0].trip, "U_t");
    assert_eq!(stop_times[0].stop, "U_12");
    assert_eq!(stop_times[0].arrival, Some("0000-01-02T01:00:00".to_string()));
    assert_eq!(stop_times[0].departure, Some("0000-01-02T01:01:00".to_string()));
    assert_eq!(stop_times[0].sequence, 1);
}

#[test]
fn stop_times_are_ordered_by_trip_and_sequence() {
    let mut feed = empty_feed();
    feed.trips.push(trip(
        "b",
        "r",
        "s",
        vec![call("s3", Some(7200), None, 10), call("s1", None, Some(3600), 2)],
    ));
    feed.trips.push(trip("a", "r", "s", vec![call("s2", Some(60), Some(61), 1)]));
    feed.trips.push(trip("c", "r", "s", Vec::new()));
    let mut stop_times = Vec::new();
    assert_eq!(align_stop_time(&feed, &mut stop_times, TT::ExtraUrban), Ok(()));
    let found: Vec<(&str, usize, &str, Option<&str>, Option<&str>)> = stop_times
        .iter()
        .map(|s| {
            (
                s.trip.as_str(),
                s.sequence,
                s.stop.as_str(),
                s.arrival.as_deref(),
                s.departure.as_deref(),
            )
        })
        .collect();
    assert_eq!(
        found,
        vec![
            ("EU_a", 1, "EU_s2", Some("0000-01-01T00:01:00"), Some("0000-01-01T00:01:01")),
            ("EU_b", 2, "EU_s1", None, Some("0000-01-01T01:00:00")),
            ("EU_b", 10, "EU_s3", Some("0000-01-01T02:00:00"), None),
        ]
    );
}

#[test]
fn stop_time_past_the_first_month_is_refused() {
    let mut feed = empty_feed();
    feed.trips.push(trip("a", "r", "s", vec![call("s", Some(31 * 86400 - 1), None, 1)]));
    let mut stop_times = Vec::new();
    assert_eq!(align_stop_time(&feed, &mut stop_times, TT::Urban), Ok(()));
    assert_eq!(stop_times[0].arrival, Some("0000-01-31T23:59:59".to_string()));
    feed.trips.push(trip("b", "r", "s", vec![call("s", None, Some(31 * 86400), 1)]));
    let mut stop_times = Vec::new();
    assert_eq!(align_stop_time(&feed, &mut stop_times, TT::Urban), Err(AlignError::InvalidDate));
    assert!(stop_times.is_empty());
}

#[test]
fn trips_carry_namespaced_references() {
    let mut feed = empty_feed();
    let mut t = trip("7", "r1", "feriale", Vec::new());
    t.direction_id = Some(DirectionType::Inbound);
    t.bikes_allowed = BikesAllowedType::AtLeastOneBike;
    t.wheelchair_accessible = Availability::InformationNotAvailable;
    feed.trips.push(t);
    feed.trips.push(trip("3", "r2", "festivo", Vec::new()));
    let mut trips = Vec::new();
    assert_eq!(align_trip(&feed, &mut trips, TT::Urban), Ok(()));
    assert_eq!(trips.len(), 2);
    assert_eq!(trips[0].id, "U_3");
    assert_eq!(trips[0].route, "U_r2");
    assert_eq!(trips[0].calendar, "U_festivo");
    assert_eq!(trips[0].name, "to 3");
    assert_eq!(trips[0].direction, KdiDirectionEnum::Outbound);
    assert_eq!(trips[0].wheelchair, KdiSupportedEnum::Supported);
    assert_eq!(trips[0].bike, KdiSupportedEnum::NotSupported);
    assert_eq!(trips[1].id, "U_7");
    assert_eq!(trips[1].direction, KdiDirectionEnum::Inbound);
    assert_eq!(trips[1].wheelchair, KdiSupportedEnum::Unknown);
    assert_eq!(trips[1].bike, KdiSupportedEnum::Supported);
}

#[test]
fn trip_without_headsign_or_direction_is_malformed() {
    let mut feed = empty_feed();
    let mut t = trip("7", "r1", "s", Vec::new());
    t.trip_headsign = None;
    feed.trips.push(t);
    let mut trips = Vec::new();
    assert_eq!(align_trip(&feed, &mut trips, TT::Urban), Err(AlignError::MissingField));
    feed.trips[0].trip_headsign = Some("x".to_string());
    feed.trips[0].direction_id = None;
    assert_eq!(align_trip(&feed, &mut trips, TT::Urban), Err(AlignError::MissingField));
    assert!(trips.is_empty());
}

#[test]
fn routes_map_their_kind_to_a_mode() {
    let mut feed = empty_feed();
    feed.routes.push(route("3", RouteType::CableCar));
    feed.routes.push(route("1", RouteType::Rail));
    feed.routes.push(route("2", RouteType::Bus));
    let mut routes = Vec::new();
    assert_eq!(align_route(&feed, &mut routes, TT::ExtraUrban), Ok(()));
    let found: Vec<(&str, KdiTransportEnum)> =
        routes.iter().map(|r| (r.id.as_str(), r.transport)).collect();
    assert_eq!(
        found,
        vec![
            ("EU_1", KdiTransportEnum::Rail),
            ("EU_2", KdiTransportEnum::Bus),
            ("EU_3", KdiTransportEnum::CableCar),
        ]
    );
    assert_eq!(routes[0].agency, "12");
    assert_eq!(routes[0].short_name, "short 1");
    assert_eq!(routes[0].long_name, "long 1");
}

#[test]
fn route_of_a_kind_outside_the_model_is_refused() {
    for kind in [
        RouteType::Tramway,
        RouteType::Subway,
        RouteType::Ferry,
        RouteType::Gondola,
        RouteType::Funicular,
        RouteType::Other(2),
        RouteType::Other(700),
    ] {
        let mut feed = empty_feed();
        feed.routes.push(route("1", RouteType::Bus));
        feed.routes.push(route("2", kind));
        let mut routes = Vec::new();
        assert_eq!(
            align_route(&feed, &mut routes, TT::Urban),
            Err(AlignError::UnsupportedCode),
            "{:?}",
            kind
        );
        assert!(routes.is_empty());
    }
}

#[test]
fn route_without_agency_is_malformed() {
    let mut feed = empty_feed();
    let mut r = route("1", RouteType::Tramway);
    r.agency_id = None;
    feed.routes.push(r);
    let mut routes = Vec::new();
    assert_eq!(align_route(&feed, &mut routes, TT::Urban), Err(AlignError::MissingField));
}

#[test]
fn agency_is_that_of_the_urban_feed() {
    let mut urban = empty_feed();
    urban.agencies.push(GtfsAgency {
        id: Some("12".to_string()),
        name: "Trentino trasporti".to_string(),
        url: "https://www.trentinotrasporti.it".to_string(),
        phone: Some("+39 0461 821000".to_string()),
    });
    let mut extra_urban = empty_feed();
    extra_urban.agencies.push(GtfsAgency {
        id: Some("99".to_string()),
        name: "other".to_string(),
        url: "https://example.org".to_string(),
        phone: None,
    });
    let mut agencies = Vec::new();
    assert_eq!(align_agency(&urban, &extra_urban, &mut agencies), Ok(()));
    assert_eq!(agencies.len(), 1);
    assert_eq!(agencies[0].id, "12");
    assert_eq!(agencies[0].name, "Trentino trasporti");
    assert_eq!(agencies[0].email, "info@trentinotrasporti.it");
    assert_eq!(agencies[0].phone, "+39 0461 821000");
    assert_eq!(agencies[0].url, "https://www.trentinotrasporti.it");
}

#[test]
fn each_feed_must_name_exactly_one_agency() {
    let agency = || GtfsAgency {
        id: Some("12".to_string()),
        name: "n".to_string(),
        url: "u".to_string(),
        phone: Some("p".to_string()),
    };
    let mut one = empty_feed();
    one.agencies.push(agency());
    let mut two = empty_feed();
    two.agencies.push(agency());
    two.agencies.push(agency());
    let none = empty_feed();
    let mut agencies = Vec::new();
    assert_eq!(align_agency(&one, &none, &mut agencies), Err(AlignError::AgencyCount));
    assert_eq!(align_agency(&none, &one, &mut agencies), Err(AlignError::AgencyCount));
    assert_eq!(align_agency(&two, &one, &mut agencies), Err(AlignError::AgencyCount));
    assert_eq!(align_agency(&one, &two, &mut agencies), Err(AlignError::AgencyCount));
    assert!(agencies.is_empty());
    assert_eq!(align_agency(&one, &one, &mut agencies), Ok(()));
    assert_eq!(agencies.len(), 1);
}

#[test]
fn agency_without_identifier_or_telephone_is_malformed() {
    let mut urban = empty_feed();
    urban.agencies.push(GtfsAgency {
        id: None,
        name: "n".to_string(),
        url: "u".to_string(),
        phone: Some("p".to_string()),
    });
    let mut agencies = Vec::new();
    assert_eq!(align_agency(&urban, &urban, &mut agencies), Err(AlignError::MissingField));
    urban.agencies[0].id = Some("1".to_string());
    urban.agencies[0].phone = None;
    assert_eq!(align_agency(&urban, &urban, &mut agencies), Err(AlignError::MissingField));
    assert!(agencies.is_empty());
}

#[test]
fn source_order_does_not_show_in_the_merged_routes() {
    let mut first = empty_feed();
    let mut second = empty_feed();
    let kinds = [RouteType::Bus, RouteType::Rail, RouteType::CableCar, RouteType::Bus];
    let ids = ["9", "10", "a", "B"];
    for i in 0..4 {
        first.routes.push(route(ids[i], kinds[i]));
    }
    for i in [2usize, 0, 3, 1] {
        second.routes.push(route(ids[i], kinds[i]));
    }
    let mut routes_first = Vec::new();
    let mut routes_second = Vec::new();
    assert_eq!(align_route(&first, &mut routes_first, TT::Urban), Ok(()));
    assert_eq!(align_route(&second, &mut routes_second, TT::Urban), Ok(()));
    let a: Vec<(&str, &str, KdiTransportEnum)> =
        routes_first.iter().map(|r| (r.id.as_str(), r.short_name.as_str(), r.transport)).collect();
    let b: Vec<(&str, &str, KdiTransportEnum)> =
        routes_second.iter().map(|r| (r.id.as_str(), r.short_name.as_str(), r.transport)).collect();
    assert_eq!(a, b);
    assert_eq!(a.iter().map(|r| r.0).collect::<Vec<_>>(), vec!["U_10", "U_9", "U_B", "U_a"]);
}
