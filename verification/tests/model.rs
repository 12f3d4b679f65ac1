use kdi_alignment::kdi::align::TT;
use kdi_alignment::kdi::enums::{KdiCurrencyEnum, KdiFareEnum, KdiPaymentEnum};
use kdi_alignment::kdi::error::AlignError;
use kdi_alignment::kdi::gtfs::{
    Availability, BikesAllowedType, DirectionType, Exception, Gtfs, GtfsAgency, GtfsCalendar,
    GtfsCalendarDate, GtfsDate, GtfsRoute, GtfsStop, GtfsStopTime, GtfsTrip, RouteType,
};
use kdi_alignment::kdi::kml::{
    Document, ExtendedData, Folder, Kml, Placemark, Point, SchemaData, SimpleData,
};
use kdi_alignment::kdi::model::{align_model, KdiModel, PoiSources, TierSources};
use kdi_alignment::kdi::structs::{KdiFare, KdiFareRuleRow, KdiZone};

fn code(tt: TT) -> &'static str {
    match tt {
        TT::Urban => "u",
        TT::ExtraUrban => "e",
    }
}

fn feed(tt: TT) -> Gtfs {
    let c = code(tt);
    let stop = |id: &str, zone: Option<&str>| GtfsStop {
        id: id.to_string(),
        name: format!("{} stop {}", c, id),
        latitude: Some("46.07".to_string()),
        longitude: Some("11.12".to_string()),
        zone_id: zone.map(|z| z.to_string()),
        wheelchair_boarding: Availability::Available,
    };
    let call = |stop: &str, time: u32, sequence: u32| GtfsStopTime {
        stop_id: stop.to_string(),
        arrival_time: Some(time),
        departure_time: Some(time + 30),
        stop_sequence: sequence,
    };
    let trip = |id: &str, route: &str, service: &str, calls: Vec<GtfsStopTime>| GtfsTrip {
        id: id.to_string(),
        route_id: route.to_string(),
        service_id: service.to_string(),
        trip_headsign: Some(format!("{} trip {}", c, id)),
        direction_id: Some(DirectionType::Inbound),
        wheelchair_accessible: Availability::NotAvailable,
        bikes_allowed: BikesAllowedType::NoBikeInfo,
        stop_times: calls,
    };
    let route = |id: &str, kind: RouteType| GtfsRoute {
        id: id.to_string(),
        agency_id: Some("12".to_string()),
        short_name: id.to_string(),
        long_name: format!("{} line {}", c, id),
        route_type: kind,
    };
    let calendar = |id: &str| GtfsCalendar {
        id: id.to_string(),
        start_date: GtfsDate { year: 2020, month: 9, day: 14 },
        end_date: GtfsDate { year: 2021, month: 6, day: 10 },
        monday: true,
        tuesday: true,
        wednesday: true,
        thursday: true,
        friday: true,
        saturday: false,
        sunday: false,
    };
    Gtfs {
        agencies: vec![GtfsAgency {
            id: Some("12".to_string()),
            name: format!("{} agency", c),
            url: "https://example.org".to_string(),
            phone: Some("0461".to_string()),
        }],
        stops: vec![stop("12", Some("0001")), stop("7", None), stop("100", Some("0002"))],
        routes: vec![route("B", RouteType::Bus), route("A", RouteType::Rail)],
        trips: vec![
            trip("t2", "A", "feriale", vec![call("7", 90000, 2), call("12", 86000, 1)]),
            trip("t1", "B", "festivo", vec![call("100", 3600, 1)]),
        ],
        calendar: vec![calendar("festivo"), calendar("feriale")],
        calendar_dates: vec![
            GtfsCalendarDate {
                service_id: "feriale".to_string(),
                date: GtfsDate { year: 2020, month: 12, day: 25 },
                exception_type: Exception::Deleted,
            },
            GtfsCalendarDate {
                service_id: "festivo".to_string(),
                date: GtfsDate { year: 2020, month: 12, day: 25 },
                exception_type: Exception::Added,
            },
        ],
    }
}

fn tier(tt: TT) -> TierSources {
    let zone = |id: &str| KdiZone {
        id: id.to_string(),
        name: format!("zone {}", id),
        latitude: "46.0".to_string(),
        longitude: "11.0".to_string(),
    };
    let rule = |fare: &str, origin: Option<&str>, destination: Option<&str>| KdiFareRuleRow {
        fare: fare.to_string(),
        origin: origin.map(|z| z.to_string()),
        destination: destination.map(|z| z.to_string()),
    };
    let fare = |id: &str, price: &str| KdiFare {
        id: id.to_string(),
        price: price.to_string(),
        currency: KdiCurrencyEnum::EUR,
        ftype: KdiFareEnum::default(),
        payment: KdiPaymentEnum::OnBoard,
        duration: 90,
    };
    TierSources {
        gtfs: feed(tt),
        zones: vec![zone("0002"), zone("0001")],
        fare_rules_cash: vec![rule("1", Some("0001"), Some("0002")), rule("2", None, None)],
        fare_rules_card: vec![rule("1", Some("0002"), None)],
        fare_rules_mobile: vec![],
        fares_cash: vec![fare("2", "2.00"), fare("1", "1.20")],
        fares_card: vec![fare("1", "0.90")],
        fares_mobile: vec![fare("1", "1.10")],
    }
}

fn kml(prefix: &str, n: usize) -> Kml {
    let names = ["nomepos", "desc", "park", "nome", "via", "indirizzo"];
    let counts = ["auto", "cicloposteggi", "posti"];
    let mut placemarks = Vec::new();
    for i in 0..n {
        let mut datas = Vec::new();
        for name in names {
            datas.push(SimpleData {
                name: name.to_string(),
                value: format!("{} {} {}", prefix, name, i),
            });
        }
        for count in counts {
            datas.push(SimpleData { name: count.to_string(), value: format!("{}", i + 2) });
        }
        placemarks.push(Placemark {
            point: Point { coordinates: format!("11.{},46.{}", i, i) },
            extended_data: ExtendedData { schema_data: SchemaData { simple_datas: datas } },
        });
    }
    Kml { document: Document { folder: Folder { name: prefix.to_string(), placemarks } } }
}

fn poi() -> PoiSources {
    PoiSources {
        car_sharing: kml("cars", 2),
        centro_in_bici: kml("bikes", 1),
        parcheggio_protetto_biciclette: kml("parks", 1),
        taxi: kml("taxi", 2),
    }
}

fn shuffled(mut t: TierSources) -> TierSources {
    t.gtfs.stops.reverse();
    t.gtfs.routes.reverse();
    t.gtfs.trips.reverse();
    t.gtfs.calendar.reverse();
    t.gtfs.calendar_dates.reverse();
    t
}

fn summary(m: &KdiModel) -> Vec<String> {
    let mut out = Vec::new();
    out.push(format!("{:?}", m.locations));
    out.push(format!("{:?}", m.calendar_exceptions));
    out.push(format!("{:?}", m.calendars));
    out.push(format!("{:?}", m.agencies));
    out.push(format!("{:?}", m.fare_rules));
    out.push(format!("{:?}", m.parking_stops));
    out.push(format!("{:?}", m.fares));
    out.push(format!("{:?}", m.public_transport_stops));
    out.push(format!("{:?}", m.stop_times));
    out.push(format!("{:?}", m.trips));
    out.push(format!("{:?}", m.routes));
    out
}

#[test]
fn model_holds_every_collection_sorted() {
    let m = align_model(&tier(TT::Urban), &tier(TT::ExtraUrban), &poi()).unwrap();
    let ids: Vec<&str> = m.locations.iter().map(|l| l.id.as_str()).collect();
    assert_eq!(
        ids,
        vec![
            "CIB_0", "CS_0", "CS_1", "EU_100", "EU_12", "EU_7", "PPB_0", "TX_0", "TX_1", "U_100",
            "U_12", "U_7", "ZONE_EU_0001", "ZONE_EU_0002", "ZONE_U_0001", "ZONE_U_0002"
        ]
    );
    let exceptions: Vec<(&str, &str)> =
        m.calendar_exceptions.iter().map(|e| (e.calendar.as_str(), e.date.as_str())).collect();
    assert_eq!(
        exceptions,
        vec![
            ("EU_feriale", "2020-12-25T00:00:00"),
            ("EU_festivo", "2020-12-25T00:00:00"),
            ("U_feriale", "2020-12-25T00:00:00"),
            ("U_festivo", "2020-12-25T00:00:00"),
        ]
    );
    let calendars: Vec<&str> = m.calendars.iter().map(|c| c.id.as_str()).collect();
    assert_eq!(calendars, vec!["EU_feriale", "EU_festivo", "U_feriale", "U_festivo"]);
    assert_eq!(m.agencies.len(), 1);
    assert_eq!(m.agencies[0].name, "u agency");
    let rules: Vec<(&str, &str, &str)> = m
        .fare_rules
        .iter()
        .map(|r| (r.fare.as_str(), r.origin.as_str(), r.destination.as_str()))
        .collect();
    assert_eq!(
        rules,
        vec![
            ("EU_1", "ZONE_EU_0001", "ZONE_EU_0002"),
            ("EU_1", "ZONE_EU_0002", "ZONE_EU_0001"),
            ("EU_2", "ZONE_EU_0001", "ZONE_EU_0001"),
            ("U_1", "ZONE_U_0001", "ZONE_U_0002"),
            ("U_1", "ZONE_U_0002", "ZONE_U_0001"),
            ("U_2", "ZONE_U_0001", "ZONE_U_0001"),
        ]
    );
    let parking: Vec<(&str, usize)> =
        m.parking_stops.iter().map(|p| (p.location.as_str(), p.total_slots)).collect();
    assert_eq!(
        parking,
        vec![("CIB_0", 2), ("CS_0", 2), ("CS_1", 3), ("PPB_0", 2), ("TX_0", 1), ("TX_1", 1)]
    );
    let fares: Vec<(&str, KdiFareEnum, &str)> =
        m.fares.iter().map(|f| (f.id.as_str(), f.ftype, f.price.as_str())).collect();
    assert_eq!(
        fares,
        vec![
            ("EU_1", KdiFareEnum::Cash, "1.20"),
            ("EU_1", KdiFareEnum::Cartascalare, "0.90"),
            ("EU_1", KdiFareEnum::Mobile, "1.10"),
            ("EU_2", KdiFareEnum::Cash, "2.00"),
            ("U_1", KdiFareEnum::Cash, "1.20"),
            ("U_1", KdiFareEnum::Cartascalare, "0.90"),
            ("U_1", KdiFareEnum::Mobile, "1.10"),
            ("U_2", KdiFareEnum::Cash, "2.00"),
        ]
    );
    let stops: Vec<(&str, Option<&str>)> = m
        .public_transport_stops
        .iter()
        .map(|s| (s.location.as_str(), s.zone.as_deref()))
        .collect();
    assert_eq!(
        stops,
        vec![
            ("EU_100", Some("ZONE_EU_0002")),
            ("EU_12", Some("ZONE_EU_0001")),
            ("EU_7", None),
            ("U_100", Some("ZONE_U_0002")),
            ("U_12", Some("ZONE_U_0001")),
            ("U_7", None),
        ]
    );
    let calls: Vec<(&str, usize, &str, Option<&str>)> = m
        .stop_times
        .iter()
        .map(|s| (s.trip.as_str(), s.sequence, s.stop.as_str(), s.arrival.as_deref()))
        .collect();
    assert_eq!(
        calls,
        vec![
            ("EU_t1", 1, "EU_100", Some("0000-01-01T01:00:00")),
            ("EU_t2", 1, "EU_12", Some("0000-01-01T23:53:20")),
            ("EU_t2", 2, "EU_7", Some("0000-01-02T01:00:00")),
            ("U_t1", 1, "U_100", Some("0000-01-01T01:00:00")),
            ("U_t2", 1, "U_12", Some("0000-01-01T23:53:20")),
            ("U_t2", 2, "U_7", Some("0000-01-02T01:00:00")),
        ]
    );
    let trips: Vec<(&str, &str, &str)> =
        m.trips.iter().map(|t| (t.id.as_str(), t.route.as_str(), t.calendar.as_str())).collect();
    assert_eq!(
        trips,
        vec![
            ("EU_t1", "EU_B", "EU_festivo"),
            ("EU_t2", "EU_A", "EU_feriale"),
            ("U_t1", "U_B", "U_festivo"),
            ("U_t2", "U_A", "U_feriale"),
        ]
    );
    let routes: Vec<&str> = m.routes.iter().map(|r| r.id.as_str()).collect();
    assert_eq!(routes, vec!["EU_A", "EU_B", "U_A", "U_B"]);
}

#[test]
fn references_of_the_model_resolve() {
    let m = align_model(&tier(TT::Urban), &tier(TT::ExtraUrban), &poi()).unwrap();
    for t in &m.trips {
        assert!(m.routes.iter().any(|r| r.id == t.route), "{}", t.route);
        assert!(m.calendars.iter().any(|c| c.id == t.calendar), "{}", t.calendar);
    }
    for s in &m.stop_times {
        assert!(m.trips.iter().any(|t| t.id == s.trip), "{}", s.trip);
        assert!(m.locations.iter().any(|l| l.id == s.stop), "{}", s.stop);
    }
    for r in &m.fare_rules {
        assert!(m.locations.iter().any(|l| l.id == r.origin), "{}", r.origin);
        assert!(m.locations.iter().any(|l| l.id == r.destination), "{}", r.destination);
    }
    for p in &m.parking_stops {
        assert!(m.locations.iter().any(|l| l.id == p.location), "{}", p.location);
    }
    for s in &m.public_transport_stops {
        assert!(m.locations.iter().any(|l| l.id == s.location), "{}", s.location);
    }
    for e in &m.calendar_exceptions {
        assert!(m.calendars.iter().any(|c| c.id == e.calendar), "{}", e.calendar);
    }
}

#[test]
fn location_identifiers_are_unique() {
    let m = align_model(&tier(TT::Urban), &tier(TT::ExtraUrban), &poi()).unwrap();
    for (i, a) in m.locations.iter().enumerate() {
        for (j, b) in m.locations.iter().enumerate() {
            assert_eq!(a.id == b.id, i == j);
        }
    }
}

#[test]
fn running_twice_gives_the_same_model() {
    let first = align_model(&tier(TT::Urban), &tier(TT::ExtraUrban), &poi()).unwrap();
    let second = align_model(&tier(TT::Urban), &tier(TT::ExtraUrban), &poi()).unwrap();
    assert_eq!(summary(&first), summary(&second));
}

#[test]
fn order_of_the_feeds_does_not_show_in_the_model() {
    let first = align_model(&tier(TT::Urban), &tier(TT::ExtraUrban), &poi()).unwrap();
    let second =
        align_model(&shuffled(tier(TT::Urban)), &shuffled(tier(TT::ExtraUrban)), &poi()).unwrap();
    assert_eq!(summary(&first), summary(&second));
    let mut partly = tier(TT::Urban);
    partly.gtfs.trips.swap(0, 1);
    partly.gtfs.stops.swap(0, 2);
    let third = align_model(&partly, &shuffled(tier(TT::ExtraUrban)), &poi()).unwrap();
    assert_eq!(summary(&first), summary(&third));
}

#[test]
fn first_fault_ends_the_run() {
    let mut urban = tier(TT::Urban);
    urban.gtfs.routes[0].route_type = RouteType::Ferry;
    assert_eq!(
        align_model(&urban, &tier(TT::ExtraUrban), &poi()).err(),
        Some(AlignError::UnsupportedCode)
    );
    urban.gtfs.trips[0].stop_times[0].arrival_time = Some(40 * 86400);
    assert_eq!(
        align_model(&urban, &tier(TT::ExtraUrban), &poi()).err(),
        Some(AlignError::InvalidDate)
    );
    urban.fares_card[0].price = "cheap".to_string();
    assert_eq!(
        align_model(&urban, &tier(TT::ExtraUrban), &poi()).err(),
        Some(AlignError::MalformedNumber)
    );
    urban.gtfs.agencies.clear();
    assert_eq!(
        align_model(&urban, &tier(TT::ExtraUrban), &poi()).err(),
        Some(AlignError::AgencyCount)
    );
    let mut points = poi();
    points.taxi.document.folder.placemarks[1].point.coordinates = "1,2,3".to_string();
    assert_eq!(
        align_model(&urban, &tier(TT::ExtraUrban), &points).err(),
        Some(AlignError::CoordinateArity)
    );
    let mut extra_urban = tier(TT::ExtraUrban);
    extra_urban.gtfs.stops[2].latitude = None;
    assert_eq!(
        align_model(&urban, &extra_urban, &points).err(),
        Some(AlignError::MissingField)
    );
}

#[test]
fn fault_of_the_extra_urban_tier_comes_before_that_of_the_urban_tier() {
    let mut urban = tier(TT::Urban);
    urban.gtfs.routes[0].agency_id = None;
    let mut extra_urban = tier(TT::ExtraUrban);
    extra_urban.gtfs.routes[1].route_type = RouteType::Subway;
    assert_eq!(
        align_model(&urban, &extra_urban, &poi()).err(),
        Some(AlignError::UnsupportedCode)
    );
    assert_eq!(
        align_model(&urban, &tier(TT::ExtraUrban), &poi()).err(),
        Some(AlignError::MissingField)
    );
}

#[test]
fn empty_sources_give_an_empty_model_but_for_the_agency() {
    let empty = |tt: TT| {
        let mut t = tier(tt);
        t.gtfs.stops.clear();
        t.gtfs.routes.clear();
        t.gtfs.trips.clear();
        t.gtfs.calendar.clear();
        t.gtfs.calendar_dates.clear();
        t.zones.clear();
        t.fare_rules_cash.clear();
        t.fare_rules_card.clear();
        t.fares_cash.clear();
        t.fares_card.clear();
        t.fares_mobile.clear();
        t
    };
    let points = PoiSources {
        car_sharing: kml("a", 0),
        centro_in_bici: kml("b", 0),
        parcheggio_protetto_biciclette: kml("c", 0),
        taxi: kml("d", 0),
    };
    let m = align_model(&empty(TT::Urban), &empty(TT::ExtraUrban), &points).unwrap();
    assert!(m.locations.is_empty());
    assert!(m.calendar_exceptions.is_empty());
    assert!(m.calendars.is_empty());
    assert_eq!(m.agencies.len(), 1);
    assert!(m.fare_rules.is_empty());
    assert!(m.parking_stops.is_empty());
    assert!(m.fares.is_empty());
    assert!(m.public_transport_stops.is_empty());
    assert!(m.stop_times.is_empty());
    assert!(m.trips.is_empty());
    assert!(m.routes.is_empty());
}

#[test]
fn numbers_of_the_model_are_numbers() {
    let m = align_model(&tier(TT::Urban), &tier(TT::ExtraUrban), &poi()).unwrap();
    for l in &m.locations {
        assert!(l.latitude.parse::<f64>().is_ok(), "{}", l.latitude);
        assert!(l.longitude.parse::<f64>().is_ok(), "{}", l.longitude);
    }
    for f in &m.fares {
        assert!(f.price.parse::<f64>().is_ok(), "{}", f.price);
    }
    let car = m.locations.iter().find(|l| l.id == "CS_1").unwrap();
    assert_eq!(car.longitude.parse::<f64>().unwrap(), 11.1);
    assert_eq!(car.latitude.parse::<f64>().unwrap(), 46.1);
}
