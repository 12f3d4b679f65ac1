use kdi_alignment::kdi::enums::{KdiExceptionEnum, KdiTransportEnum};
use kdi_alignment::kdi::order::{sort, Keyed};
use kdi_alignment::kdi::structs::{
    KdiCalendarException, KdiFareRule, KdiLocation, KdiRoute, KdiStopTime,
};

fn location(id: &str, name: &str) -> KdiLocation {
    KdiLocation {
        id: id.to_string(),
        name: name.to_string(),
        latitude: "0".to_string(),
        longitude: "0".to_string(),
    }
}

fn rule(fare: &str, origin: &str) -> KdiFareRule {
    KdiFareRule {
        fare: fare.to_string(),
        origin: origin.to_string(),
        destination: "d".to_string(),
    }
}

fn stop_time(trip: &str, sequence: usize) -> KdiStopTime {
    KdiStopTime {
        trip: trip.to_string(),
        stop: format!("{}@{}", trip, sequence),
        arrival: None,
        departure: None,
        sequence,
    }
}

fn exception(calendar: &str, date: &str) -> KdiCalendarException {
    KdiCalendarException {
        calendar: calendar.to_string(),
        date: date.to_string(),
        exception: KdiExceptionEnum::Added,
    }
}

#[test]
fn sort_orders_by_key() {
    let mut v = vec![
        location("U_2", "a"),
        location("EU_1", "b"),
        location("ZONE_U_1", "c"),
        location("CS_10", "d"),
        location("CS_2", "e"),
    ];
    sort(&mut v);
    let ids: Vec<&str> = v.iter().map(|l| l.id.as_str()).collect();
    assert_eq!(ids, vec!["CS_10", "CS_2", "EU_1", "U_2", "ZONE_U_1"]);
    let names: Vec<&str> = v.iter().map(|l| l.name.as_str()).collect();
    assert_eq!(names, vec!["d", "e", "b", "a", "c"]);
}

#[test]
fn sort_handles_short_collections() {
    let mut none: Vec<KdiLocation> = Vec::new();
    sort(&mut none);
    assert!(none.is_empty());
    let mut one = vec![location("a", "x")];
    sort(&mut one);
    assert_eq!(one.len(), 1);
    assert_eq!(one[0].id, "a");
    let mut two = vec![location("b", "x"), location("a", "y")];
    sort(&mut two);
    assert_eq!(two[0].id, "a");
    assert_eq!(two[1].id, "b");
}

#[test]
fn sort_leaves_ties_in_their_order() {
    let mut v = Vec::new();
    for i in 0..50usize {
        v.push(rule(&format!("f{}", i % 3), &format!("{}", i)));
    }
    sort(&mut v);
    let found: Vec<(String, usize)> =
        v.iter().map(|r| (r.fare.clone(), r.origin.parse::<usize>().unwrap())).collect();
    let mut expected: Vec<(String, usize)> =
        (0..50usize).map(|i| (format!("f{}", i % 3), i)).collect();
    expected.sort_by(|a, b| a.0.cmp(&b.0));
    assert_eq!(found, expected);
}

#[test]
fn sort_agrees_with_the_standard_stable_sort() {
    let mut seed: u64 = 12345;
    let mut v = Vec::new();
    let mut reference = Vec::new();
    for i in 0..500usize {
        seed = seed.wrapping_mul(6364136223846793005).wrapping_add(1442695040888963407);
        let trip = format!("t{}", (seed >> 33) % 7);
        seed = seed.wrapping_mul(6364136223846793005).wrapping_add(1442695040888963407);
        let sequence = ((seed >> 33) % 5) as usize;
        let mut st = stop_time(&trip, sequence);
        st.stop = format!("{}", i);
        reference.push((trip, sequence, i));
        v.push(st);
    }
    sort(&mut v);
    reference.sort_by(|a, b| a.0.cmp(&b.0).then(a.1.cmp(&b.1)));
    let found: Vec<(String, usize, usize)> =
        v.iter().map(|s| (s.trip.clone(), s.sequence, s.stop.parse::<usize>().unwrap())).collect();
    assert_eq!(found, reference);
}

#[test]
fn stop_times_compare_by_trip_then_by_sequence() {
    assert!(stop_time("a", 9).le(&stop_time("b", 1)));
    assert!(!stop_time("b", 1).le(&stop_time("a", 9)));
    assert!(stop_time("a", 2).le(&stop_time("a", 10)));
    assert!(!stop_time("a", 10).le(&stop_time("a", 2)));
    assert!(stop_time("a", 2).le(&stop_time("a", 2)));
}

#[test]
fn calendar_exceptions_compare_by_calendar_then_by_date() {
    assert!(exception("a", "2021-02-01T00:00:00").le(&exception("b", "2021-01-01T00:00:00")));
    assert!(exception("a", "2021-01-01T00:00:00").le(&exception("a", "2021-02-01T00:00:00")));
    assert!(!exception("a", "2021-02-01T00:00:00").le(&exception("a", "2021-01-01T00:00:00")));
    assert!(exception("a", "x").le(&exception("a", "x")));
}

#[test]
fn fare_rules_compare_by_fare_alone() {
    assert!(rule("a", "9").le(&rule("a", "1")));
    assert!(rule("a", "1").le(&rule("a", "9")));
    assert!(rule("a", "9").le(&rule("b", "1")));
    assert!(!rule("b", "1").le(&rule("a", "9")));
}

#[test]
fn routes_compare_by_identifier() {
    let route = |id: &str| KdiRoute {
        id: id.to_string(),
        agency: "z".to_string(),
        short_name: "z".to_string(),
        long_name: "z".to_string(),
        transport: KdiTransportEnum::Bus,
    };
    assert!(route("U_1").le(&route("U_2")));
    assert!(!route("U_2").le(&route("U_1")));
    assert!(route("EU_9").le(&route("U_1")));
}
