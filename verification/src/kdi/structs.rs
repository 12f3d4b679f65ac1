//! The entities of the model and the rows of the fare tables.
use crate::kdi::enums::{
    KdiCurrencyEnum, KdiDirectionEnum, KdiExceptionEnum, KdiFareEnum, KdiParkingStopEnum,
    KdiPaymentEnum, KdiSupportedEnum, KdiTransportEnum,
};
use crate::kdi::order::{
    pair_key, ranked_key, ranked_key_le, text_key, text_key_le, text_pair_key_le, Keyed, SortKey,
};
use vstd::prelude::*;

verus! {

/// A place of the model: a fare zone, a stop or a point of interest. The
/// coordinates are number literals.
#[derive(Debug)]
pub struct KdiLocation {
    pub id: String,
    pub name: String,
    pub latitude: String,
    pub longitude: String,
}

/// What a `KdiLocation` holds.
pub struct KdiLocationView {
    pub id: Seq<char>,
    pub name: Seq<char>,
    pub latitude: Seq<char>,
    pub longitude: Seq<char>,
}

impl DeepView for KdiLocation {
    type V = KdiLocationView;

    open spec fn deep_view(&self) -> KdiLocationView {
        KdiLocationView {
            id: self.id@,
            name: self.name@,
            latitude: self.latitude@,
            longitude: self.longitude@,
        }
    }
}

impl Keyed for KdiLocation {
    /// Ordered by `id`.
    open spec fn sort_key(v: KdiLocationView) -> SortKey {
        text_key(v.id)
    }

    fn le(&self, other: &Self) -> (r: bool) {
        text_key_le(self.id.as_str(), other.id.as_str())
    }
}

/// One date on which a service pattern runs or does not run, whatever its
/// week says.
#[derive(Debug)]
pub struct KdiCalendarException {
    pub calendar: String,
    pub date: String,
    pub exception: KdiExceptionEnum,
}

/// What a `KdiCalendarException` holds.
pub struct KdiCalendarExceptionView {
    pub calendar: Seq<char>,
    pub date: Seq<char>,
    pub exception: KdiExceptionEnum,
}

impl DeepView for KdiCalendarException {
    type V = KdiCalendarExceptionView;

    open spec fn deep_view(&self) -> KdiCalendarExceptionView {
        KdiCalendarExceptionView {
            calendar: self.calendar@,
            date: self.date@,
            exception: self.exception,
        }
    }
}

impl Keyed for KdiCalendarException {
    /// Ordered by `calendar`, then by `date`.
    open spec fn sort_key(v: KdiCalendarExceptionView) -> SortKey {
        pair_key(v.calendar, v.date)
    }

    fn le(&self, other: &Self) -> (r: bool) {
        text_pair_key_le(
            self.calendar.as_str(),
            self.date.as_str(),
            other.calendar.as_str(),
            other.date.as_str(),
        )
    }
}

/// A service pattern: the days of the week on which it runs, between two dates.
#[derive(Debug)]
pub struct KdiCalendar {
    pub id: String,
    pub start_date: String,
    pub end_date: String,
    pub monday: bool,
    pub tuesday: bool,
    pub wednesday: bool,
    pub thursday: bool,
    pub friday: bool,
    pub saturday: bool,
    pub sunday: bool,
}

/// What a `KdiCalendar` holds.
pub struct KdiCalendarView {
    pub id: Seq<char>,
    pub start_date: Seq<char>,
    pub end_date: Seq<char>,
    pub monday: bool,
    pub tuesday: bool,
    pub wednesday: bool,
    pub thursday: bool,
    pub friday: bool,
    pub saturday: bool,
    pub sunday: bool,
}

impl DeepView for KdiCalendar {
    type V = KdiCalendarView;

    open spec fn deep_view(&self) -> KdiCalendarView {
        KdiCalendarView {
            id: self.id@,
            start_date: self.start_date@,
            end_date: self.end_date@,
            monday: self.monday,
            tuesday: self.tuesday,
            wednesday: self.wednesday,
            thursday: self.thursday,
            friday: self.friday,
            saturday: self.saturday,
            sunday: self.sunday,
        }
    }
}

impl Keyed for KdiCalendar {
    /// Ordered by `id`.
    open spec fn sort_key(v: KdiCalendarView) -> SortKey {
        text_key(v.id)
    }

    fn le(&self, other: &Self) -> (r: bool) {
        text_key_le(self.id.as_str(), other.id.as_str())
    }
}

/// The operator of the networks.
#[derive(Debug)]
pub struct KdiAgency {
    pub id: String,
    pub name: String,
    pub email: String,
    pub phone: String,
    pub url: String,
}

/// What a `KdiAgency` holds.
pub struct KdiAgencyView {
    pub id: Seq<char>,
    pub name: Seq<char>,
    pub email: Seq<char>,
    pub phone: Seq<char>,
    pub url: Seq<char>,
}

impl DeepView for KdiAgency {
    type V = KdiAgencyView;

    open spec fn deep_view(&self) -> KdiAgencyView {
        KdiAgencyView {
            id: self.id@,
            name: self.name@,
            email: self.email@,
            phone: self.phone@,
            url: self.url@,
        }
    }
}

impl Keyed for KdiAgency {
    /// Ordered by `id`.
    open spec fn sort_key(v: KdiAgencyView) -> SortKey {
        text_key(v.id)
    }

    fn le(&self, other: &Self) -> (r: bool) {
        text_key_le(self.id.as_str(), other.id.as_str())
    }
}

/// The fare that applies between two zones.
#[derive(Debug)]
pub struct KdiFareRule {
    pub fare: String,
    pub origin: String,
    pub destination: String,
}

/// What a `KdiFareRule` holds.
pub struct KdiFareRuleView {
    pub fare: Seq<char>,
    pub origin: Seq<char>,
    pub destination: Seq<char>,
}

impl DeepView for KdiFareRule {
    type V = KdiFareRuleView;

    open spec fn deep_view(&self) -> KdiFareRuleView {
        KdiFareRuleView {
            fare: self.fare@,
            origin: self.origin@,
            destination: self.destination@,
        }
    }
}

impl Keyed for KdiFareRule {
    /// Ordered by `fare`.
    open spec fn sort_key(v: KdiFareRuleView) -> SortKey {
        text_key(v.fare)
    }

    fn le(&self, other: &Self) -> (r: bool) {
        text_key_le(self.fare.as_str(), other.fare.as_str())
    }
}

/// A fare as sold through one channel. The price is a number literal.
#[derive(Debug)]
pub struct KdiFare {
    pub id: String,
    pub price: String,
    pub currency: KdiCurrencyEnum,
    pub ftype: KdiFareEnum,
    pub payment: KdiPaymentEnum,
    pub duration: usize,
}

/// What a `KdiFare` holds.
pub struct KdiFareView {
    pub id: Seq<char>,
    pub price: Seq<char>,
    pub currency: KdiCurrencyEnum,
    pub ftype: KdiFareEnum,
    pub payment: KdiPaymentEnum,
    pub duration: usize,
}

impl DeepView for KdiFare {
    type V = KdiFareView;

    open spec fn deep_view(&self) -> KdiFareView {
        KdiFareView {
            id: self.id@,
            price: self.price@,
            currency: self.currency,
            ftype: self.ftype,
            payment: self.payment,
            duration: self.duration,
        }
    }
}

impl Keyed for KdiFare {
    /// Ordered by `id`.
    open spec fn sort_key(v: KdiFareView) -> SortKey {
        text_key(v.id)
    }

    fn le(&self, other: &Self) -> (r: bool) {
        text_key_le(self.id.as_str(), other.id.as_str())
    }
}

/// A point of interest where vehicles stand.
#[derive(Debug)]
pub struct KdiParkingStop {
    pub location: String,
    pub ptype: KdiParkingStopEnum,
    pub address: String,
    pub total_slots: usize,
}

/// What a `KdiParkingStop` holds.
pub struct KdiParkingStopView {
    pub location: Seq<char>,
    pub ptype: KdiParkingStopEnum,
    pub address: Seq<char>,
    pub total_slots: usize,
}

impl DeepView for KdiParkingStop {
    type V = KdiParkingStopView;

    open spec fn deep_view(&self) -> KdiParkingStopView {
        KdiParkingStopView {
            location: self.location@,
            ptype: self.ptype,
            address: self.address@,
            total_slots: self.total_slots,
        }
    }
}

impl Keyed for KdiParkingStop {
    /// Ordered by `location`.
    open spec fn sort_key(v: KdiParkingStopView) -> SortKey {
        text_key(v.location)
    }

    fn le(&self, other: &Self) -> (r: bool) {
        text_key_le(self.location.as_str(), other.location.as_str())
    }
}

/// A bike-sharing station with its occupancy.
#[derive(Debug)]
pub struct KdiBikeSharingStop {
    pub location: String,
    pub ptype: KdiParkingStopEnum,
    pub address: String,
    pub total_slots: usize,
    pub free_slots: usize,
    pub bikes: usize,
}

/// What a `KdiBikeSharingStop` holds.
pub struct KdiBikeSharingStopView {
    pub location: Seq<char>,
    pub ptype: KdiParkingStopEnum,
    pub address: Seq<char>,
    pub total_slots: usize,
    pub free_slots: usize,
    pub bikes: usize,
}

impl DeepView for KdiBikeSharingStop {
    type V = KdiBikeSharingStopView;

    open spec fn deep_view(&self) -> KdiBikeSharingStopView {
        KdiBikeSharingStopView {
            location: self.location@,
            ptype: self.ptype,
            address: self.address@,
            total_slots: self.total_slots,
            free_slots: self.free_slots,
            bikes: self.bikes,
        }
    }
}

impl Keyed for KdiBikeSharingStop {
    /// Ordered by `location`.
    open spec fn sort_key(v: KdiBikeSharingStopView) -> SortKey {
        text_key(v.location)
    }

    fn le(&self, other: &Self) -> (r: bool) {
        text_key_le(self.location.as_str(), other.location.as_str())
    }
}

/// A stop of a network, with its fare zone and the modes that serve it.
#[derive(Debug)]
pub struct KdiPublicTransportStop {
    pub location: String,
    pub zone: Option<String>,
    pub ptype: Vec<KdiTransportEnum>,
    pub wheelchair: KdiSupportedEnum,
}

/// What a `KdiPublicTransportStop` holds.
pub struct KdiPublicTransportStopView {
    pub location: Seq<char>,
    pub zone: Option<Seq<char>>,
    pub ptype: Seq<KdiTransportEnum>,
    pub wheelchair: KdiSupportedEnum,
}

impl DeepView for KdiPublicTransportStop {
    type V = KdiPublicTransportStopView;

    open spec fn deep_view(&self) -> KdiPublicTransportStopView {
        KdiPublicTransportStopView {
            location: self.location@,
            zone: self.zone.deep_view(),
            ptype: self.ptype@,
            wheelchair: self.wheelchair,
        }
    }
}

impl Keyed for KdiPublicTransportStop {
    /// Ordered by `location`.
    open spec fn sort_key(v: KdiPublicTransportStopView) -> SortKey {
        text_key(v.location)
    }

    fn le(&self, other: &Self) -> (r: bool) {
        text_key_le(self.location.as_str(), other.location.as_str())
    }
}

/// A call of a trip at a stop.
#[derive(Debug)]
pub struct KdiStopTime {
    pub trip: String,
    pub stop: String,
    pub arrival: Option<String>,
    pub departure: Option<String>,
    pub sequence: usize,
}

/// What a `KdiStopTime` holds.
pub struct KdiStopTimeView {
    pub trip: Seq<char>,
    pub stop: Seq<char>,
    pub arrival: Option<Seq<char>>,
    pub departure: Option<Seq<char>>,
    pub sequence: usize,
}

impl DeepView for KdiStopTime {
    type V = KdiStopTimeView;

    open spec fn deep_view(&self) -> KdiStopTimeView {
        KdiStopTimeView {
            trip: self.trip@,
            stop: self.stop@,
            arrival: self.arrival.deep_view(),
            departure: self.departure.deep_view(),
            sequence: self.sequence,
        }
    }
}

impl Keyed for KdiStopTime {
    /// Ordered by `trip`, then by `sequence`.
    open spec fn sort_key(v: KdiStopTimeView) -> SortKey {
        ranked_key(v.trip, v.sequence as nat)
    }

    fn le(&self, other: &Self) -> (r: bool) {
        ranked_key_le(self.trip.as_str(), self.sequence, other.trip.as_str(), other.sequence)
    }
}

/// A journey of a vehicle along a route.
#[derive(Debug)]
pub struct KdiTrip {
    pub id: String,
    pub route: String,
    pub calendar: String,
    pub name: String,
    pub direction: KdiDirectionEnum,
    pub wheelchair: KdiSupportedEnum,
    pub bike: KdiSupportedEnum,
}

/// What a `KdiTrip` holds.
pub struct KdiTripView {
    pub id: Seq<char>,
    pub route: Seq<char>,
    pub calendar: Seq<char>,
    pub name: Seq<char>,
    pub direction: KdiDirectionEnum,
    pub wheelchair: KdiSupportedEnum,
    pub bike: KdiSupportedEnum,
}

impl DeepView for KdiTrip {
    type V = KdiTripView;

    open spec fn deep_view(&self) -> KdiTripView {
        KdiTripView {
            id: self.id@,
            route: self.route@,
            calendar: self.calendar@,
            name: self.name@,
            direction: self.direction,
            wheelchair: self.wheelchair,
            bike: self.bike,
        }
    }
}

impl Keyed for KdiTrip {
    /// Ordered by `id`.
    open spec fn sort_key(v: KdiTripView) -> SortKey {
        text_key(v.id)
    }

    fn le(&self, other: &Self) -> (r: bool) {
        text_key_le(self.id.as_str(), other.id.as_str())
    }
}

/// A group of trips shown to riders as one service.
#[derive(Debug)]
pub struct KdiRoute {
    pub id: String,
    pub agency: String,
    pub short_name: String,
    pub long_name: String,
    pub transport: KdiTransportEnum,
}

/// What a `KdiRoute` holds.
pub struct KdiRouteView {
    pub id: Seq<char>,
    pub agency: Seq<char>,
    pub short_name: Seq<char>,
    pub long_name: Seq<char>,
    pub transport: KdiTransportEnum,
}

impl DeepView for KdiRoute {
    type V = KdiRouteView;

    open spec fn deep_view(&self) -> KdiRouteView {
        KdiRouteView {
            id: self.id@,
            agency: self.agency@,
            short_name: self.short_name@,
            long_name: self.long_name@,
            transport: self.transport,
        }
    }
}

impl Keyed for KdiRoute {
    /// Ordered by `id`.
    open spec fn sort_key(v: KdiRouteView) -> SortKey {
        text_key(v.id)
    }

    fn le(&self, other: &Self) -> (r: bool) {
        text_key_le(self.id.as_str(), other.id.as_str())
    }
}

/// A fare zone as its table gives it. The coordinates are number literals.
#[derive(Debug)]
pub struct KdiZone {
    pub id: String,
    pub name: String,
    pub latitude: String,
    pub longitude: String,
}

/// A row of a fare-rule table. A zone is absent where the table has no
/// column for it.
#[derive(Debug)]
pub struct KdiFareRuleRow {
    pub fare: String,
    pub origin: Option<String>,
    pub destination: Option<String>,
}

/// The raw zone that a fare rule refers to where its table names none.
pub open spec fn default_zone() -> Seq<char> {
    seq!['0', '0', '0', '1']
}

/// The raw zone that a fare rule refers to where its table names none.
pub fn kdi_fare_rule_default() -> (r: String)
    ensures
        r@ == default_zone(),
{
    proof {
        reveal_strlit("0001");
    }
    assert("0001"@ =~= default_zone());
    String::from_str("0001")
}

/// The names of the modes of a list, each in double quotes, with a comma
/// and a blank between them.
pub open spec fn quoted_names(modes: Seq<KdiTransportEnum>) -> Seq<char>
    decreases modes.len(),
{
    if modes.len() == 0 {
        Seq::<char>::empty()
    } else {
        let name = seq!['"'] + modes.last().name_text() + seq!['"'];
        if modes.len() == 1 {
            name
        } else {
            quoted_names(modes.drop_last()) + seq![',', ' '] + name
        }
    }
}

/// The text that stands for the modes of a stop: their quoted names in
/// square brackets.
pub open spec fn ptype_text(modes: Seq<KdiTransportEnum>) -> Seq<char> {
    seq!['['] + quoted_names(modes) + seq![']']
}

/// Writes the modes of a stop as one text.
pub fn ptype_serialization(t: &Vec<KdiTransportEnum>) -> (r: String)
    ensures
        r@ == ptype_text(t@),
{
    proof {
        reveal_strlit("[");
        reveal_strlit("]");
        reveal_strlit(", ");
        reveal_strlit("\"");
    }
    let mut r = String::from_str("[");
    let mut i: usize = 0;
    assert(t@.take(0).len() == 0);
    assert(r@ =~= seq!['['] + quoted_names(t@.take(0)));
    while i < t.len()
        invariant
            0 <= i <= t.len(),
            r@ == seq!['['] + quoted_names(t@.take(i as int)),
            ", "@ == seq![',', ' '],
            "\""@ == seq!['"'],
            "]"@ == seq![']'],
        decreases t.len() - i,
    {
        let ghost before = r@;
        let ghost done = quoted_names(t@.take(i as int));
        if i > 0 {
            r.append(", ");
        }
        let name = t[i].name();
        r.append("\"");
        r.append(name.as_str());
        r.append("\"");
        proof {
            let next = t@.take(i + 1);
            assert(next.drop_last() =~= t@.take(i as int));
            assert(next.last() == t@[i as int]);
            let quoted = seq!['"'] + t@[i as int].name_text() + seq!['"'];
            if i == 0 {
                assert(done =~= Seq::<char>::empty());
                assert(r@ =~= seq!['['] + quoted);
            } else {
                assert(r@ =~= seq!['['] + (done + seq![',', ' '] + quoted));
            }
        }
        i = i + 1;
    }
    assert(t@.take(i as int) =~= t@);
    r.append("]");
    r
}

} // verus!
