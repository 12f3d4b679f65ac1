//! The closed vocabularies of the model, and how the vocabularies of the
//! sources map onto them.
use crate::kdi::error::AlignError;
use crate::kdi::gtfs::{Availability, BikesAllowedType, DirectionType, Exception, RouteType};
use vstd::prelude::*;
use vstd::std_specs::convert::{FromSpecImpl, TryFromSpecImpl};

verus! {

/// The kind of place that a location is.
#[derive(Clone, Copy, Debug, PartialEq, Eq, Structural)]
pub enum KdiLocationTypeEnum {
    Zone,
    TrainStop,
    BusStop,
    CableCarStop,
    BikeSharingStop,
    BikeParkingStop,
    CarSharingStop,
    TaxiStop,
}

impl KdiLocationTypeEnum {
    /// The name of the variant.
    pub open spec fn name_text(self) -> Seq<char> {
        match self {
            KdiLocationTypeEnum::Zone => "Zone"@,
            KdiLocationTypeEnum::TrainStop => "TrainStop"@,
            KdiLocationTypeEnum::BusStop => "BusStop"@,
            KdiLocationTypeEnum::CableCarStop => "CableCarStop"@,
            KdiLocationTypeEnum::BikeSharingStop => "BikeSharingStop"@,
            KdiLocationTypeEnum::BikeParkingStop => "BikeParkingStop"@,
            KdiLocationTypeEnum::CarSharingStop => "CarSharingStop"@,
            KdiLocationTypeEnum::TaxiStop => "TaxiStop"@,
        }
    }

    /// The names of all variants, in the order of their declaration.
    pub open spec fn variant_names() -> Seq<Seq<char>> {
        seq![
            KdiLocationTypeEnum::Zone.name_text(),
            KdiLocationTypeEnum::TrainStop.name_text(),
            KdiLocationTypeEnum::BusStop.name_text(),
            KdiLocationTypeEnum::CableCarStop.name_text(),
            KdiLocationTypeEnum::BikeSharingStop.name_text(),
            KdiLocationTypeEnum::BikeParkingStop.name_text(),
            KdiLocationTypeEnum::CarSharingStop.name_text(),
            KdiLocationTypeEnum::TaxiStop.name_text(),
        ]
    }

    /// The name of the variant.
    pub fn name(&self) -> (r: String)
        ensures
            r@ == self.name_text(),
    {
        match self {
            KdiLocationTypeEnum::Zone => String::from_str("Zone"),
            KdiLocationTypeEnum::TrainStop => String::from_str("TrainStop"),
            KdiLocationTypeEnum::BusStop => String::from_str("BusStop"),
            KdiLocationTypeEnum::CableCarStop => String::from_str("CableCarStop"),
            KdiLocationTypeEnum::BikeSharingStop => String::from_str("BikeSharingStop"),
            KdiLocationTypeEnum::BikeParkingStop => String::from_str("BikeParkingStop"),
            KdiLocationTypeEnum::CarSharingStop => String::from_str("CarSharingStop"),
            KdiLocationTypeEnum::TaxiStop => String::from_str("TaxiStop"),
        }
    }

    /// The names of all variants, in the order of their declaration.
    pub fn variants() -> (r: Vec<String>)
        ensures
            r.deep_view() == Self::variant_names(),
    {
        let mut r: Vec<String> = Vec::new();
        r.push(KdiLocationTypeEnum::Zone.name());
        r.push(KdiLocationTypeEnum::TrainStop.name());
        r.push(KdiLocationTypeEnum::BusStop.name());
        r.push(KdiLocationTypeEnum::CableCarStop.name());
        r.push(KdiLocationTypeEnum::BikeSharingStop.name());
        r.push(KdiLocationTypeEnum::BikeParkingStop.name());
        r.push(KdiLocationTypeEnum::CarSharingStop.name());
        r.push(KdiLocationTypeEnum::TaxiStop.name());
        assert(r.deep_view() =~= Self::variant_names());
        r
    }
}

/// When a fare is paid.
#[derive(Clone, Copy, Debug, PartialEq, Eq, Structural)]
pub enum KdiPaymentEnum {
    OnBoard,
    BeforeBoarding,
}

impl KdiPaymentEnum {
    /// The name of the variant.
    pub open spec fn name_text(self) -> Seq<char> {
        match self {
            KdiPaymentEnum::OnBoard => "OnBoard"@,
            KdiPaymentEnum::BeforeBoarding => "BeforeBoarding"@,
        }
    }

    /// The names of all variants, in the order of their declaration.
    pub open spec fn variant_names() -> Seq<Seq<char>> {
        seq![
            KdiPaymentEnum::OnBoard.name_text(),
            KdiPaymentEnum::BeforeBoarding.name_text(),
        ]
    }

    /// The name of the variant.
    pub fn name(&self) -> (r: String)
        ensures
            r@ == self.name_text(),
    {
        match self {
            KdiPaymentEnum::OnBoard => String::from_str("OnBoard"),
            KdiPaymentEnum::BeforeBoarding => String::from_str("BeforeBoarding"),
        }
    }

    /// The names of all variants, in the order of their declaration.
    pub fn variants() -> (r: Vec<String>)
        ensures
            r.deep_view() == Self::variant_names(),
    {
        let mut r: Vec<String> = Vec::new();
        r.push(KdiPaymentEnum::OnBoard.name());
        r.push(KdiPaymentEnum::BeforeBoarding.name());
        assert(r.deep_view() =~= Self::variant_names());
        r
    }
}

/// The currency of a fare.
#[derive(Clone, Copy, Debug, PartialEq, Eq, Structural)]
pub enum KdiCurrencyEnum {
    EUR,
}

impl KdiCurrencyEnum {
    /// The name of the variant.
    pub open spec fn name_text(self) -> Seq<char> {
        match self {
            KdiCurrencyEnum::EUR => "EUR"@,
        }
    }

    /// The names of all variants, in the order of their declaration.
    pub open spec fn variant_names() -> Seq<Seq<char>> {
        seq![
            KdiCurrencyEnum::EUR.name_text(),
        ]
    }

    /// The name of the variant.
    pub fn name(&self) -> (r: String)
        ensures
            r@ == self.name_text(),
    {
        match self {
            KdiCurrencyEnum::EUR => String::from_str("EUR"),
        }
    }

    /// The names of all variants, in the order of their declaration.
    pub fn variants() -> (r: Vec<String>)
        ensures
            r.deep_view() == Self::variant_names(),
    {
        let mut r: Vec<String> = Vec::new();
        r.push(KdiCurrencyEnum::EUR.name());
        assert(r.deep_view() =~= Self::variant_names());
        r
    }
}

/// The channel through which a fare is sold.
#[derive(Clone, Copy, Debug, PartialEq, Eq, Structural)]
pub enum KdiFareEnum {
    Cash,
    Cartascalare,
    Mobile,
}

impl KdiFareEnum {
    /// The name of the variant.
    pub open spec fn name_text(self) -> Seq<char> {
        match self {
            KdiFareEnum::Cash => "Cash"@,
            KdiFareEnum::Cartascalare => "Cartascalare"@,
            KdiFareEnum::Mobile => "Mobile"@,
        }
    }

    /// The names of all variants, in the order of their declaration.
    pub open spec fn variant_names() -> Seq<Seq<char>> {
        seq![
            KdiFareEnum::Cash.name_text(),
            KdiFareEnum::Cartascalare.name_text(),
            KdiFareEnum::Mobile.name_text(),
        ]
    }

    /// The name of the variant.
    pub fn name(&self) -> (r: String)
        ensures
            r@ == self.name_text(),
    {
        match self {
            KdiFareEnum::Cash => String::from_str("Cash"),
            KdiFareEnum::Cartascalare => String::from_str("Cartascalare"),
            KdiFareEnum::Mobile => String::from_str("Mobile"),
        }
    }

    /// The names of all variants, in the order of their declaration.
    pub fn variants() -> (r: Vec<String>)
        ensures
            r.deep_view() == Self::variant_names(),
    {
        let mut r: Vec<String> = Vec::new();
        r.push(KdiFareEnum::Cash.name());
        r.push(KdiFareEnum::Cartascalare.name());
        r.push(KdiFareEnum::Mobile.name());
        assert(r.deep_view() =~= Self::variant_names());
        r
    }
}

/// Whether a facility is supported.
#[derive(Clone, Copy, Debug, PartialEq, Eq, Structural)]
pub enum KdiSupportedEnum {
    Unknown,
    Supported,
    NotSupported,
}

impl KdiSupportedEnum {
    /// The name of the variant.
    pub open spec fn name_text(self) -> Seq<char> {
        match self {
            KdiSupportedEnum::Unknown => "Unknown"@,
            KdiSupportedEnum::Supported => "Supported"@,
            KdiSupportedEnum::NotSupported => "NotSupported"@,
        }
    }

    /// The names of all variants, in the order of their declaration.
    pub open spec fn variant_names() -> Seq<Seq<char>> {
        seq![
            KdiSupportedEnum::Unknown.name_text(),
            KdiSupportedEnum::Supported.name_text(),
            KdiSupportedEnum::NotSupported.name_text(),
        ]
    }

    /// The name of the variant.
    pub fn name(&self) -> (r: String)
        ensures
            r@ == self.name_text(),
    {
        match self {
            KdiSupportedEnum::Unknown => String::from_str("Unknown"),
            KdiSupportedEnum::Supported => String::from_str("Supported"),
            KdiSupportedEnum::NotSupported => String::from_str("NotSupported"),
        }
    }

    /// The names of all variants, in the order of their declaration.
    pub fn variants() -> (r: Vec<String>)
        ensures
            r.deep_view() == Self::variant_names(),
    {
        let mut r: Vec<String> = Vec::new();
        r.push(KdiSupportedEnum::Unknown.name());
        r.push(KdiSupportedEnum::Supported.name());
        r.push(KdiSupportedEnum::NotSupported.name());
        assert(r.deep_view() =~= Self::variant_names());
        r
    }
}

/// The direction of travel of a trip.
#[derive(Clone, Copy, Debug, PartialEq, Eq, Structural)]
pub enum KdiDirectionEnum {
    Outbound,
    Inbound,
}

impl KdiDirectionEnum {
    /// The name of the variant.
    pub open spec fn name_text(self) -> Seq<char> {
        match self {
            KdiDirectionEnum::Outbound => "Outbound"@,
            KdiDirectionEnum::Inbound => "Inbound"@,
        }
    }

    /// The names of all variants, in the order of their declaration.
    pub open spec fn variant_names() -> Seq<Seq<char>> {
        seq![
            KdiDirectionEnum::Outbound.name_text(),
            KdiDirectionEnum::Inbound.name_text(),
        ]
    }

    /// The name of the variant.
    pub fn name(&self) -> (r: String)
        ensures
            r@ == self.name_text(),
    {
        match self {
            KdiDirectionEnum::Outbound => String::from_str("Outbound"),
            KdiDirectionEnum::Inbound => String::from_str("Inbound"),
        }
    }

    /// The names of all variants, in the order of their declaration.
    pub fn variants() -> (r: Vec<String>)
        ensures
            r.deep_view() == Self::variant_names(),
    {
        let mut r: Vec<String> = Vec::new();
        r.push(KdiDirectionEnum::Outbound.name());
        r.push(KdiDirectionEnum::Inbound.name());
        assert(r.deep_view() =~= Self::variant_names());
        r
    }
}

/// Whether a calendar exception adds or removes service.
#[derive(Clone, Copy, Debug, PartialEq, Eq, Structural)]
pub enum KdiExceptionEnum {
    Added,
    Removed,
}

impl KdiExceptionEnum {
    /// The name of the variant.
    pub open spec fn name_text(self) -> Seq<char> {
        match self {
            KdiExceptionEnum::Added => "Added"@,
            KdiExceptionEnum::Removed => "Removed"@,
        }
    }

    /// The names of all variants, in the order of their declaration.
    pub open spec fn variant_names() -> Seq<Seq<char>> {
        seq![
            KdiExceptionEnum::Added.name_text(),
            KdiExceptionEnum::Removed.name_text(),
        ]
    }

    /// The name of the variant.
    pub fn name(&self) -> (r: String)
        ensures
            r@ == self.name_text(),
    {
        match self {
            KdiExceptionEnum::Added => String::from_str("Added"),
            KdiExceptionEnum::Removed => String::from_str("Removed"),
        }
    }

    /// The names of all variants, in the order of their declaration.
    pub fn variants() -> (r: Vec<String>)
        ensures
            r.deep_view() == Self::variant_names(),
    {
        let mut r: Vec<String> = Vec::new();
        r.push(KdiExceptionEnum::Added.name());
        r.push(KdiExceptionEnum::Removed.name());
        assert(r.deep_view() =~= Self::variant_names());
        r
    }
}

/// The mode of transport of a route.
#[derive(Clone, Copy, Debug, PartialEq, Eq, Structural)]
pub enum KdiTransportEnum {
    Rail,
    Bus,
    CableCar,
}

impl KdiTransportEnum {
    /// The name of the variant.
    pub open spec fn name_text(self) -> Seq<char> {
        match self {
            KdiTransportEnum::Rail => "Rail"@,
            KdiTransportEnum::Bus => "Bus"@,
            KdiTransportEnum::CableCar => "CableCar"@,
        }
    }

    /// The names of all variants, in the order of their declaration.
    pub open spec fn variant_names() -> Seq<Seq<char>> {
        seq![
            KdiTransportEnum::Rail.name_text(),
            KdiTransportEnum::Bus.name_text(),
            KdiTransportEnum::CableCar.name_text(),
        ]
    }

    /// The name of the variant.
    pub fn name(&self) -> (r: String)
        ensures
            r@ == self.name_text(),
    {
        match self {
            KdiTransportEnum::Rail => String::from_str("Rail"),
            KdiTransportEnum::Bus => String::from_str("Bus"),
            KdiTransportEnum::CableCar => String::from_str("CableCar"),
        }
    }

    /// The names of all variants, in the order of their declaration.
    pub fn variants() -> (r: Vec<String>)
        ensures
            r.deep_view() == Self::variant_names(),
    {
        let mut r: Vec<String> = Vec::new();
        r.push(KdiTransportEnum::Rail.name());
        r.push(KdiTransportEnum::Bus.name());
        r.push(KdiTransportEnum::CableCar.name());
        assert(r.deep_view() =~= Self::variant_names());
        r
    }
}

/// The family of a point of interest where vehicles stand.
#[derive(Clone, Copy, Debug, PartialEq, Eq, Structural)]
pub enum KdiParkingStopEnum {
    CarSharing,
    BikeSharing,
    BikeParking,
    Taxi,
}

impl KdiParkingStopEnum {
    /// The name of the variant.
    pub open spec fn name_text(self) -> Seq<char> {
        match self {
            KdiParkingStopEnum::CarSharing => "CarSharing"@,
            KdiParkingStopEnum::BikeSharing => "BikeSharing"@,
            KdiParkingStopEnum::BikeParking => "BikeParking"@,
            KdiParkingStopEnum::Taxi => "Taxi"@,
        }
    }

    /// The names of all variants, in the order of their declaration.
    pub open spec fn variant_names() -> Seq<Seq<char>> {
        seq![
            KdiParkingStopEnum::CarSharing.name_text(),
            KdiParkingStopEnum::BikeSharing.name_text(),
            KdiParkingStopEnum::BikeParking.name_text(),
            KdiParkingStopEnum::Taxi.name_text(),
        ]
    }

    /// The name of the variant.
    pub fn name(&self) -> (r: String)
        ensures
            r@ == self.name_text(),
    {
        match self {
            KdiParkingStopEnum::CarSharing => String::from_str("CarSharing"),
            KdiParkingStopEnum::BikeSharing => String::from_str("BikeSharing"),
            KdiParkingStopEnum::BikeParking => String::from_str("BikeParking"),
            KdiParkingStopEnum::Taxi => String::from_str("Taxi"),
        }
    }

    /// The names of all variants, in the order of their declaration.
    pub fn variants() -> (r: Vec<String>)
        ensures
            r.deep_view() == Self::variant_names(),
    {
        let mut r: Vec<String> = Vec::new();
        r.push(KdiParkingStopEnum::CarSharing.name());
        r.push(KdiParkingStopEnum::BikeSharing.name());
        r.push(KdiParkingStopEnum::BikeParking.name());
        r.push(KdiParkingStopEnum::Taxi.name());
        assert(r.deep_view() =~= Self::variant_names());
        r
    }
}

impl Default for KdiFareEnum {
    fn default() -> (r: Self)
        ensures
            r == KdiFareEnum::Cash,
    {
        KdiFareEnum::Cash
    }
}

impl KdiSupportedEnum {
    /// What the availability of a service means for the model: what the feed
    /// does not say, or says with a code of its own, is unknown.
    pub open spec fn of_availability(availability: Availability) -> Self {
        match availability {
            Availability::Available => KdiSupportedEnum::Supported,
            Availability::NotAvailable => KdiSupportedEnum::NotSupported,
            _ => KdiSupportedEnum::Unknown,
        }
    }

    /// What the bicycle rule of a trip means for the model.
    pub open spec fn of_bikes_allowed(bikes_allowed_type: BikesAllowedType) -> Self {
        match bikes_allowed_type {
            BikesAllowedType::AtLeastOneBike => KdiSupportedEnum::Supported,
            BikesAllowedType::NoBikesAllowed => KdiSupportedEnum::NotSupported,
            _ => KdiSupportedEnum::Unknown,
        }
    }

    /// Maps the availability of a service. Every value is mapped.
    pub fn from_availability(availability: Availability) -> (r: Self)
        ensures
            r == Self::of_availability(availability),
    {
        match availability {
            Availability::Available => KdiSupportedEnum::Supported,
            Availability::NotAvailable => KdiSupportedEnum::NotSupported,
            _ => KdiSupportedEnum::Unknown,
        }
    }

    /// Maps the bicycle rule of a trip. Every value is mapped.
    pub fn from_bikes_allowed(bikes_allowed_type: BikesAllowedType) -> (r: Self)
        ensures
            r == Self::of_bikes_allowed(bikes_allowed_type),
    {
        match bikes_allowed_type {
            BikesAllowedType::AtLeastOneBike => KdiSupportedEnum::Supported,
            BikesAllowedType::NoBikesAllowed => KdiSupportedEnum::NotSupported,
            _ => KdiSupportedEnum::Unknown,
        }
    }
}

impl KdiDirectionEnum {
    /// The direction of the model for a direction of the feed.
    pub open spec fn of_direction(direction_type: DirectionType) -> Self {
        match direction_type {
            DirectionType::Outbound => KdiDirectionEnum::Outbound,
            DirectionType::Inbound => KdiDirectionEnum::Inbound,
        }
    }

    /// Maps the direction of a trip. Every value is mapped.
    pub fn from_direction(direction_type: DirectionType) -> (r: Self)
        ensures
            r == Self::of_direction(direction_type),
    {
        match direction_type {
            DirectionType::Outbound => KdiDirectionEnum::Outbound,
            DirectionType::Inbound => KdiDirectionEnum::Inbound,
        }
    }
}

impl KdiExceptionEnum {
    /// The exception of the model for an exception of the feed.
    pub open spec fn of_exception(exception: Exception) -> Self {
        match exception {
            Exception::Added => KdiExceptionEnum::Added,
            Exception::Deleted => KdiExceptionEnum::Removed,
        }
    }

    /// Maps the exception of a calendar date. Every value is mapped.
    pub fn from_exception(exception: Exception) -> (r: Self)
        ensures
            r == Self::of_exception(exception),
    {
        match exception {
            Exception::Added => KdiExceptionEnum::Added,
            Exception::Deleted => KdiExceptionEnum::Removed,
        }
    }
}

impl KdiTransportEnum {
    /// The mode of transport for a kind of route: rail, bus and cable car are
    /// the modes of the model, and any other kind of route is refused.
    pub open spec fn of_route_type(route_type: RouteType) -> Result<Self, AlignError> {
        match route_type {
            RouteType::Rail => Ok(KdiTransportEnum::Rail),
            RouteType::Bus => Ok(KdiTransportEnum::Bus),
            RouteType::CableCar => Ok(KdiTransportEnum::CableCar),
            _ => Err(AlignError::UnsupportedCode),
        }
    }

    /// Maps the kind of a route, and refuses a kind that the model does not
    /// know.
    pub fn from_route_type(route_type: RouteType) -> (r: Result<Self, AlignError>)
        ensures
            r == Self::of_route_type(route_type),
    {
        match route_type {
            RouteType::Rail => Ok(KdiTransportEnum::Rail),
            RouteType::Bus => Ok(KdiTransportEnum::Bus),
            RouteType::CableCar => Ok(KdiTransportEnum::CableCar),
            _ => Err(AlignError::UnsupportedCode),
        }
    }
}

impl From<Availability> for KdiSupportedEnum {
    fn from(availability: Availability) -> (r: Self) {
        KdiSupportedEnum::from_availability(availability)
    }
}

impl FromSpecImpl<Availability> for KdiSupportedEnum {
    open spec fn obeys_from_spec() -> bool {
        true
    }

    open spec fn from_spec(availability: Availability) -> Self {
        KdiSupportedEnum::of_availability(availability)
    }
}

impl From<BikesAllowedType> for KdiSupportedEnum {
    fn from(bikes_allowed_type: BikesAllowedType) -> (r: Self) {
        KdiSupportedEnum::from_bikes_allowed(bikes_allowed_type)
    }
}

impl FromSpecImpl<BikesAllowedType> for KdiSupportedEnum {
    open spec fn obeys_from_spec() -> bool {
        true
    }

    open spec fn from_spec(bikes_allowed_type: BikesAllowedType) -> Self {
        KdiSupportedEnum::of_bikes_allowed(bikes_allowed_type)
    }
}

impl From<DirectionType> for KdiDirectionEnum {
    fn from(direction_type: DirectionType) -> (r: Self) {
        KdiDirectionEnum::from_direction(direction_type)
    }
}

impl FromSpecImpl<DirectionType> for KdiDirectionEnum {
    open spec fn obeys_from_spec() -> bool {
        true
    }

    open spec fn from_spec(direction_type: DirectionType) -> Self {
        KdiDirectionEnum::of_direction(direction_type)
    }
}

impl From<Exception> for KdiExceptionEnum {
    fn from(exception: Exception) -> (r: Self) {
        KdiExceptionEnum::from_exception(exception)
    }
}

impl FromSpecImpl<Exception> for KdiExceptionEnum {
    open spec fn obeys_from_spec() -> bool {
        true
    }

    open spec fn from_spec(exception: Exception) -> Self {
        KdiExceptionEnum::of_exception(exception)
    }
}

impl TryFrom<RouteType> for KdiTransportEnum {
    type Error = AlignError;

    fn try_from(route_type: RouteType) -> (r: Result<Self, AlignError>) {
        KdiTransportEnum::from_route_type(route_type)
    }
}

impl TryFromSpecImpl<RouteType> for KdiTransportEnum {
    open spec fn obeys_try_from_spec() -> bool {
        true
    }

    open spec fn try_from_spec(route_type: RouteType) -> Result<Self, AlignError> {
        KdiTransportEnum::of_route_type(route_type)
    }
}

/// Every source code has a place in the model but for routes, of which rail,
/// bus and cable car are mapped and every other kind is refused as an
/// unsupported code.
pub proof fn lemma_vocabulary_closed(route_type: RouteType)
    ensures
        KdiTransportEnum::of_route_type(route_type) is Ok <==> (route_type == RouteType::Rail
            || route_type == RouteType::Bus || route_type == RouteType::CableCar),
        KdiTransportEnum::of_route_type(route_type) is Err ==> KdiTransportEnum::of_route_type(
            route_type,
        ) == Err::<KdiTransportEnum, AlignError>(AlignError::UnsupportedCode),
{
}

} // verus!
