//! The alignment engine: identifiers, vocabularies, entity builders and ordering.
pub mod align;
pub mod builder;
pub mod consistency;
pub mod enums;
pub mod error;
pub mod gtfs;
pub mod json;
pub mod kml;
pub mod model;
pub mod order;
pub mod structs;
pub mod text;
pub mod time;
