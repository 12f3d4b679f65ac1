//! Alignment of an urban and an extra-urban public-transport dataset, together
//! with points-of-interest feeds, into one cross-referentially consistent model.
pub mod kdi;
