//! Points-of-interest documents: placemarks with a coordinate text and a
//! list of named values.
use crate::kdi::error::AlignError;
use crate::kdi::text::str_eq;
use vstd::prelude::*;

verus! {

/// A points-of-interest document.
#[derive(Debug)]
pub struct Kml {
    pub document: Document,
}

/// The body of a document.
#[derive(Debug)]
pub struct Document {
    pub folder: Folder,
}

/// A named list of placemarks.
#[derive(Debug)]
pub struct Folder {
    pub name: String,
    pub placemarks: Vec<Placemark>,
}

/// One point of interest.
#[derive(Debug)]
pub struct Placemark {
    pub point: Point,
    pub extended_data: ExtendedData,
}

/// The position of a placemark: longitude and latitude, in that order, with
/// a comma between them.
#[derive(Debug)]
pub struct Point {
    pub coordinates: String,
}

/// What a placemark says besides its position.
#[derive(Debug)]
pub struct ExtendedData {
    pub schema_data: SchemaData,
}

/// The named values of a placemark.
#[derive(Debug)]
pub struct SchemaData {
    pub simple_datas: Vec<SimpleData>,
}

/// One named value.
#[derive(Debug)]
pub struct SimpleData {
    pub name: String,
    pub value: String,
}

/// The value of the first entry named `name`, if there is one.
pub open spec fn field_value(datas: Seq<SimpleData>, name: Seq<char>) -> Option<Seq<char>>
    decreases datas.len(),
{
    if datas.len() == 0 {
        None
    } else if datas[0].name@ == name {
        Some(datas[0].value@)
    } else {
        field_value(datas.drop_first(), name)
    }
}

impl Placemark {
    /// The named values of the placemark.
    pub open spec fn datas(&self) -> Seq<SimpleData> {
        self.extended_data.schema_data.simple_datas@
    }

    /// Looks a named value up: the value of the first entry of that name. A
    /// placemark without such an entry is malformed.
    pub fn required_field(&self, name: &str) -> (r: Result<&str, AlignError>)
        ensures
            match field_value(self.datas(), name@) {
                Some(v) => r is Ok && r->Ok_0@ == v,
                None => r == Err::<&str, AlignError>(AlignError::MissingField),
            },
    {
        let datas = &self.extended_data.schema_data.simple_datas;
        let mut i: usize = 0;
        assert(datas@.skip(0) =~= datas@);
        while i < datas.len()
            invariant
                0 <= i <= datas.len(),
                datas@ == self.datas(),
                field_value(self.datas(), name@) == field_value(datas@.skip(i as int), name@),
            decreases datas.len() - i,
        {
            let ghost rest = datas@.skip(i as int);
            assert(rest[0] == datas@[i as int]);
            assert(rest.drop_first() =~= datas@.skip(i + 1));
            if str_eq(datas[i].name.as_str(), name) {
                return Ok(datas[i].value.as_str());
            }
            i = i + 1;
        }
        Err(AlignError::MissingField)
    }
}

} // verus!
