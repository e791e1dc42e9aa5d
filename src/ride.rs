//! The ride record.
use vstd::prelude::*;
use crate::coord::{coordinate_text, coordinate_value, format_coordinate, parse_coordinate};

verus! {

/// A ride: where the traveller is going and whom to tell on arrival.
/// Coordinates are in ten-millionths of a degree (see `geo`).
pub struct Ride {
    pub phone_number: String,
    pub latitude: i64,
    pub longitude: i64,
}

/// Field names of the stored form of a ride.
pub const LATITUDE_FIELD: &'static str = "latitude";
pub const LONGITUDE_FIELD: &'static str = "longitude";
pub const PHONE_NUMBER_FIELD: &'static str = "phone_number";

/// The mathematical content of a ride.
pub struct RideModel {
    pub phone_number: Seq<char>,
    pub latitude: int,
    pub longitude: int,
}

impl View for Ride {
    type V = RideModel;

    open spec fn view(&self) -> RideModel {
        RideModel {
            phone_number: self.phone_number@,
            latitude: self.latitude as int,
            longitude: self.longitude as int,
        }
    }
}

impl Ride {
    pub fn new(phone_number: String, latitude: i64, longitude: i64) -> (r: Ride)
        ensures
            r.phone_number@ == phone_number@,
            r.latitude == latitude,
            r.longitude == longitude,
    {
        Ride { phone_number, latitude, longitude }
    }

    /// The stored form: (field name, text) for latitude, longitude and phone
    /// number, in that order.
    pub fn to_fields(&self) -> (r: Vec<(String, String)>)
        ensures
            r@.len() == 3,
            r@[0].0@ == "latitude"@ && r@[0].1@ == coordinate_text(self.latitude as int),
            r@[1].0@ == "longitude"@ && r@[1].1@ == coordinate_text(self.longitude as int),
            r@[2].0@ == "phone_number"@ && r@[2].1@ == self.phone_number@,
    {
        let mut r: Vec<(String, String)> = Vec::new();
        r.push((String::from_str(LATITUDE_FIELD), format_coordinate(self.latitude)));
        r.push((String::from_str(LONGITUDE_FIELD), format_coordinate(self.longitude)));
        r.push((String::from_str(PHONE_NUMBER_FIELD), self.phone_number.clone()));
        r
    }

    /// A ride from the texts of its stored fields; `None` exactly when a
    /// coordinate text does not read.
    pub fn from_fields(phone_number: &str, latitude: &str, longitude: &str) -> (r: Option<Ride>)
        ensures
            match (coordinate_value(latitude@), coordinate_value(longitude@)) {
                (Some(a), Some(b)) => r is Some && r->Some_0@ == (RideModel {
                    phone_number: phone_number@,
                    latitude: a,
                    longitude: b,
                }),
                _ => r is None,
            },
    {
        let lat = parse_coordinate(latitude);
        let lon = parse_coordinate(longitude);
        match (lat, lon) {
            (Some(a), Some(b)) => Some(Ride { phone_number: String::from_str(phone_number), latitude: a, longitude: b }),
            _ => None,
        }
    }
}

} // verus!
