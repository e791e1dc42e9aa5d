//! Ride tracking: a destination and a contact, an arrival geofence, and a
//! notify-then-delete finalisation.

pub mod coord;
pub mod finalize;
pub mod geo;
pub mod ident;
pub mod phone;
pub mod ping;
pub mod ride;
pub mod rides;
pub mod store;
