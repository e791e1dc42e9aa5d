use at_home::coord::{format_coordinate, parse_coordinate};
use at_home::geo::is_arrived;
use at_home::phone::PhonePolicy;
use at_home::ping::get_ping;
use at_home::ride::Ride;
use at_home::rides::{
    arrival_from_fields, arrival_notification, check_is_arrived, create_ride, create_ride_with_id, remove_ride,
    ride_location, Context, RideError,
};

fn ride_at(phone: &str, latitude: &str, longitude: &str) -> Ride {
    Ride::from_fields(phone, latitude, longitude).unwrap()
}

fn coordinate(text: &str) -> i64 {
    parse_coordinate(text).unwrap()
}

#[test]
fn test_create_ride_returns_201() {
    let mut context = Context::new(PhonePolicy::france());
    let ride = ride_at("0102030405", "44.256", "2.333");
    let created = create_ride(&mut context, ride);
    assert!(created.is_ok());
    let location = ride_location(&created.unwrap());
    assert!(location.starts_with("/rides/"));
}

#[test]
fn test_check_is_arrived_when_not_arrived() {
    let mut context = Context::new(PhonePolicy::france());
    let ride = ride_at("0102030405", "48.8239103", "2.3550088");
    let id = create_ride(&mut context, ride).unwrap();
    let arrived = check_is_arrived(
        &context,
        &id,
        coordinate("48.8241469"),
        coordinate("2.3552269"),
    );
    assert_eq!(arrived, Ok(false));
}

#[test]
fn ping_answers_ok() {
    assert_eq!(get_ping(), "OK");
}

#[test]
fn geofence_is_strict_at_the_radius() {
    assert!(!is_arrived(3000, 0, 0, 0));
    assert!(!is_arrived(0, -3000, 0, 0));
    assert!(!is_arrived(1800, 2400, 0, 0));
    assert!(is_arrived(2999, 0, 0, 0));
    assert!(is_arrived(1799, 2400, 0, 0));
    assert!(is_arrived(5, 5, 5, 5));
}

#[test]
fn geofence_far_and_extreme_points() {
    assert!(!is_arrived(i64::MAX, i64::MIN, i64::MIN, i64::MAX));
    assert!(!is_arrived(0, 10_000, 0, 0));
    assert!(!is_arrived(
        coordinate("48.8241469"),
        coordinate("2.3552269"),
        coordinate("48.8239103"),
        coordinate("2.3550088")
    ));
}

#[test]
fn created_ride_is_arrived_at_its_destination() {
    let mut context = Context::new(PhonePolicy::france());
    let ride = ride_at("0102030405", "44.256", "-2.333");
    let (lat, lon) = (ride.latitude, ride.longitude);
    let id = create_ride(&mut context, ride).unwrap();
    assert_eq!(check_is_arrived(&context, &id, lat, lon), Ok(true));
}

#[test]
fn unknown_and_finalized_rides_are_not_found() {
    let mut context = Context::new(PhonePolicy::france());
    let unknown = String::from("no-such-ride");
    assert_eq!(check_is_arrived(&context, &unknown, 0, 0), Err(RideError::NotFound));
    let id = create_ride(&mut context, ride_at("0102030405", "1", "2")).unwrap();
    assert_eq!(remove_ride(&mut context, &id), Ok(()));
    assert_eq!(check_is_arrived(&context, &id, 10_000_000, 20_000_000), Err(RideError::NotFound));
}

#[test]
fn finalizing_twice_deletes_once() {
    let mut context = Context::new(PhonePolicy::france());
    let id = create_ride(&mut context, ride_at("0102030405", "1", "2")).unwrap();
    assert_eq!(remove_ride(&mut context, &id), Ok(()));
    assert_eq!(context.outbox.len(), 1);
    assert_eq!(remove_ride(&mut context, &id), Err(RideError::NotFound));
    assert_eq!(context.outbox.len(), 1);
    assert!(context.store.get(&id).is_none());
}

#[test]
fn finalized_id_cannot_be_reused() {
    let mut context = Context::new(PhonePolicy::france());
    let id = String::from("ride-one");
    let first = create_ride_with_id(&mut context, id.clone(), ride_at("01", "1", "2"));
    assert_eq!(first, Ok(id.clone()));
    let again = create_ride_with_id(&mut context, id.clone(), ride_at("01", "1", "2"));
    assert_eq!(again, Err(RideError::StoreWriteError));
    assert_eq!(remove_ride(&mut context, &id), Ok(()));
    let resurrected = create_ride_with_id(&mut context, id.clone(), ride_at("01", "1", "2"));
    assert_eq!(resurrected, Err(RideError::StoreWriteError));
    assert_eq!(check_is_arrived(&context, &id, 10_000_000, 20_000_000), Err(RideError::NotFound));
}

#[test]
fn ride_ids_are_hyphenated_uuids() {
    let mut context = Context::new(PhonePolicy::france());
    let a = create_ride(&mut context, ride_at("01", "1", "2")).unwrap();
    let b = create_ride(&mut context, ride_at("01", "1", "2")).unwrap();
    assert_ne!(a, b);
    assert_eq!(a.len(), 36);
    for (i, c) in a.chars().enumerate() {
        if i == 8 || i == 13 || i == 18 || i == 23 {
            assert_eq!(c, '-');
        } else if i == 14 {
            assert_eq!(c, '4');
        } else if i == 19 {
            assert!(['8', '9', 'a', 'b'].contains(&c));
        } else {
            assert!(c.is_ascii_digit() || ('a'..='f').contains(&c));
        }
    }
    assert_eq!(ride_location(&a), format!("/rides/{}", a));
}

#[test]
fn phone_normalization_french() {
    let policy = PhonePolicy::france();
    assert_eq!(policy.normalize("0102030405"), "+33102030405");
    assert_eq!(policy.normalize("01 02 03 04 05"), "+33102030405");
    assert_eq!(policy.normalize(" 0612345678 "), "+33612345678");
    assert_eq!(policy.normalize(""), "+33");
    assert_eq!(policy.normalize("   "), "+33");
}

#[test]
fn phone_normalization_other_region() {
    let policy = PhonePolicy { country_prefix: String::from("+44") };
    assert_eq!(policy.normalize("07700 900123"), "+447700900123");
}

#[test]
fn arrival_message_fields() {
    let n = arrival_notification(&PhonePolicy::france(), "0102030405");
    assert_eq!(n.address, "+33102030405");
    assert_eq!(n.subject, "AtHome");
    assert_eq!(n.body, "Your friend is at home!");
}

#[test]
fn end_to_end_scenario() {
    let mut context = Context::new(PhonePolicy::france());
    let id = create_ride(&mut context, ride_at("0102030405", "48.8239103", "2.3550088")).unwrap();
    let near = check_is_arrived(&context, &id, coordinate("48.8241469"), coordinate("2.3552269"));
    assert_eq!(near, Ok(false));
    let there = check_is_arrived(&context, &id, coordinate("48.8239103"), coordinate("2.3550088"));
    assert_eq!(there, Ok(true));
    assert_eq!(remove_ride(&mut context, &id), Ok(()));
    assert_eq!(context.outbox.len(), 1);
    assert_eq!(context.outbox[0].address, "+33102030405");
    assert_eq!(context.outbox[0].subject, "AtHome");
    assert_eq!(context.outbox[0].body, "Your friend is at home!");
    assert!(context.store.get(&id).is_none());
    let after = check_is_arrived(&context, &id, coordinate("48.8239103"), coordinate("2.3550088"));
    assert_eq!(after, Err(RideError::NotFound));
}

#[test]
fn coordinates_parse_exactly() {
    assert_eq!(parse_coordinate("48.8239103"), Some(488_239_103));
    assert_eq!(parse_coordinate("2.3550088"), Some(23_550_088));
    assert_eq!(parse_coordinate("-0.5"), Some(-5_000_000));
    assert_eq!(parse_coordinate("2"), Some(20_000_000));
    assert_eq!(parse_coordinate("0.0000001"), Some(1));
    assert_eq!(parse_coordinate("-0"), Some(0));
    assert_eq!(parse_coordinate("99999999999.9999999"), Some(999_999_999_999_999_999));
}

#[test]
fn malformed_coordinates_are_refused() {
    for text in ["", "-", ".5", "1.", "1.12345678", "1a", "--1", "1.2.3", "+1", " 1", "100000000000"] {
        assert_eq!(parse_coordinate(text), None, "{}", text);
    }
}

#[test]
fn coordinates_format_with_seven_decimals() {
    assert_eq!(format_coordinate(488_239_103), "48.8239103");
    assert_eq!(format_coordinate(-5_000_000), "-0.5000000");
    assert_eq!(format_coordinate(0), "0.0000000");
    assert_eq!(format_coordinate(1), "0.0000001");
    assert_eq!(format_coordinate(i64::MIN), "-922337203685.4775808");
}

#[test]
fn coordinate_text_round_trips() {
    for v in [0i64, 1, -1, 488_239_103, -23_550_088, 999_999_999_999_999_999, -999_999_999_999_999_999] {
        assert_eq!(parse_coordinate(&format_coordinate(v)), Some(v));
    }
}

#[test]
fn ride_fields_round_trip() {
    let ride = Ride::new(String::from("0102030405"), 488_239_103, -23_550_088);
    let fields = ride.to_fields();
    assert_eq!(fields.len(), 3);
    assert_eq!(fields[0], (String::from("latitude"), String::from("48.8239103")));
    assert_eq!(fields[1], (String::from("longitude"), String::from("-2.3550088")));
    assert_eq!(fields[2], (String::from("phone_number"), String::from("0102030405")));
    let back = Ride::from_fields(&fields[2].1, &fields[0].1, &fields[1].1).unwrap();
    assert_eq!(back.phone_number, "0102030405");
    assert_eq!(back.latitude, 488_239_103);
    assert_eq!(back.longitude, -23_550_088);
    assert!(Ride::from_fields("01", "north", "2").is_none());
}

#[test]
fn arrival_from_stored_fields() {
    let lat = Some(String::from("48.8239103"));
    let lon = Some(String::from("2.3550088"));
    assert_eq!(arrival_from_fields(lat.clone(), lon.clone(), 488_239_103, 23_550_088), Ok(true));
    assert_eq!(arrival_from_fields(lat.clone(), lon.clone(), 488_241_469, 23_552_269), Ok(false));
    assert_eq!(arrival_from_fields(None, None, 0, 0), Err(RideError::NotFound));
    assert_eq!(arrival_from_fields(lat.clone(), None, 0, 0), Err(RideError::NotFound));
    assert_eq!(
        arrival_from_fields(lat, Some(String::from("east")), 0, 0),
        Err(RideError::StoreWriteError)
    );
}

#[test]
fn create_on_an_empty_store_succeeds() {
    let mut context = Context::new(PhonePolicy::france());
    let ride = ride_at("0102030405", "48.8239103", "2.3550088");
    let id = create_ride(&mut context, ride).unwrap();
    let stored = context.store.get(&id).unwrap();
    assert_eq!(stored.phone_number, "0102030405");
    assert_eq!(stored.to_fields()[0].1, "48.8239103");
    assert_eq!(stored.to_fields()[1].1, "2.3550088");
}
