use superheroes::location::{
    location_reply, locations_list, Location, LocationError, LocationsList, SqlLocation,
    SqlLocationType,
};

fn row(name: &str) -> SqlLocation {
    SqlLocation {
        description: format!("{} description", name),
        name: name.to_string(),
        picture: format!("{}.png", name),
    }
}

#[test]
fn row_to_wire_location() {
    let loc = Location::from(row("Gotham"));
    assert_eq!(loc.name, "Gotham");
    assert_eq!(loc.description, "Gotham description");
    assert_eq!(loc.picture, "Gotham.png");
    assert_eq!(loc.location_type, 0);
}

#[test]
fn wire_location_to_row_drops_the_type() {
    let loc = Location {
        name: "Moon".to_string(),
        description: "grey".to_string(),
        picture: "moon.png".to_string(),
        location_type: 5,
    };
    let back = SqlLocation::from(loc);
    assert_eq!(back, SqlLocation {
        description: "grey".to_string(),
        name: "Moon".to_string(),
        picture: "moon.png".to_string(),
    });
}

#[test]
fn row_roundtrip() {
    let r = row("Metropolis");
    assert_eq!(SqlLocation::from(Location::from(r.clone())), r);
}

#[test]
fn locations_list_keeps_order() {
    let list = locations_list(vec![row("a"), row("b"), row("c")]);
    let names: Vec<&str> = list.locations.iter().map(|l| l.name.as_str()).collect();
    assert_eq!(names, vec!["a", "b", "c"]);
    assert!(list.locations.iter().all(|l| l.location_type == 0));
    assert_eq!(locations_list(vec![]), LocationsList { locations: vec![] });
}

#[test]
fn location_reply_found_and_missing() {
    assert_eq!(location_reply(Some(row("x"))), Ok(Location::from(row("x"))));
    let err = location_reply(None).unwrap_err();
    assert_eq!(err, LocationError::NotFound);
    assert_eq!(err.message(), "Can't find location");
}

#[test]
fn location_types_are_distinct() {
    assert_ne!(SqlLocationType::CITY, SqlLocationType::MOON);
    assert_eq!(SqlLocation::default().name, "");
}

#[test]
fn wire_roundtrip_of_type_zero() {
    let loc = Location {
        name: "Paris".to_string(),
        description: "city".to_string(),
        picture: "paris.png".to_string(),
        location_type: 0,
    };
    assert_eq!(Location::from(SqlLocation::from(loc.clone())), loc);
}
