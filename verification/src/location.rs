//! Locations, as stored in the SQL table and as sent over the wire.

use vstd::prelude::*;

verus! {

/// The kinds of place a location can be.
#[derive(Debug, Clone, Copy, PartialEq, Eq)]
pub enum SqlLocationType {
    CITY,
    PLANET,
    PLACE,
    ISLAND,
    COUNTRY,
    MOON,
}

/// A row of the `locations` table.
#[derive(Debug, Clone, PartialEq, Eq, Default)]
pub struct SqlLocation {
    pub description: String,
    pub name: String,
    pub picture: String,
}

/// A location as the locations service sends it to its clients.
#[derive(Debug, Clone, PartialEq, Eq, Default)]
pub struct Location {
    pub name: String,
    pub description: String,
    pub picture: String,
    /// The wire number of the location's type; rows of the table do not carry one.
    pub location_type: i32,
}

/// The wire form of a row: the same name, description and picture, and type number 0.
pub open spec fn wire_location(row: SqlLocation) -> Location {
    Location {
        name: row.name,
        description: row.description,
        picture: row.picture,
        location_type: 0,
    }
}

/// The row form of a wire location: its name, description and picture.
pub open spec fn row_location(loc: Location) -> SqlLocation {
    SqlLocation { description: loc.description, name: loc.name, picture: loc.picture }
}

impl From<SqlLocation> for Location {
    fn from(value: SqlLocation) -> (res: Self) {
        Location {
            name: value.name,
            description: value.description,
            picture: value.picture,
            location_type: 0,
        }
    }
}

impl vstd::std_specs::convert::FromSpecImpl<SqlLocation> for Location {
    open spec fn obeys_from_spec() -> bool {
        true
    }

    open spec fn from_spec(value: SqlLocation) -> Location {
        wire_location(value)
    }
}

impl From<Location> for SqlLocation {
    fn from(value: Location) -> (res: Self) {
        SqlLocation { description: value.description, name: value.name, picture: value.picture }
    }
}

impl vstd::std_specs::convert::FromSpecImpl<Location> for SqlLocation {
    open spec fn obeys_from_spec() -> bool {
        true
    }

    open spec fn from_spec(value: Location) -> SqlLocation {
        row_location(value)
    }
}

/// Converting a row to a wire location and back gives the row again.
pub proof fn lemma_row_roundtrip(row: SqlLocation)
    ensures
        row_location(wire_location(row)) == row,
{
}

/// The wire form keeps each column of the row in the field of the same name, with
/// type number 0; the row form keeps each field of the wire location in the column
/// of the same name.
pub proof fn lemma_conversions_keep_fields(row: SqlLocation, loc: Location)
    ensures
        wire_location(row).name == row.name,
        wire_location(row).description == row.description,
        wire_location(row).picture == row.picture,
        wire_location(row).location_type == 0,
        row_location(loc).name == loc.name,
        row_location(loc).description == loc.description,
        row_location(loc).picture == loc.picture,
{
}

/// Converting a wire location of type 0 to a row and back gives it again.
pub proof fn lemma_wire_roundtrip(loc: Location)
    requires
        loc.location_type == 0,
    ensures
        wire_location(row_location(loc)) == loc,
{
}

/// The list of all locations that the locations service sends.
#[derive(Debug, Clone, PartialEq, Eq, Default)]
pub struct LocationsList {
    pub locations: Vec<Location>,
}

/// Why the locations service refuses a request.
#[derive(Debug, Clone, Copy, PartialEq, Eq)]
pub enum LocationError {
    /// No location has the name that was asked for.
    NotFound,
}

impl LocationError {
    /// The message that goes with the refusal.
    pub fn message(&self) -> (res: &'static str)
        ensures
            res@ == "Can't find location"@,
    {
        match self {
            LocationError::NotFound => "Can't find location",
        }
    }
}

/// The reply to a request for all locations: every row, in order, in its wire form.
pub fn locations_list(all: Vec<SqlLocation>) -> (res: LocationsList)
    ensures
        res.locations@ == all@.map_values(|row: SqlLocation| wire_location(row)),
{
    let ghost rows = all@;
    let mut items: Vec<Location> = Vec::new();
    for row in it: all.into_iter()
        invariant
            it.seq() == rows,
            items@ == rows.take(it.index() as int).map_values(|r: SqlLocation| wire_location(r)),
    {
        let ghost before = items@;
        items.push(Location::from(row));
        assert(rows.take(it.index() + 1) =~= rows.take(it.index() as int).push(row));
        assert(items@ =~= rows.take(it.index() + 1).map_values(|r: SqlLocation| wire_location(r)));
    }
    assert(rows.take(rows.len() as int) =~= rows);
    LocationsList { locations: items }
}

/// The reply to a request for the location of a given name: the location that the
/// lookup found, in its wire form, or `NotFound` where it found none.
pub fn location_reply(found: Option<SqlLocation>) -> (res: Result<Location, LocationError>)
    ensures
        match found {
            Some(row) => res == Ok::<Location, LocationError>(wire_location(row)),
            None => res == Err::<Location, LocationError>(LocationError::NotFound),
        },
{
    match found {
        Some(row) => Ok(Location::from(row)),
        None => Err(LocationError::NotFound),
    }
}

} // verus!
