//! Domain types and service logic of the superheroes sample: heroes, villains,
//! locations and fights, with the seeding of the SQL tables from their scripts.

pub mod fights;
pub mod heroes;
pub mod location;
pub mod lookup;
pub mod seeding;
pub mod text;
pub mod villains;
