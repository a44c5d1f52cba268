//! Fights between a hero and a villain at a location, and how they are recorded.

use vstd::prelude::*;
use rand::RngCore;
use rand::rngs::ThreadRng;
use crate::heroes::{HeroView, SqlHero};
use crate::location::Location;
use crate::text::{chars_of, push_chars, string_of_range};
use crate::villains::{SqlVillain, VillainView};

verus! {

broadcast use vstd::string::group_string_axioms;

/// The side that won a fight.
#[derive(Debug, Clone, Copy, PartialEq, Eq)]
pub enum Winner {
    Heroes,
    Villains,
}

/// A request to run a fight.
#[derive(Debug, Clone, PartialEq, Eq)]
pub struct FightRequest {
    pub hero: SqlHero,
    pub villain: SqlVillain,
    pub location: Location,
}

/// A hero and a villain picked to fight each other.
#[derive(Debug, Clone, PartialEq, Eq)]
pub struct Fighters {
    pub hero: SqlHero,
    pub villain: SqlVillain,
}

/// The record of a fight, as stored in the `fights` table.
#[derive(Debug, Clone, PartialEq, Eq)]
pub struct FightResult {
    pub id: String,
    pub fight_date: String,
    pub winner_name: String,
    pub winner_level: i32,
    pub winner_powers: String,
    pub winner_picture: String,
    pub winner_team: String,
    pub loser_name: String,
    pub loser_level: i32,
    pub loser_powers: String,
    pub loser_picture: String,
    pub loser_team: String,
    pub location: Location,
}

/// A value bound to a placeholder of an SQL statement.
#[derive(Debug, Clone, PartialEq, Eq)]
pub enum SqlParam {
    Text(String),
    Integer(i32),
}

// ---------------------------------------------------------------------------
// Specifications
// ---------------------------------------------------------------------------

/// The team name of the heroes.
pub open spec fn heroes_team() -> Seq<char> {
    seq!['h', 'e', 'r', 'o', 'e', 's']
}

/// The team name of the villains.
pub open spec fn villains_team() -> Seq<char> {
    seq!['v', 'i', 'l', 'l', 'a', 'i', 'n', 's']
}

/// The side that a random draw makes win: the heroes on an even draw, the
/// villains on an odd one.
pub open spec fn winner_of_draw(draw: u32) -> Winner {
    if draw % 2 == 0 {
        Winner::Heroes
    } else {
        Winner::Villains
    }
}

/// The hero's side of a record: `name`, `level`, `powers`, `picture` and `team`
/// are the hero's.
pub open spec fn is_hero_side(
    name: String,
    level: i32,
    powers: String,
    picture: String,
    team: String,
    hero: HeroView,
) -> bool {
    &&& name@ == hero.name
    &&& level == hero.level
    &&& powers@ == hero.powers
    &&& picture@ == hero.picture
    &&& team@ == heroes_team()
}

/// The villain's side of a record.
pub open spec fn is_villain_side(
    name: String,
    level: i32,
    powers: String,
    picture: String,
    team: String,
    villain: VillainView,
) -> bool {
    &&& name@ == villain.name
    &&& level == villain.level
    &&& powers@ == villain.powers
    &&& picture@ == villain.picture
    &&& team@ == villains_team()
}

/// `r` records the fight of `hero` against `villain` at `location`, won by
/// `winner`, under the id `id` and the date `date`: the winner's columns describe
/// the winning side, the loser's columns the other side.
pub open spec fn records_fight(
    r: FightResult,
    winner: Winner,
    hero: HeroView,
    villain: VillainView,
    location: Location,
    id: Seq<char>,
    date: Seq<char>,
) -> bool {
    &&& r.id@ == id
    &&& r.fight_date@ == date
    &&& r.location == location
    &&& match winner {
        Winner::Heroes => {
            &&& is_hero_side(
                r.winner_name,
                r.winner_level,
                r.winner_powers,
                r.winner_picture,
                r.winner_team,
                hero,
            )
            &&& is_villain_side(
                r.loser_name,
                r.loser_level,
                r.loser_powers,
                r.loser_picture,
                r.loser_team,
                villain,
            )
        },
        Winner::Villains => {
            &&& is_villain_side(
                r.winner_name,
                r.winner_level,
                r.winner_powers,
                r.winner_picture,
                r.winner_team,
                villain,
            )
            &&& is_hero_side(
                r.loser_name,
                r.loser_level,
                r.loser_powers,
                r.loser_picture,
                r.loser_team,
                hero,
            )
        },
    }
}

/// The values bound to the placeholders of the statement that inserts a fight
/// into the `fights` table, in the order of its columns: id, fight_date,
/// winner_name, winner_level, winner_powers, winner_picture, winner_team,
/// loser_name, loser_level, loser_powers, loser_picture, loser_team,
/// location_name, location_description, location_picture.
pub open spec fn fight_row(r: FightResult) -> Seq<SqlParam> {
    seq![
        SqlParam::Text(r.id),
        SqlParam::Text(r.fight_date),
        SqlParam::Text(r.winner_name),
        SqlParam::Integer(r.winner_level),
        SqlParam::Text(r.winner_powers),
        SqlParam::Text(r.winner_picture),
        SqlParam::Text(r.winner_team),
        SqlParam::Text(r.loser_name),
        SqlParam::Integer(r.loser_level),
        SqlParam::Text(r.loser_powers),
        SqlParam::Text(r.loser_picture),
        SqlParam::Text(r.loser_team),
        SqlParam::Text(r.location.name),
        SqlParam::Text(r.location.description),
        SqlParam::Text(r.location.picture),
    ]
}

/// `s` without the copies of `c` at its end, as `str::trim_end_matches(c)` gives it.
pub open spec fn trim_end_matching(s: Seq<char>, c: char) -> Seq<char>
    decreases s.len(),
{
    if s.len() > 0 && s.last() == c {
        trim_end_matching(s.drop_last(), c)
    } else {
        s
    }
}

/// The URL of `path` on the service at `base`: `base` without trailing slashes,
/// followed by `path`.
pub open spec fn service_url_of(base: Seq<char>, path: Seq<char>) -> Seq<char> {
    trim_end_matching(base, '/') + path
}

// ---------------------------------------------------------------------------
// Outside calls
// ---------------------------------------------------------------------------

/// `rand::rngs::ThreadRng`, the handle to the thread's random generator, opaque here.
#[verifier::external_type_specification]
#[verifier::external_body]
pub struct ExThreadRng(ThreadRng);

/// `rand::rng`: a handle to the thread's random generator.  Nothing is claimed of it.
#[verifier::external_body]
fn thread_rng() -> ThreadRng {
    rand::rng()
}

/// `RngCore::next_u32` on the thread's generator: a random `u32`.  Nothing is
/// claimed of its value.
#[verifier::external_body]
fn next_u32(rng: &mut ThreadRng) -> u32 {
    rng.next_u32()
}

// ---------------------------------------------------------------------------
// Executable operations
// ---------------------------------------------------------------------------

fn team_name(winner: Winner) -> (res: String)
    ensures
        res@ == (match winner {
            Winner::Heroes => heroes_team(),
            Winner::Villains => villains_team(),
        }),
{
    let mut res = String::new();
    match winner {
        Winner::Heroes => push_chars(&mut res, &vec!['h', 'e', 'r', 'o', 'e', 's']),
        Winner::Villains => push_chars(&mut res, &vec!['v', 'i', 'l', 'l', 'a', 'i', 'n', 's']),
    }
    res
}

fn copy_location(location: &Location) -> (res: Location)
    ensures
        res == *location,
{
    Location {
        name: location.name.clone(),
        description: location.description.clone(),
        picture: location.picture.clone(),
        location_type: location.location_type,
    }
}

/// The side that a random draw makes win.
pub fn winner_of(draw: u32) -> (res: Winner)
    ensures
        res == winner_of_draw(draw),
        res == Winner::Heroes <==> draw % 2 == 0,
        res == Winner::Villains <==> draw % 2 == 1,
{
    if draw % 2 == 0 {
        Winner::Heroes
    } else {
        Winner::Villains
    }
}

impl FightResult {
    /// The record of the fight of `hero` against `villain` at `location`, won by
    /// `winner`, under the given id and date.
    pub fn new(
        winner: Winner,
        hero: &SqlHero,
        villain: &SqlVillain,
        location: &Location,
        id: String,
        fight_date: String,
    ) -> (res: FightResult)
        ensures
            records_fight(res, winner, hero@, villain@, *location, id@, fight_date@),
    {
        let heroes = team_name(Winner::Heroes);
        let villains = team_name(Winner::Villains);
        match winner {
            Winner::Heroes => FightResult {
                id,
                fight_date,
                winner_name: hero.name().clone(),
                winner_level: hero.level(),
                winner_powers: hero.powers().clone(),
                winner_picture: hero.picture().clone(),
                winner_team: heroes,
                loser_name: villain.name().clone(),
                loser_level: villain.level(),
                loser_powers: villain.powers().clone(),
                loser_picture: villain.picture().clone(),
                loser_team: villains,
                location: copy_location(location),
            },
            Winner::Villains => FightResult {
                id,
                fight_date,
                winner_name: villain.name().clone(),
                winner_level: villain.level(),
                winner_powers: villain.powers().clone(),
                winner_picture: villain.picture().clone(),
                winner_team: villains,
                loser_name: hero.name().clone(),
                loser_level: hero.level(),
                loser_powers: hero.powers().clone(),
                loser_picture: hero.picture().clone(),
                loser_team: heroes,
                location: copy_location(location),
            },
        }
    }

    /// The values to bind to the statement that inserts this record into the
    /// `fights` table, in the order of its columns.
    pub fn insert_params(&self) -> (res: Vec<SqlParam>)
        ensures
            res@ == fight_row(*self),
    {
        let res = vec![
            SqlParam::Text(self.id.clone()),
            SqlParam::Text(self.fight_date.clone()),
            SqlParam::Text(self.winner_name.clone()),
            SqlParam::Integer(self.winner_level),
            SqlParam::Text(self.winner_powers.clone()),
            SqlParam::Text(self.winner_picture.clone()),
            SqlParam::Text(self.winner_team.clone()),
            SqlParam::Text(self.loser_name.clone()),
            SqlParam::Integer(self.loser_level),
            SqlParam::Text(self.loser_powers.clone()),
            SqlParam::Text(self.loser_picture.clone()),
            SqlParam::Text(self.loser_team.clone()),
            SqlParam::Text(self.location.name.clone()),
            SqlParam::Text(self.location.description.clone()),
            SqlParam::Text(self.location.picture.clone()),
        ];
        assert(res@ =~= fight_row(*self));
        res
    }
}

/// The fight that a request asks for, decided by the random draw `draw`: the
/// heroes win on an even draw, the villains on an odd one.
pub fn fight_with_draw(request: &FightRequest, draw: u32, id: String, fight_date: String) -> (res:
    FightResult)
    ensures
        records_fight(
            res,
            winner_of_draw(draw),
            request.hero@,
            request.villain@,
            request.location,
            id@,
            fight_date@,
        ),
{
    let winner = winner_of(draw);
    FightResult::new(winner, &request.hero, &request.villain, &request.location, id, fight_date)
}

/// Runs the fight that a request asks for: a draw of the thread's random generator
/// decides the winner, as `fight_with_draw` describes.
pub fn execute_fight(request: &FightRequest, id: String, fight_date: String) -> (res: FightResult)
    ensures
        records_fight(
            res,
            Winner::Heroes,
            request.hero@,
            request.villain@,
            request.location,
            id@,
            fight_date@,
        ) || records_fight(
            res,
            Winner::Villains,
            request.hero@,
            request.villain@,
            request.location,
            id@,
            fight_date@,
        ),
{
    let mut rng = thread_rng();
    let draw = next_u32(&mut rng);
    fight_with_draw(request, draw, id, fight_date)
}

/// The URL of `path` on the service at `base`: trailing slashes of `base` are
/// dropped before `path` is appended.
pub fn service_url(base: &str, path: &str) -> (res: String)
    ensures
        res@ == service_url_of(base@, path@),
{
    let cs = chars_of(base);
    let mut e = cs.len();
    assert(cs@.take(e as int) =~= cs@);
    while e > 0 && cs[e - 1] == '/'
        invariant
            e <= cs.len(),
            trim_end_matching(cs@, '/') == trim_end_matching(cs@.take(e as int), '/'),
        decreases e,
    {
        assert(cs@.take(e as int).drop_last() =~= cs@.take(e - 1));
        e = e - 1;
    }
    let mut res = string_of_range(&cs, 0, e);
    assert(cs@.subrange(0, e as int) =~= cs@.take(e as int));
    res.append(path);
    res
}

/// The URL that gives a random hero on the heroes service at `heroes_base_url`.
pub fn random_hero_url(heroes_base_url: &str) -> (res: String)
    ensures
        res@ == service_url_of(heroes_base_url@, "/api/heroes/random_hero"@),
{
    service_url(heroes_base_url, "/api/heroes/random_hero")
}

/// The URL that gives a random villain on the villains service at `villains_base_url`.
pub fn random_villain_url(villains_base_url: &str) -> (res: String)
    ensures
        res@ == service_url_of(villains_base_url@, "/api/villains/random_villain"@),
{
    service_url(villains_base_url, "/api/villains/random_villain")
}

// ---------------------------------------------------------------------------
// Laws
// ---------------------------------------------------------------------------

/// Whoever wins, a record names the hero and the villain, one as winner and one
/// as loser, on opposite teams.
pub proof fn lemma_record_sides(
    r: FightResult,
    winner: Winner,
    hero: HeroView,
    villain: VillainView,
    location: Location,
    id: Seq<char>,
    date: Seq<char>,
)
    requires
        records_fight(r, winner, hero, villain, location, id, date),
    ensures
        (r.winner_name@ == hero.name && r.loser_name@ == villain.name) || (r.winner_name@
            == villain.name && r.loser_name@ == hero.name),
        r.winner_team@ != r.loser_team@,
        r.winner_team@ == heroes_team() <==> winner == Winner::Heroes,
{
    assert(heroes_team()[0] != villains_team()[0]);
}

/// The heroes win exactly the even draws and the villains exactly the odd ones.
pub proof fn lemma_winner_parity(draw: u32)
    ensures
        winner_of_draw(draw) == Winner::Heroes <==> draw % 2 == 0,
        winner_of_draw(draw) == Winner::Villains <==> draw % 2 == 1,
{
}

/// A record takes every winner column from the winning fighter and every loser
/// column from the other one, and the location as it was given.
pub proof fn lemma_record_columns(
    r: FightResult,
    winner: Winner,
    hero: HeroView,
    villain: VillainView,
    location: Location,
    id: Seq<char>,
    date: Seq<char>,
)
    requires
        records_fight(r, winner, hero, villain, location, id, date),
    ensures
        r.id@ == id,
        r.fight_date@ == date,
        r.location.name == location.name,
        r.location.description == location.description,
        r.location.picture == location.picture,
        r.location.location_type == location.location_type,
        winner == Winner::Heroes ==> {
            &&& r.winner_name@ == hero.name
            &&& r.winner_level == hero.level
            &&& r.winner_powers@ == hero.powers
            &&& r.winner_picture@ == hero.picture
            &&& r.winner_team@ == seq!['h', 'e', 'r', 'o', 'e', 's']
            &&& r.loser_name@ == villain.name
            &&& r.loser_level == villain.level
            &&& r.loser_powers@ == villain.powers
            &&& r.loser_picture@ == villain.picture
            &&& r.loser_team@ == seq!['v', 'i', 'l', 'l', 'a', 'i', 'n', 's']
        },
        winner == Winner::Villains ==> {
            &&& r.winner_name@ == villain.name
            &&& r.winner_level == villain.level
            &&& r.winner_powers@ == villain.powers
            &&& r.winner_picture@ == villain.picture
            &&& r.winner_team@ == seq!['v', 'i', 'l', 'l', 'a', 'i', 'n', 's']
            &&& r.loser_name@ == hero.name
            &&& r.loser_level == hero.level
            &&& r.loser_powers@ == hero.powers
            &&& r.loser_picture@ == hero.picture
            &&& r.loser_team@ == seq!['h', 'e', 'r', 'o', 'e', 's']
        },
{
}

/// The values bound to the insert of a record are its fields, each at the
/// position of the column of the same name.
pub proof fn lemma_fight_row_columns(r: FightResult)
    ensures
        fight_row(r).len() == 15,
        fight_row(r)[0] == SqlParam::Text(r.id),
        fight_row(r)[1] == SqlParam::Text(r.fight_date),
        fight_row(r)[2] == SqlParam::Text(r.winner_name),
        fight_row(r)[3] == SqlParam::Integer(r.winner_level),
        fight_row(r)[4] == SqlParam::Text(r.winner_powers),
        fight_row(r)[5] == SqlParam::Text(r.winner_picture),
        fight_row(r)[6] == SqlParam::Text(r.winner_team),
        fight_row(r)[7] == SqlParam::Text(r.loser_name),
        fight_row(r)[8] == SqlParam::Integer(r.loser_level),
        fight_row(r)[9] == SqlParam::Text(r.loser_powers),
        fight_row(r)[10] == SqlParam::Text(r.loser_picture),
        fight_row(r)[11] == SqlParam::Text(r.loser_team),
        fight_row(r)[12] == SqlParam::Text(r.location.name),
        fight_row(r)[13] == SqlParam::Text(r.location.description),
        fight_row(r)[14] == SqlParam::Text(r.location.picture),
{
}

/// Dropping the copies of `c` at the end of `s` keeps a prefix of `s`, drops only
/// copies of `c`, and leaves no `c` at the end.
pub proof fn lemma_trim_end_matching_shape(s: Seq<char>, c: char) -> (j: int)
    ensures
        0 <= j <= s.len(),
        trim_end_matching(s, c) == s.take(j),
        forall|m: int| j <= m < s.len() ==> #[trigger] s[m] == c,
        trim_end_matching(s, c).len() > 0 ==> trim_end_matching(s, c).last() != c,
    decreases s.len(),
{
    if s.len() > 0 && s.last() == c {
        let k = lemma_trim_end_matching_shape(s.drop_last(), c);
        assert(s.drop_last().take(k) =~= s.take(k));
        assert forall|m: int| k <= m < s.len() implies #[trigger] s[m] == c by {
            if m < s.len() - 1 {
                assert(s[m] == s.drop_last()[m]);
            }
        }
        k
    } else {
        assert(s.take(s.len() as int) =~= s);
        s.len() as int
    }
}

/// Trailing slashes on a service's base URL do not change the URLs built on it.
pub proof fn lemma_url_ignores_trailing_slash(base: Seq<char>, path: Seq<char>)
    ensures
        service_url_of(base.push('/'), path) == service_url_of(base, path),
{
    assert(base.push('/').drop_last() =~= base);
}

} // verus!
