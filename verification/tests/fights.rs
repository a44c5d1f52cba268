use superheroes::fights::{
    execute_fight, fight_with_draw, random_hero_url, random_villain_url, service_url, winner_of,
    FightRequest, FightResult, Fighters, SqlParam, Winner,
};
use superheroes::heroes::SqlHero;
use superheroes::location::Location;
use superheroes::lookup::lookup_response;
use superheroes::villains::SqlVillain;

fn hero() -> SqlHero {
    SqlHero::new(
        7,
        30,
        "Batman".to_string(),
        Some("Bruce Wayne".to_string()),
        "bat.png".to_string(),
        "money".to_string(),
    )
}

fn villain() -> SqlVillain {
    SqlVillain::new(
        9,
        25,
        "Joker".to_string(),
        "Jack Napier".to_string(),
        "joker.png".to_string(),
        "laughing".to_string(),
    )
}

fn location() -> Location {
    Location {
        name: "Gotham".to_string(),
        description: "dark".to_string(),
        picture: "gotham.png".to_string(),
        location_type: 0,
    }
}

fn request() -> FightRequest {
    FightRequest { hero: hero(), villain: villain(), location: location() }
}

#[test]
fn even_draws_go_to_the_heroes() {
    assert_eq!(winner_of(0), Winner::Heroes);
    assert_eq!(winner_of(4), Winner::Heroes);
    assert_eq!(winner_of(7), Winner::Villains);
    assert_eq!(winner_of(u32::MAX), Winner::Villains);
}

#[test]
fn heroes_win_record() {
    let r = fight_with_draw(&request(), 2, "id-1".to_string(), "2024-01-01".to_string());
    assert_eq!(r, FightResult {
        id: "id-1".to_string(),
        fight_date: "2024-01-01".to_string(),
        winner_name: "Batman".to_string(),
        winner_level: 30,
        winner_powers: "money".to_string(),
        winner_picture: "bat.png".to_string(),
        winner_team: "heroes".to_string(),
        loser_name: "Joker".to_string(),
        loser_level: 25,
        loser_powers: "laughing".to_string(),
        loser_picture: "joker.png".to_string(),
        loser_team: "villains".to_string(),
        location: location(),
    });
}

#[test]
fn villains_win_record() {
    let r = fight_with_draw(&request(), 3, "id-2".to_string(), "d".to_string());
    assert_eq!(r.winner_name, "Joker");
    assert_eq!(r.winner_level, 25);
    assert_eq!(r.winner_team, "villains");
    assert_eq!(r.loser_name, "Batman");
    assert_eq!(r.loser_team, "heroes");
    assert_eq!(r.location, location());
}

#[test]
fn random_fight_names_both_fighters() {
    for _ in 0..20 {
        let r = execute_fight(&request(), "x".to_string(), "y".to_string());
        let names = (r.winner_name.as_str(), r.loser_name.as_str());
        assert!(names == ("Batman", "Joker") || names == ("Joker", "Batman"));
        assert_ne!(r.winner_team, r.loser_team);
    }
}

#[test]
fn insert_params_follow_the_columns() {
    let r = fight_with_draw(&request(), 0, "id".to_string(), "date".to_string());
    let t = |s: &str| SqlParam::Text(s.to_string());
    assert_eq!(r.insert_params(), vec![
        t("id"),
        t("date"),
        t("Batman"),
        SqlParam::Integer(30),
        t("money"),
        t("bat.png"),
        t("heroes"),
        t("Joker"),
        SqlParam::Integer(25),
        t("laughing"),
        t("joker.png"),
        t("villains"),
        t("Gotham"),
        t("dark"),
        t("gotham.png"),
    ]);
}

#[test]
fn service_urls_drop_trailing_slashes() {
    assert_eq!(random_hero_url("http://localhost:8080"), "http://localhost:8080/api/heroes/random_hero");
    assert_eq!(random_hero_url("http://localhost:8080//"), "http://localhost:8080/api/heroes/random_hero");
    assert_eq!(random_villain_url("http://h:8081/"), "http://h:8081/api/villains/random_villain");
    assert_eq!(service_url("", "/p"), "/p");
    assert_eq!(service_url("///", "/p"), "/p");
    assert_eq!(service_url("a/b/", "/c"), "a/b/c");
}

#[test]
fn fighters_and_views() {
    let f = Fighters { hero: hero(), villain: villain() };
    assert_eq!(f.hero.id(), 7);
    assert_eq!(f.hero.other_name, Some("Bruce Wayne".to_string()));
    assert_eq!(f.villain.id(), 9);
    assert_eq!(f.villain.other_name(), "Jack Napier");
}

#[test]
fn lookups_answer_200_or_404() {
    assert_eq!(lookup_response(Some(hero())), (200, Some(hero())));
    assert_eq!(lookup_response::<SqlVillain>(None), (404, None));
}
