use superheroes::seeding::{insert_statements, nextval_marker_text, seed_statements};

const LOCATIONS: &str = "-- locations\nCREATE TABLE locations (id INTEGER);\n\nINSERT INTO locations(name, type) VALUES ('Gotham City', 'CITY');\n  INSERT INTO locations(name, type) VALUES ('Krypton', 'PLANET')  ;\n-- the end\n";

#[test]
fn insert_statements_keeps_only_inserts_in_order() {
    let got = insert_statements(LOCATIONS);
    assert_eq!(
        got,
        vec![
            "INSERT INTO locations(name, type) VALUES ('Gotham City', 'CITY')".to_string(),
            "INSERT INTO locations(name, type) VALUES ('Krypton', 'PLANET')".to_string(),
        ]
    );
}

#[test]
fn insert_statements_drops_text_before_the_keyword() {
    let got = insert_statements("-- a comment\nINSERT INTO t VALUES (1);");
    assert_eq!(got, vec!["INSERT INTO t VALUES (1)".to_string()]);
}

#[test]
fn insert_statements_of_empty_script() {
    assert!(insert_statements("").is_empty());
    assert!(insert_statements(";;;").is_empty());
    assert!(insert_statements("SELECT 1; insert into t values (2)").is_empty());
}

#[test]
fn insert_statements_without_trailing_semicolon() {
    let got = insert_statements("INSERT INTO t VALUES (1);INSERT INTO t VALUES (2)");
    assert_eq!(
        got,
        vec!["INSERT INTO t VALUES (1)".to_string(), "INSERT INTO t VALUES (2)".to_string()]
    );
}

#[test]
fn insert_statements_trims_unicode_whitespace() {
    let got = insert_statements("\u{3000}INSERT INTO t VALUES ('é')\u{00A0}\t\n;");
    assert_eq!(got, vec!["INSERT INTO t VALUES ('é')".to_string()]);
}

#[test]
fn insert_statements_keeps_inner_keyword_occurrences() {
    let got = insert_statements("x INSERT INTO a INSERT INTO b ;");
    assert_eq!(got, vec!["INSERT INTO a INSERT INTO b".to_string()]);
}

#[test]
fn marker_text_names_the_sequence() {
    assert_eq!(nextval_marker_text("hero_seq"), "nextval('hero_seq')".to_string());
}

#[test]
fn seed_statements_number_the_rows_by_fifty() {
    let script = "INSERT INTO hero(id, name) VALUES (nextval('hero_seq'), 'A');\n\
                  INSERT INTO hero(id, name) VALUES (nextval('hero_seq'), 'B');\n\
                  INSERT INTO hero(id, name) VALUES (nextval('hero_seq'), 'C');\n";
    let got = seed_statements(script, "hero_seq");
    assert_eq!(
        got,
        vec![
            "INSERT INTO hero(id, name) VALUES (1, 'A')".to_string(),
            "INSERT INTO hero(id, name) VALUES (51, 'B')".to_string(),
            "INSERT INTO hero(id, name) VALUES (101, 'C')".to_string(),
        ]
    );
}

#[test]
fn seed_statements_replace_every_marker_of_a_statement() {
    let got = seed_statements("INSERT INTO v VALUES (nextval('s'), nextval('s'));", "s");
    assert_eq!(got, vec!["INSERT INTO v VALUES (1, 1)".to_string()]);
}

#[test]
fn seed_statements_leave_other_sequences_alone() {
    let script = "INSERT INTO v VALUES (nextval('villain_seq'));";
    assert_eq!(seed_statements(script, "hero_seq"), insert_statements(script));
}

#[test]
fn seed_statements_count_only_inserts_for_ids() {
    let script = "CREATE TABLE x (id INT);\nINSERT INTO x VALUES (nextval('q'));\n-- note;\nINSERT INTO x VALUES (nextval('q'));";
    let got = seed_statements(script, "q");
    assert_eq!(
        got,
        vec!["INSERT INTO x VALUES (1)".to_string(), "INSERT INTO x VALUES (51)".to_string()]
    );
}

#[test]
fn seed_ids_have_many_digits() {
    let mut script = String::new();
    for _ in 0..205 {
        script.push_str("INSERT INTO t VALUES (nextval('q'));\n");
    }
    let got = seed_statements(&script, "q");
    assert_eq!(got.len(), 205);
    assert_eq!(got[0], "INSERT INTO t VALUES (1)");
    assert_eq!(got[20], "INSERT INTO t VALUES (1001)");
    assert_eq!(got[204], "INSERT INTO t VALUES (10201)");
}

#[test]
fn every_statement_is_a_trimmed_insert() {
    let script = "  \n-- x\nINSERT INTO a VALUES (1) \n;\n\tINSERT INTO b VALUES (2)\r\n; trailing";
    for st in insert_statements(script) {
        assert!(st.starts_with("INSERT INTO"));
        assert_eq!(st.trim(), st);
    }
    assert_eq!(insert_statements(script).len(), 2);
}
