use shieldtank::filter::{list_contains, ShieldtankComponentFilter};

#[test]
fn filter_all_loads_everything() {
    let f = ShieldtankComponentFilter::default();
    assert!(matches!(f, ShieldtankComponentFilter::All));
    assert!(f.should_load("Level_0"));
    assert!(f.should_load(""));
}

#[test]
fn filter_nothing_loads_nothing() {
    let f = ShieldtankComponentFilter::Nothing;
    assert!(!f.should_load("Level_0"));
    assert!(!f.should_load(""));
}

#[test]
fn filter_by_list_loads_listed_labels() {
    static LIST: [&str; 2] = ["Level_0", "Entities"];
    let f = ShieldtankComponentFilter::ByList(&LIST);
    assert!(f.should_load("Level_0"));
    assert!(f.should_load("Entities"));
    assert!(!f.should_load("Level_1"));
    assert!(!f.should_load("level_0"));
    assert!(list_contains(&["a", "b"], "b"));
    assert!(!list_contains(&[], "b"));
}

#[test]
fn filter_by_pattern_uses_regex_search() {
    let f = ShieldtankComponentFilter::ByPattern("^Level_[0-9]+$".to_string());
    assert!(f.should_load("Level_12"));
    assert!(!f.should_load("Level_x"));
    let g = ShieldtankComponentFilter::ByPattern("Ent".to_string());
    assert!(g.should_load("MyEntities"));
    assert!(!g.should_load("Tiles"));
}

#[test]
fn filter_with_bad_pattern_loads_nothing() {
    let f = ShieldtankComponentFilter::ByPattern("([unclosed".to_string());
    assert!(!f.should_load("anything"));
    assert!(!f.should_load("([unclosed"));
}
