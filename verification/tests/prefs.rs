use gens_relay::prefs::{Alias, AppPrefs};

#[test]
fn a_given_name_is_shown() {
    let mut p = AppPrefs::new();
    assert_eq!(p.shown_name("1", "attic"), "attic");
    p.rename("1", "Ada".to_string());
    p.rename("2", "Bob".to_string());
    assert_eq!(p.shown_name("1", "attic"), "Ada");
    p.rename("1", "Eve".to_string());
    assert_eq!(p.shown_name("1", "attic"), "Eve");
    assert_eq!(p.shown_name("2", "cellar"), "Bob");
    assert_eq!(p.shown_name("3", "garden"), "garden");
    assert_eq!(p.aliases.len(), 2);
}

#[test]
fn the_last_of_two_names_counts() {
    let alias = |name: &str| Alias { id: "1".to_string(), name: name.to_string() };
    let p = AppPrefs { aliases: vec![alias("Ada"), alias("Eve")], favorites: vec![] };
    assert_eq!(p.shown_name("1", "attic"), "Eve");
}

#[test]
fn a_favorite_is_toggled() {
    let mut p = AppPrefs::new();
    assert!(!p.is_favorite("1"));
    p.toggle_favorite("1");
    p.toggle_favorite("2");
    assert!(p.is_favorite("1"));
    assert!(p.is_favorite("2"));
    p.toggle_favorite("1");
    assert!(!p.is_favorite("1"));
    assert_eq!(p.favorites, vec!["2"]);
}

#[test]
fn a_favorite_that_occurs_twice_goes_altogether() {
    let mut p = AppPrefs {
        aliases: vec![],
        favorites: vec!["1".to_string(), "2".to_string(), "1".to_string()],
    };
    p.toggle_favorite("1");
    assert_eq!(p.favorites, vec!["2"]);
}
