use blps::dump::names::{get_unique_name, scrub_reserved_name, NameCounts};

#[test]
fn first_name_is_bare_and_later_ones_are_numbered_from_one() {
    let mut counts = NameCounts::new();
    assert_eq!(get_unique_name(&mut counts, "Location"), "Location");
    assert_eq!(get_unique_name(&mut counts, "Location"), "Location_1");
    assert_eq!(get_unique_name(&mut counts, "Location"), "Location_2");
}

#[test]
fn numbers_go_by_encounter_not_by_alphabet() {
    let mut counts = NameCounts::new();
    let names = ["zeta", "alpha", "zeta", "beta", "alpha", "zeta"];
    let unique: Vec<String> = names.iter().map(|n| get_unique_name(&mut counts, n)).collect();
    assert_eq!(unique, vec!["zeta", "alpha", "zeta_1", "beta", "alpha_1", "zeta_2"]);
}

#[test]
fn tenth_repeat_has_two_digits() {
    let mut counts = NameCounts::new();
    let mut last = String::new();
    for _ in 0..11 {
        last = get_unique_name(&mut counts, "x");
    }
    assert_eq!(last, "x_10");
    assert_eq!(counts.count("x"), 11);
    assert_eq!(counts.count("y"), 0);
}

#[test]
fn scopes_do_not_share_counts() {
    let mut first = NameCounts::new();
    let mut second = NameCounts::new();
    assert_eq!(get_unique_name(&mut first, "a"), "a");
    assert_eq!(get_unique_name(&mut second, "a"), "a");
}

#[test]
fn reserved_name_is_escaped() {
    assert_eq!(scrub_reserved_name("mod"), "r#mod");
    assert_eq!(scrub_reserved_name("model"), "model");
    assert_eq!(scrub_reserved_name("Mod"), "Mod");
    assert_eq!(scrub_reserved_name(""), "");
}
