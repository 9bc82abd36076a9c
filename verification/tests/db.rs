use car_registry::db::{create, delete, get, needs_bootstrap, update, Car, DbError, UpdateCar};

fn car(reg_num: &str, brand: &str, model: &str, year: u16, color: &str) -> Car {
    Car {
        reg_num: reg_num.to_string(),
        brand: brand.to_string(),
        model: model.to_string(),
        year,
        color: color.to_string(),
    }
}

fn patch(
    reg_num: &str,
    brand: Option<&str>,
    model: Option<&str>,
    year: Option<u16>,
    color: Option<&str>,
) -> UpdateCar {
    UpdateCar {
        reg_num: reg_num.to_string(),
        brand: brand.map(|s| s.to_string()),
        model: model.map(|s| s.to_string()),
        year,
        color: color.map(|s| s.to_string()),
    }
}

#[test]
fn create_then_find() {
    let cars = create(Vec::new(), car("ABC123", "Ford", "Focus", 2020, "red")).unwrap();
    let found = get(&cars, &"ABC123".to_string());
    assert_eq!(found, Some(car("ABC123", "Ford", "Focus", 2020, "red")));
}

#[test]
fn create_appends_at_end() {
    let cars = create(Vec::new(), car("AAA111", "Ford", "Focus", 2020, "red")).unwrap();
    let cars = create(cars, car("BBB222", "Opel", "Corsa", 2018, "green")).unwrap();
    let cars = create(cars, car("CCC333", "Fiat", "Panda", 2015, "white")).unwrap();
    assert_eq!(cars.len(), 3);
    assert_eq!(cars[0].reg_num, "AAA111");
    assert_eq!(cars[1].reg_num, "BBB222");
    assert_eq!(cars[2].reg_num, "CCC333");
}

#[test]
fn create_collision_fails_and_changes_nothing() {
    let cars = create(Vec::new(), car("ABC123", "Ford", "Focus", 2020, "red")).unwrap();
    let snapshot = cars.clone();
    let second = create(cars, car("ABC123", "Opel", "Corsa", 2018, "green"));
    assert_eq!(second.unwrap_err(), DbError::DuplicateKeyError);
    // The failed call produced no new collection, so what was saved before
    // stands unchanged.
    assert_eq!(snapshot, vec![car("ABC123", "Ford", "Focus", 2020, "red")]);
}

#[test]
fn keys_unique_after_creates() {
    let cars = create(Vec::new(), car("AAA111", "Ford", "Focus", 2020, "red")).unwrap();
    let cars = create(cars, car("BBB222", "Opel", "Corsa", 2018, "green")).unwrap();
    let cars = create(cars, car("CCC333", "Fiat", "Panda", 2015, "white")).unwrap();
    for i in 0..cars.len() {
        for j in 0..cars.len() {
            if i != j {
                assert_ne!(cars[i].reg_num, cars[j].reg_num);
            }
        }
    }
}

#[test]
fn update_merges_present_field_only() {
    let cars = create(Vec::new(), car("ABC123", "Ford", "Focus", 2020, "red")).unwrap();
    let old = get(&cars, &"ABC123".to_string()).unwrap();
    let cars = update(cars, old, patch("ABC123", None, None, None, Some("blue"))).unwrap();
    assert_eq!(cars, vec![car("ABC123", "Ford", "Focus", 2020, "blue")]);
}

#[test]
fn update_with_keeps_every_absent_field() {
    let old = car("ABC123", "Ford", "Focus", 2020, "red");
    let merged = old.update_with(patch("ABC123", None, None, None, None));
    assert_eq!(merged, car("ABC123", "Ford", "Focus", 2020, "red"));
}

#[test]
fn update_with_replaces_every_present_field_but_the_key() {
    let old = car("ABC123", "Ford", "Focus", 2020, "red");
    let merged = old.update_with(patch(
        "ZZZ999",
        Some("Opel"),
        Some("Corsa"),
        Some(2018),
        Some("green"),
    ));
    // Every optional field is overwritten; the registration number stays the
    // record's own, whatever the payload carries.
    assert_eq!(merged, car("ABC123", "Opel", "Corsa", 2018, "green"));
}

#[test]
fn update_in_place_keeps_position() {
    let cars = create(Vec::new(), car("AAA111", "Ford", "Focus", 2020, "red")).unwrap();
    let cars = create(cars, car("BBB222", "Opel", "Corsa", 2018, "green")).unwrap();
    let cars = create(cars, car("CCC333", "Fiat", "Panda", 2015, "white")).unwrap();
    let old = get(&cars, &"BBB222".to_string()).unwrap();
    let cars = update(cars, old, patch("BBB222", None, None, Some(2019), None)).unwrap();
    assert_eq!(cars.len(), 3);
    assert_eq!(cars[0], car("AAA111", "Ford", "Focus", 2020, "red"));
    assert_eq!(cars[1], car("BBB222", "Opel", "Corsa", 2019, "green"));
    assert_eq!(cars[2], car("CCC333", "Fiat", "Panda", 2015, "white"));
}

#[test]
fn update_missing_fails_with_not_found() {
    let missing = car("ZZZ999", "Ford", "Focus", 2020, "red");
    let r = update(Vec::new(), missing, patch("ZZZ999", None, None, None, Some("blue")));
    assert_eq!(r.unwrap_err(), DbError::NotFoundError);
}

#[test]
fn update_mismatched_key_fails_with_not_found() {
    let cars = create(Vec::new(), car("AAA111", "Ford", "Focus", 2020, "red")).unwrap();
    let vanished = car("ZZZ999", "Opel", "Corsa", 2018, "green");
    let r = update(cars, vanished, patch("ZZZ999", None, None, None, Some("blue")));
    assert_eq!(r.unwrap_err(), DbError::NotFoundError);
}

#[test]
fn delete_removes_exactly_one() {
    let cars = create(Vec::new(), car("AAA111", "Ford", "Focus", 2020, "red")).unwrap();
    let cars = create(cars, car("BBB222", "Opel", "Corsa", 2018, "green")).unwrap();
    let cars = delete(cars, &"AAA111".to_string()).unwrap();
    assert_eq!(cars, vec![car("BBB222", "Opel", "Corsa", 2018, "green")]);
}

#[test]
fn delete_keeps_survivor_order() {
    let cars = create(Vec::new(), car("AAA111", "Ford", "Focus", 2020, "red")).unwrap();
    let cars = create(cars, car("BBB222", "Opel", "Corsa", 2018, "green")).unwrap();
    let cars = create(cars, car("CCC333", "Fiat", "Panda", 2015, "white")).unwrap();
    let cars = delete(cars, &"BBB222".to_string()).unwrap();
    assert_eq!(cars.len(), 2);
    assert_eq!(cars[0].reg_num, "AAA111");
    assert_eq!(cars[1].reg_num, "CCC333");
}

#[test]
fn delete_missing_fails_with_not_found() {
    let cars = create(Vec::new(), car("AAA111", "Ford", "Focus", 2020, "red")).unwrap();
    let r = delete(cars, &"ZZZ999".to_string());
    assert_eq!(r.unwrap_err(), DbError::NotFoundError);
}

#[test]
fn get_missing_returns_none() {
    let cars = create(Vec::new(), car("AAA111", "Ford", "Focus", 2020, "red")).unwrap();
    assert_eq!(get(&cars, &"ZZZ999".to_string()), None);
}

#[test]
fn get_returns_first_match() {
    // A collection breaking the uniqueness invariant can only be built by
    // hand; lookup still returns the first record under the key.
    let cars = vec![
        car("AAA111", "Ford", "Focus", 2020, "red"),
        car("AAA111", "Opel", "Corsa", 2018, "green"),
    ];
    let found = get(&cars, &"AAA111".to_string()).unwrap();
    assert_eq!(found, car("AAA111", "Ford", "Focus", 2020, "red"));
}

#[test]
fn bootstrap_only_when_file_is_absent() {
    // Initialization writes an empty collection only when no file exists, so
    // running it twice never empties an already-populated file.
    assert!(needs_bootstrap(false));
    assert!(!needs_bootstrap(true));
}

#[test]
fn year_extremes_are_stored() {
    let cars = create(Vec::new(), car("AAA111", "Ford", "Focus", 0, "red")).unwrap();
    let cars = create(cars, car("BBB222", "Opel", "Corsa", 65535, "green")).unwrap();
    assert_eq!(get(&cars, &"AAA111".to_string()).unwrap().year, 0);
    assert_eq!(get(&cars, &"BBB222".to_string()).unwrap().year, 65535);
}

#[test]
fn error_kinds_are_distinguishable() {
    let kinds = [
        DbError::ConfigError,
        DbError::IOError,
        DbError::FormatError,
        DbError::DuplicateKeyError,
        DbError::NotFoundError,
    ];
    for i in 0..kinds.len() {
        for j in 0..kinds.len() {
            if i != j {
                assert_ne!(kinds[i], kinds[j]);
            }
        }
    }
}
