use veloren_server::location::{
    handle_create_location, handle_delete_location, handle_location, valid_location_name,
    LocationAnswer, LocationCommandError, LocationError, Locations,
};

fn args(items: &[&str]) -> Vec<String> {
    items.iter().map(|s| s.to_string()).collect()
}

#[test]
fn insert_then_get_returns_position() {
    let mut locations = Locations::new();
    assert!(locations.insert("home_base".to_string(), (1, 2, 3)).is_ok());
    match locations.get("home_base") {
        Ok(pos) => assert_eq!(pos, (1, 2, 3)),
        Err(_) => panic!("location should exist"),
    }
}

#[test]
fn insert_refuses_invalid_names() {
    let mut locations = Locations::new();
    for name in ["Home", "home base", "home1", "héme"] {
        match locations.insert(name.to_string(), (0, 0, 0)) {
            Err(LocationError::InvalidName(n)) => assert_eq!(n, name),
            _ => panic!("name {name} should be invalid"),
        }
    }
    assert!(locations.iter().is_empty());
    assert!(valid_location_name(""));
    assert!(valid_location_name("a_b"));
    assert!(!valid_location_name("a-b"));
}

#[test]
fn insert_refuses_duplicates_and_keeps_first() {
    let mut locations = Locations::new();
    locations.insert("spawn".to_string(), (1, 1, 1)).unwrap();
    match locations.insert("spawn".to_string(), (2, 2, 2)) {
        Err(LocationError::DuplicateName(n)) => assert_eq!(n, "spawn"),
        _ => panic!("duplicate should be refused"),
    }
    assert_eq!(locations.get("spawn").ok(), Some((1, 1, 1)));
}

#[test]
fn remove_then_get_fails() {
    let mut locations = Locations::new();
    locations.insert("spawn".to_string(), (1, 1, 1)).unwrap();
    assert!(locations.remove("spawn").is_ok());
    match locations.get("spawn") {
        Err(LocationError::DoesNotExist(n)) => assert_eq!(n, "spawn"),
        _ => panic!("location should be gone"),
    }
    match locations.remove("spawn") {
        Err(LocationError::DoesNotExist(n)) => assert_eq!(n, "spawn"),
        _ => panic!("second removal should fail"),
    }
}

#[test]
fn error_messages() {
    assert_eq!(
        LocationError::InvalidName("A".to_string()).message(),
        "Location name 'A' is invalid. Names may only contain lowercase ASCII and underscores"
    );
    assert_eq!(
        LocationError::DuplicateName("a".to_string()).message(),
        "Location 'a' already exists, consider deleting it first"
    );
    assert_eq!(LocationError::DoesNotExist("a".to_string()).message(), "Location 'a' does not exist");
}

#[test]
fn iter_lists_every_name_once() {
    let mut locations = Locations::new();
    for name in ["c", "a", "b"] {
        locations.insert(name.to_string(), (0, 0, 0)).unwrap();
    }
    let mut names = locations.iter();
    names.sort();
    assert_eq!(names, vec!["a", "b", "c"]);
}

#[test]
fn location_command_lists_sorted_names() {
    let mut locations = Locations::new();
    match handle_location(&locations, &args(&[])) {
        Ok(LocationAnswer::Listing(names)) => assert!(names.is_empty()),
        _ => panic!("expected an empty listing"),
    }
    for name in ["zeta", "alpha", "mid_point", "alp"] {
        locations.insert(name.to_string(), (0, 0, 0)).unwrap();
    }
    match handle_location(&locations, &args(&[])) {
        Ok(LocationAnswer::Listing(names)) => {
            assert_eq!(names, vec!["alp", "alpha", "mid_point", "zeta"])
        },
        _ => panic!("expected a listing"),
    }
}

#[test]
fn location_command_teleports_to_named_location() {
    let mut locations = Locations::new();
    assert_eq!(handle_create_location(&mut locations, &args(&["camp"]), Some((7, 8, 9))).ok(), Some(
        "camp".to_string()
    ));
    match handle_location(&locations, &args(&["camp"])) {
        Ok(LocationAnswer::TeleportTo(pos)) => assert_eq!(pos, (7, 8, 9)),
        _ => panic!("expected a teleport"),
    }
    match handle_location(&locations, &args(&["nowhere"])) {
        Err(LocationError::DoesNotExist(n)) => assert_eq!(n, "nowhere"),
        _ => panic!("expected an error"),
    }
}

#[test]
fn create_location_errors() {
    let mut locations = Locations::new();
    assert!(matches!(
        handle_create_location(&mut locations, &args(&[]), Some((0, 0, 0))),
        Err(LocationCommandError::Usage)
    ));
    assert!(matches!(
        handle_create_location(&mut locations, &args(&["camp"]), None),
        Err(LocationCommandError::PositionUnavailable)
    ));
    assert!(matches!(
        handle_create_location(&mut locations, &args(&["Camp"]), Some((0, 0, 0))),
        Err(LocationCommandError::Location(LocationError::InvalidName(_)))
    ));
    handle_create_location(&mut locations, &args(&["camp"]), Some((0, 0, 0))).ok().unwrap();
    assert!(matches!(
        handle_create_location(&mut locations, &args(&["camp"]), Some((1, 0, 0))),
        Err(LocationCommandError::Location(LocationError::DuplicateName(_)))
    ));
}

#[test]
fn delete_location_command() {
    let mut locations = Locations::new();
    assert!(matches!(
        handle_delete_location(&mut locations, &args(&[])),
        Err(LocationCommandError::Usage)
    ));
    assert!(matches!(
        handle_delete_location(&mut locations, &args(&["camp"])),
        Err(LocationCommandError::Location(LocationError::DoesNotExist(_)))
    ));
    locations.insert("camp".to_string(), (0, 0, 0)).unwrap();
    assert_eq!(handle_delete_location(&mut locations, &args(&["camp"])).ok(), Some("camp".to_string()));
    assert!(locations.get("camp").is_err());
}
