use mqtt_building_simulator::building::{
    clean_color, clean_name, new_room_id, validate_size, Building, Room, RoomKind,
    DEFAULT_DEPTH_BITS, DEFAULT_HEIGHT_BITS, DEFAULT_WIDTH_BITS, SIXTY_BITS, TEN_BITS, TWO_BITS,
};
use mqtt_building_simulator::errors::ApiError;

fn two_rooms() -> Building {
    let mut b = Building::new();
    let f = b.create_floor("Floor 1").unwrap();
    b.add_room(&f.id, Room::new("room-101".to_string(), "Room 101".to_string(), RoomKind::Office))
        .unwrap();
    b.add_room(&f.id, Room::new("room-102".to_string(), "Room 102".to_string(), RoomKind::Office))
        .unwrap();
    b
}

#[test]
fn names_are_trimmed_and_bounded() {
    assert_eq!(clean_name("  Blue Lab ").unwrap(), "Blue Lab");
    assert!(matches!(clean_name(" \n "), Err(ApiError::EmptyName)));
    let long = "x".repeat(61);
    assert!(matches!(clean_name(&long), Err(ApiError::NameTooLong)));
    let sixty = "é".repeat(60);
    assert_eq!(clean_name(&sixty).unwrap(), sixty);
    assert_eq!(clean_color(" #a85f5f ").as_deref(), Some("#a85f5f"));
    assert_eq!(clean_color("   "), None);
    assert_eq!(clean_color(&"c".repeat(33)), None);
}

#[test]
fn size_limits_match_the_metres() {
    assert_eq!(TWO_BITS, 2.0f64.to_bits());
    assert_eq!(TEN_BITS, 10.0f64.to_bits());
    assert_eq!(SIXTY_BITS, 60.0f64.to_bits());
    assert_eq!(DEFAULT_WIDTH_BITS, 6.0f64.to_bits());
    assert_eq!(DEFAULT_DEPTH_BITS, 5.0f64.to_bits());
    assert_eq!(DEFAULT_HEIGHT_BITS, 3.0f64.to_bits());
}

#[test]
fn room_sizes_are_checked() {
    let ok = |w: f64, d: f64, h: f64| validate_size(w.to_bits(), d.to_bits(), h.to_bits());
    assert!(ok(6.0, 5.0, 3.0).is_ok());
    assert!(ok(2.0, 60.0, 10.0).is_ok());
    assert!(matches!(ok(1.99, 5.0, 3.0), Err(ApiError::SizeOutOfRange)));
    assert!(matches!(ok(6.0, 60.5, 3.0), Err(ApiError::SizeOutOfRange)));
    assert!(matches!(ok(-6.0, 5.0, 3.0), Err(ApiError::SizeOutOfRange)));
    assert!(matches!(ok(f64::NAN, 5.0, 3.0), Err(ApiError::SizeOutOfRange)));
    assert!(matches!(ok(6.0, 5.0, 10.5), Err(ApiError::HeightOutOfRange)));
    assert!(matches!(ok(6.0, 5.0, 0.0), Err(ApiError::HeightOutOfRange)));
    assert!(matches!(ok(6.0, 5.0, -0.0), Err(ApiError::HeightOutOfRange)));
    // Width and depth are checked before the height.
    assert!(matches!(ok(100.0, 5.0, 100.0), Err(ApiError::SizeOutOfRange)));
    assert_eq!(ApiError::SizeOutOfRange.message(), "Width and depth must be between 2 and 60 metres");
    assert_eq!(ApiError::HeightOutOfRange.message(), "Height must be between 2 and 10 metres");
}

#[test]
fn room_lookup() {
    let b = two_rooms();
    assert_eq!(b.floor_id_for_room("room-102").as_deref(), Some("floor-1"));
    assert_eq!(b.floor_id_for_room("room-9"), None);
    assert_eq!(
        b.floor_room_ids("floor-1").unwrap(),
        vec!["room-101".to_string(), "room-102".to_string()]
    );
    assert_eq!(b.floor_room_ids("floor-9"), None);
    let placed = b.rooms();
    assert_eq!(placed.len(), 2);
    assert_eq!(placed[1].0, "floor-1");
    assert_eq!(placed[1].1.id, "room-102");
}

#[test]
fn floors_are_numbered_after_the_existing_ones() {
    let mut b = Building::new();
    let first = b.create_floor(" Floor 1 ").unwrap();
    assert_eq!(first.id, "floor-1");
    assert_eq!(first.name, "Floor 1");
    assert!(first.rooms.is_empty());
    assert_eq!(b.create_floor("Floor 2").unwrap().id, "floor-2");
    b.remove_floor("floor-1");
    assert_eq!(b.floors.len(), 1);
    // One floor left, `floor-2`: the next free number above one is three.
    assert_eq!(b.next_floor_id(), "floor-3");
    assert!(matches!(b.create_floor("  "), Err(ApiError::EmptyName)));
    assert_eq!(b.floors.len(), 1);
    for _ in 0..9 {
        b.create_floor("More").unwrap();
    }
    assert_eq!(b.floors.last().unwrap().id, "floor-11");
}

#[test]
fn rooms_are_added_and_removed() {
    let mut b = two_rooms();
    assert!(matches!(
        b.add_room("floor-9", Room::new("r".to_string(), "R".to_string(), RoomKind::Garage)),
        Err(ApiError::FloorNotFound)
    ));
    b.remove_room("room-101").unwrap();
    assert_eq!(b.floor_room_ids("floor-1").unwrap(), vec!["room-102".to_string()]);
    assert!(matches!(b.remove_room("room-101"), Err(ApiError::RoomNotFound)));
}

#[test]
fn new_rooms_have_the_default_size_and_colour() {
    let r = Room::new("room-1".to_string(), "One".to_string(), RoomKind::Garage);
    assert_eq!(f64::from_bits(r.width_bits), 6.0);
    assert_eq!(f64::from_bits(r.depth_bits), 5.0);
    assert_eq!(f64::from_bits(r.height_bits), 3.0);
    assert_eq!(r.color, "#8fb3d9");
    assert_eq!(r.kind, RoomKind::Garage);
}

#[test]
fn room_ids_are_random_and_short() {
    let a = new_room_id();
    let b = new_room_id();
    assert!(a.starts_with("room-"));
    assert_eq!(a.len(), 13);
    assert!(a[5..].chars().all(|c| c.is_ascii_digit() || ('a'..='f').contains(&c)));
    assert_ne!(a, b);
}

#[test]
fn deleting_a_new_floor_restores_the_building() {
    let mut b = Building::new();
    b.create_floor("Floor 1").unwrap();
    b.create_floor("Floor 2").unwrap();
    let created = b.create_floor("Floor 3").unwrap();
    let ids: Vec<String> = b.floors.iter().map(|f| f.id.clone()).collect();
    assert_eq!(ids, vec!["floor-1", "floor-2", "floor-3"]);
    b.remove_floor(&created.id);
    let ids: Vec<String> = b.floors.iter().map(|f| f.id.clone()).collect();
    assert_eq!(ids, vec!["floor-1", "floor-2"]);
}

#[test]
fn names_lose_unicode_white_space_only() {
    assert_eq!(clean_name("  Floor 2  ").unwrap(), "Floor 2");
    assert_eq!(clean_name("\u{3000}\tLab\u{2028}\u{85}").unwrap(), "Lab");
    assert_eq!(clean_name("\u{200B}Lab").unwrap(), "\u{200B}Lab");
    assert!(matches!(clean_name("\u{A0}\u{2009}\r\n"), Err(ApiError::EmptyName)));
}
