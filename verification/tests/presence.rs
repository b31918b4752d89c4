use mqtt_building_simulator::building::{Building, Room, RoomKind};
use mqtt_building_simulator::errors::ApiError;
use mqtt_building_simulator::presence::Presence;

fn layout() -> Building {
    let mut b = Building::new();
    let first = b.create_floor("Floor 1").unwrap();
    for id in ["room-101", "room-102"] {
        b.add_room(&first.id, Room::new(id.to_string(), id.to_string(), RoomKind::Office)).unwrap();
    }
    let second = b.create_floor("Floor 2").unwrap();
    b.add_room(&second.id, Room::new("garage".to_string(), "Garage".to_string(), RoomKind::Garage))
        .unwrap();
    b
}

#[test]
fn walking_into_a_room_is_announced_once() {
    let building = layout();
    let mut presence = Presence::new();
    let first = presence.set_presence(&building, "  player-1 ", Some("room-101")).unwrap();
    assert_eq!(first.room_id.as_deref(), Some("room-101"));
    assert_eq!(first.players, 1);
    assert_eq!(first.entered_floor.as_deref(), Some("floor-1"));
    assert_eq!(presence.room_of_player("player-1").as_deref(), Some("room-101"));

    let again = presence.set_presence(&building, "player-1", Some("room-101")).unwrap();
    assert_eq!(again.players, 1);
    assert_eq!(again.entered_floor, None);
}

#[test]
fn players_move_between_rooms_and_leave() {
    let building = layout();
    let mut presence = Presence::new();
    presence.set_presence(&building, "a", Some("room-101")).unwrap();
    let b = presence.set_presence(&building, "b", Some("room-101")).unwrap();
    assert_eq!(b.players, 2);
    assert!(presence.is_occupied("room-101"));

    let moved = presence.set_presence(&building, "a", Some("garage")).unwrap();
    assert_eq!(moved.players, 1);
    assert_eq!(moved.entered_floor.as_deref(), Some("floor-2"));
    assert_eq!(presence.players_in("room-101"), 1);
    assert_eq!(presence.players_in("garage"), 1);

    let left = presence.set_presence(&building, "b", None).unwrap();
    assert_eq!(left.room_id, None);
    assert_eq!(left.players, 0);
    assert_eq!(left.entered_floor, None);
    assert!(!presence.is_occupied("room-101"));
    assert_eq!(presence.room_of_player("b"), None);

    let nowhere = presence.set_presence(&building, "b", None).unwrap();
    assert_eq!(nowhere.players, 0);
}

#[test]
fn bad_presence_reports_are_refused() {
    let building = layout();
    let mut presence = Presence::new();
    let empty = presence.set_presence(&building, "   ", Some("room-101"));
    assert!(matches!(empty, Err(ApiError::EmptyPlayerId)));
    let unknown = presence.set_presence(&building, "p", Some("room-999"));
    assert!(matches!(unknown, Err(ApiError::RoomNotFound)));
    assert_eq!(presence.room_of_player("p"), None);
}

#[test]
fn deleting_a_room_forgets_its_players() {
    let building = layout();
    let mut presence = Presence::new();
    presence.set_presence(&building, "a", Some("room-101")).unwrap();
    presence.set_presence(&building, "b", Some("room-102")).unwrap();
    presence.remove_room("room-101");
    assert_eq!(presence.room_of_player("a"), None);
    assert_eq!(presence.room_of_player("b").as_deref(), Some("room-102"));
    assert_eq!(presence.players_in("room-101"), 0);
}
