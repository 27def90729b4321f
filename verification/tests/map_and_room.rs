use telepathy::peer::{room_hash, PeerId};
use telepathy::room::{RoomAction, RoomController, RoomMessage, RoomSlot};
use telepathy::session_map::{SessionHandle, SessionMap};

fn peer(tag: u8) -> PeerId {
    PeerId::from_bytes(vec![tag; 4])
}

#[test]
fn session_map_keeps_one_entry_per_peer() {
    let mut map = SessionMap::new();
    assert_eq!(map.len(), 0);
    assert!(map.insert(peer(1), SessionHandle::new(false)).is_none());
    assert!(map.insert(peer(2), SessionHandle::new(true)).is_none());
    assert_eq!(map.len(), 2);
    // A forced re-insert keeps the map at one entry for the peer.
    let old = map.insert(peer(1), SessionHandle::new(true));
    assert_eq!(map.len(), 2);
    // ... and the previous session comes back with both signals fired.
    let old = old.expect("the old session is handed back");
    assert!(old.end_call_notified);
    assert!(old.stop_session_cancelled);
    assert!(!old.relayed);
    let current = map.get(&peer(1)).expect("the new session is in the map");
    assert!(current.relayed);
    assert!(!current.end_call_notified);
}

#[test]
fn session_map_remove_and_reset() {
    let mut map = SessionMap::new();
    map.insert(peer(1), SessionHandle::new(false));
    map.insert(peer(2), SessionHandle::new(false));
    let removed = map.remove(&peer(1)).expect("present");
    assert!(!removed.end_call_notified);
    assert!(map.get(&peer(1)).is_none());
    assert!(map.remove(&peer(9)).is_none());
    assert_eq!(map.len(), 1);

    let torn = map.reset();
    assert_eq!(map.len(), 0);
    assert_eq!(torn.len(), 1);
    assert!(torn[0].end_call_notified && torn[0].stop_session_cancelled);
}

#[test]
fn room_outputs_match_joins_minus_leaves() {
    let mut room = RoomController::new();
    assert!(matches!(
        room.handle(&RoomMessage::Join(peer(1))),
        RoomAction::StartOutput { first: true }
    ));
    assert!(matches!(
        room.handle(&RoomMessage::Join(peer(2))),
        RoomAction::StartOutput { first: false }
    ));
    assert!(matches!(
        room.handle(&RoomMessage::Join(peer(3))),
        RoomAction::StartOutput { first: false }
    ));
    // Three joins, no leaves: three outputs.
    assert_eq!(room.output_count(), 3);
    assert!(matches!(
        room.handle(&RoomMessage::Leave(peer(2))),
        RoomAction::TearDownOutput
    ));
    assert_eq!(room.output_count(), 2);
    // A leave without a join tears nothing down.
    assert!(matches!(
        room.handle(&RoomMessage::Leave(peer(9))),
        RoomAction::UnknownLeave
    ));
    assert_eq!(room.output_count(), 2);
    // A duplicate join replaces the output instead of adding one.
    assert!(matches!(
        room.handle(&RoomMessage::Join(peer(1))),
        RoomAction::ReplaceOutput
    ));
    assert_eq!(room.output_count(), 2);
}

#[test]
fn replacing_the_room_tears_the_old_one_down() {
    let mut slot = RoomSlot::new();
    assert!(!slot.is_active());
    assert!(slot.replace(vec![peer(1), peer(2)]).is_none());
    assert!(slot.is_active());
    assert!(slot.is_in_room(&peer(1)));
    assert!(!slot.is_in_room(&peer(3)));

    let old = slot.replace(vec![peer(3)]).expect("old room handed back");
    assert!(old.cancelled);
    assert!(old.end_call_notified);
    assert!(slot.is_in_room(&peer(3)));
    assert!(!slot.is_in_room(&peer(1)));

    slot.clear();
    assert!(!slot.is_active());
    assert!(slot.room_hash().is_none());
}

#[test]
fn room_hash_ignores_member_order() {
    let a = room_hash(&vec![peer(1), peer(2), peer(3)]);
    let b = room_hash(&vec![peer(3), peer(1), peer(2)]);
    assert_eq!(a.len(), 8);
    assert_eq!(a, b);
    let c = room_hash(&vec![peer(1), peer(2)]);
    assert_ne!(a, c);
}

#[test]
fn empty_room_hashes_to_zero() {
    assert_eq!(room_hash(&Vec::new()), vec![0u8; 8]);
}

#[test]
fn duplicate_members_cancel_in_the_hash() {
    // The hash folds with exclusive-or, so a member listed twice vanishes.
    let twice = room_hash(&vec![peer(1), peer(1)]);
    assert_eq!(twice, vec![0u8; 8]);
}

#[test]
fn room_slot_hash_matches_free_function() {
    let mut slot = RoomSlot::new();
    slot.replace(vec![peer(4), peer(5)]);
    assert_eq!(slot.room_hash().unwrap(), room_hash(&vec![peer(4), peer(5)]));
}

#[test]
fn peer_identity_compares_bytewise() {
    assert!(peer(1).same_peer(&peer(1)));
    assert!(!peer(1).same_peer(&peer(2)));
    assert!(peer(1).is_less_than(&peer(2)));
    assert!(!peer(2).is_less_than(&peer(1)));
    assert!(!peer(1).is_less_than(&peer(1)));
    // A proper prefix orders first.
    let short = PeerId::from_bytes(vec![1, 1]);
    let long = PeerId::from_bytes(vec![1, 1, 0]);
    assert!(short.is_less_than(&long));
    assert!(!long.is_less_than(&short));
}
