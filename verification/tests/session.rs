use bm1_server::session::SessionManager;

#[test]
fn test_create_session() {
    let mut mgr = SessionManager::new();
    let id = mgr.create_session();
    assert_eq!(id, 1);
    let session = mgr.get_session(id).unwrap();
    assert!(session.connected);
}

#[test]
fn test_disconnect_and_reconnect() {
    let mut mgr = SessionManager::new();
    let id = mgr.create_session();

    mgr.disconnect(id);
    assert!(!mgr.get_session(id).unwrap().connected);

    let result = mgr.reconnect(id);
    assert!(result);
    assert!(mgr.get_session(id).unwrap().connected);
}

#[test]
fn test_reconnect_nonexistent_session() {
    let mut mgr = SessionManager::new();
    assert!(!mgr.reconnect(999));
}

#[test]
fn test_reconnect_already_connected() {
    let mut mgr = SessionManager::new();
    let id = mgr.create_session();
    assert!(!mgr.reconnect(id));
}

#[test]
fn session_ids_are_fresh_and_increasing() {
    let mut mgr = SessionManager::new();
    assert_eq!(mgr.next_session_id(), 1);
    let a = mgr.create_session();
    let b = mgr.create_session();
    let c = mgr.create_session();
    assert_eq!((a, b, c), (1, 2, 3));
    assert_eq!(mgr.next_session_id(), 4);
    assert_eq!(mgr.get_session(b).unwrap().id, 2);
}

#[test]
fn disconnect_keeps_the_session_and_its_player() {
    let mut mgr = SessionManager::new();
    let id = mgr.create_session();
    mgr.set_player_id(id, 42);
    mgr.disconnect(id);
    let s = mgr.get_session(id).unwrap();
    assert!(!s.connected);
    assert_eq!(s.player_id, 42);
    assert!(mgr.reconnect(id));
    assert_eq!(mgr.player_id(id), Some(42));
}

#[test]
fn unknown_sessions_are_left_alone() {
    let mut mgr = SessionManager::new();
    mgr.disconnect(7);
    mgr.set_player_id(7, 1);
    assert!(mgr.get_session(7).is_none());
    assert_eq!(mgr.player_id(7), None);
}

#[test]
fn new_session_has_no_player() {
    let mut mgr = SessionManager::new();
    let id = mgr.create_session();
    assert_eq!(mgr.player_id(id), Some(0));
}

#[test]
fn touch_refreshes_only_the_activity_time() {
    let mut mgr = SessionManager::new();
    let id = mgr.create_session();
    mgr.set_player_id(id, 7);
    mgr.disconnect(id);
    let before = mgr.get_session(id).unwrap().last_active;
    mgr.touch(id);
    let s = mgr.get_session(id).unwrap();
    assert_eq!((s.id, s.connected, s.player_id), (id, false, 7));
    assert!(s.last_active >= before);
    mgr.touch(42);
    assert!(mgr.get_session(42).is_none());
    assert_eq!(mgr.next_session_id(), 2);
}

#[test]
fn sessions_present_are_exactly_those_created() {
    let mut mgr = SessionManager::new();
    for _ in 0..3 {
        mgr.create_session();
    }
    mgr.disconnect(2);
    mgr.reconnect(2);
    mgr.disconnect(3);
    assert!(mgr.get_session(0).is_none());
    for id in 1..4 {
        assert_eq!(mgr.get_session(id).unwrap().id, id);
    }
    assert!(mgr.get_session(4).is_none());
}
