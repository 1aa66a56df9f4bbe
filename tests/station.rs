use zelfm::{compose_chat, ChatError, ListenerInfo, StationState, NOMINAL_BITRATE};

fn demo_station() -> StationState {
    StationState::new("ZelFM Demo".to_string(), "Live P2P Radio Stream".to_string(), 44100, 2)
}

#[test]
fn new_station_reports_its_configuration() {
    let s = demo_station();
    let info = s.info();
    assert_eq!(info.name, "ZelFM Demo");
    assert_eq!(info.description, "Live P2P Radio Stream");
    assert_eq!(info.bitrate, 128000);
    assert_eq!(NOMINAL_BITRATE, 128000);
    assert_eq!(info.sample_rate, 44100);
    assert_eq!(info.channels, 2);
    assert_eq!(info.listeners, 0);
}

#[test]
fn accepted_listeners_get_fresh_increasing_ids() {
    let mut s = demo_station();
    assert_eq!(s.accept_listener(), Some(0));
    assert_eq!(s.accept_listener(), Some(1));
    assert_eq!(s.listeners(), 2);
    assert!(s.release_listener(0));
    assert_eq!(s.listeners(), 1);
    // an identifier is never handed out twice
    assert_eq!(s.accept_listener(), Some(2));
    assert_eq!(s.listeners(), 2);
}

#[test]
fn releasing_an_unknown_or_released_session_changes_nothing() {
    let mut s = demo_station();
    let id = s.accept_listener().unwrap();
    assert!(!s.release_listener(id + 7));
    assert_eq!(s.listeners(), 1);
    assert!(s.release_listener(id));
    assert!(!s.release_listener(id));
    assert_eq!(s.listeners(), 0);
}

#[test]
fn listener_count_follows_one_session() {
    let mut s = demo_station();
    let id = s.accept_listener().unwrap();
    assert_eq!(s.info().listeners, 1);
    assert!(s.release_listener(id));
    assert_eq!(s.info().listeners, 0);
}

#[test]
fn shutdown_with_two_listeners_leaves_none() {
    let mut s = demo_station();
    let a = s.accept_listener().unwrap();
    let b = s.accept_listener().unwrap();
    assert_eq!(s.info().listeners, 2);
    assert!(s.release_listener(b));
    assert!(s.release_listener(a));
    assert_eq!(s.info().listeners, 0);
}

#[test]
fn info_twice_agrees_but_for_listeners() {
    let mut s = demo_station();
    let first = s.info();
    s.accept_listener().unwrap();
    let second = s.info();
    assert_eq!(first.name, second.name);
    assert_eq!(first.description, second.description);
    assert_eq!(first.bitrate, second.bitrate);
    assert_eq!(first.sample_rate, second.sample_rate);
    assert_eq!(first.channels, second.channels);
    assert_eq!(first.listeners + 1, second.listeners);
    let third = s.info();
    assert_eq!(second.listeners, third.listeners);
    assert_eq!(second.name, third.name);
}

#[test]
fn chat_from_a_listener_carries_its_identity() {
    let l1 = ListenerInfo { id: 4, nickname: Some("ann".to_string()) };
    let m = compose_chat(Some(&l1), "hello".to_string(), 1_700_000_000).unwrap();
    assert_eq!(m.message, "hello");
    assert_eq!(m.listener_id, l1.id);
    assert_eq!(m.nickname.as_deref(), Some("ann"));
    assert_eq!(m.timestamp, 1_700_000_000);
}

#[test]
fn chat_fan_out_message_is_exactly_the_text_sent() {
    let l1 = ListenerInfo { id: 0, nickname: None };
    let m = compose_chat(Some(&l1), "x".to_string(), 0).unwrap();
    assert_eq!(m.message, "x");
    assert_eq!(m.listener_id, 0);
    assert!(m.nickname.is_none());
}

#[test]
fn chat_without_identity_is_refused() {
    let r = compose_chat(None, "hello".to_string(), 5);
    assert_eq!(r.unwrap_err(), ChatError::ListenerInfoMissing);
    assert_eq!(ChatError::ListenerInfoMissing.describe(), "Listener info not found");
}
