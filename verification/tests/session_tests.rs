use quantum_vpn::session::{current_time_nanos, session_is_active, signed_nanos, ClientInfo, SessionManager};

fn key() -> Vec<u8> {
    vec![9u8; 32]
}

#[test]
fn created_session_is_listed_then_taken_out() {
    let mut m: SessionManager<u32> = SessionManager::new();
    assert!(m.list_sessions().is_empty());
    let id = m.create_session_at("10.0.0.1:5000".to_string(), key(), 7, 1_000).unwrap();
    let chars: Vec<char> = id.chars().collect();
    assert_eq!(chars.len(), 36);
    for (i, c) in chars.iter().enumerate() {
        if i == 8 || i == 13 || i == 18 || i == 23 {
            assert_eq!(*c, '-');
        } else {
            assert!(c.is_ascii_hexdigit() && !c.is_ascii_uppercase());
        }
    }
    assert_eq!(chars[14], '4');
    assert!(matches!(chars[19], '8' | '9' | 'a' | 'b'));
    let listed = m.list_sessions();
    assert_eq!(
        listed,
        vec![ClientInfo {
            id: id.clone(),
            ip: "10.0.0.1:5000".to_string(),
            connected_at: 1_000,
            bytes_sent: 0,
            bytes_received: 0,
        }]
    );
    let mut taken = m.get_session(&id).unwrap();
    assert_eq!(taken.id, id);
    assert_eq!(taken.ws, 7);
    assert_eq!(taken.client_info.id, id);
    assert!(m.get_session(&id).is_none());
    assert!(m.list_sessions().is_empty());
    let ct = taken.crypto.encrypt(b"abc").unwrap();
    assert_eq!(ct.len(), 19);
}

#[test]
fn session_ids_differ() {
    let mut m: SessionManager<()> = SessionManager::new();
    let a = m.create_session_at("a".to_string(), key(), (), 0).unwrap();
    let b = m.create_session_at("b".to_string(), key(), (), 0).unwrap();
    assert_ne!(a, b);
    assert_eq!(m.list_sessions().len(), 2);
}

#[test]
fn remove_session_drops_only_that_session() {
    let mut m: SessionManager<u8> = SessionManager::new();
    let a = m.create_session_at("a".to_string(), key(), 1, 0).unwrap();
    let b = m.create_session_at("b".to_string(), key(), 2, 0).unwrap();
    m.remove_session(&a);
    m.remove_session("no such id");
    let listed = m.list_sessions();
    assert_eq!(listed.len(), 1);
    assert_eq!(listed[0].id, b);
    assert_eq!(m.get_session(&b).unwrap().ws, 2);
}

#[test]
fn cleanup_keeps_exactly_the_young_sessions() {
    let hour: i128 = 3_600_000_000_000;
    let mut m: SessionManager<&str> = SessionManager::new();
    let old = m.create_session_at("old".to_string(), key(), "old", 0).unwrap();
    let edge = m.create_session_at("edge".to_string(), key(), "edge", 1_000).unwrap();
    let young = m.create_session_at("young".to_string(), key(), "young", 2 * hour).unwrap();
    let future = m.create_session_at("future".to_string(), key(), "future", 10 * hour).unwrap();
    m.cleanup_inactive_sessions_at(hour + 1_000, hour as u128);
    let mut ids: Vec<String> = m.list_sessions().into_iter().map(|c| c.id).collect();
    ids.sort();
    let mut expected = vec![young, future];
    expected.sort();
    assert_eq!(ids, expected);
    assert!(m.get_session(&old).is_none());
    assert!(m.get_session(&edge).is_none());
}

#[test]
fn activity_is_elapsed_time_below_timeout() {
    let info = ClientInfo {
        id: "x".to_string(),
        ip: "y".to_string(),
        connected_at: 100,
        bytes_sent: 0,
        bytes_received: 0,
    };
    assert!(session_is_active(&info, 150, 51));
    assert!(!session_is_active(&info, 150, 50));
    assert!(session_is_active(&info, 50, 1));
    assert!(!session_is_active(&info, 50, 0));
}

#[test]
fn clock_stamped_session_is_young_and_survives_cleanup() {
    let mut m: SessionManager<u8> = SessionManager::new();
    let id = m.create_session("c".to_string(), key(), 4).unwrap();
    let listed = m.list_sessions();
    assert_eq!(listed.len(), 1);
    assert_eq!(listed[0].id, id);
    assert!(listed[0].connected_at > 0);
    m.cleanup_inactive_sessions(3_600_000_000_000);
    assert_eq!(m.list_sessions().len(), 1);
    m.cleanup_inactive_sessions(0);
    assert!(m.list_sessions().is_empty());
}

#[test]
fn ages_are_measured_across_the_epoch() {
    let info = ClientInfo {
        id: "x".to_string(),
        ip: "y".to_string(),
        connected_at: -100,
        bytes_sent: 0,
        bytes_received: 0,
    };
    assert!(session_is_active(&info, 50, 151));
    assert!(!session_is_active(&info, 50, 150));
    assert!(session_is_active(&info, -60, 41));
    assert!(!session_is_active(&info, -60, 40));
    let extreme = ClientInfo { connected_at: i128::MIN, ..info.clone() };
    assert!(!session_is_active(&extreme, i128::MAX, u128::MAX));
    assert!(session_is_active(&extreme, i128::MAX - 1, u128::MAX));
}

#[test]
fn clock_readings_become_signed_nanoseconds() {
    assert_eq!(signed_nanos(false, 5), 5);
    assert_eq!(signed_nanos(true, 5), -5);
    assert_eq!(signed_nanos(true, 0), 0);
    assert!(current_time_nanos() > 1_600_000_000_000_000_000);
}
