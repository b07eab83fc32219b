use rtmp_control::manager::RtmpServerManager;
use rtmp_control::ports::PortAllocator;
use std::collections::HashSet;

fn local_manager() -> RtmpServerManager {
    RtmpServerManager::with_config("127.0.0.1".to_string(), 1935)
}

#[test]
fn create_three_on_fresh_manager() {
    let mut m = local_manager();
    let r = m.create_rtmp_server(3);
    assert_eq!(
        r,
        vec![
            (0, "127.0.0.1:1935".to_string()),
            (1, "127.0.0.1:1936".to_string()),
            (2, "127.0.0.1:1937".to_string()),
        ]
    );
    assert_eq!(m.get_port(0), Some(1935));
    assert_eq!(m.get_port(2), Some(1937));
}

#[test]
fn removed_port_is_reused_but_id_is_not() {
    let mut m = local_manager();
    let first = m.create_rtmp_server(2);
    assert_eq!(first.len(), 2);
    m.remove_rtmp_server(0);
    let r = m.create_rtmp_server(1);
    assert_eq!(r, vec![(2, "127.0.0.1:1935".to_string())]);
    assert_ne!(r[0].0, 0);
    assert_eq!(m.get_by_id_rtmp_servers(0), None);
    assert_eq!(m.get_by_id_rtmp_servers(1), Some("127.0.0.1:1936".to_string()));
}

#[test]
fn unknown_id_is_not_found() {
    let m = local_manager();
    assert_eq!(m.get_by_id_rtmp_servers(999), None);
    assert!(m.get_all_rtmp_servers().is_empty());
}

#[test]
fn fifty_single_creations_are_distinct() {
    let mut m = local_manager();
    let mut ids = HashSet::new();
    let mut addresses = HashSet::new();
    for _ in 0..50 {
        let r = m.create_rtmp_server(1);
        assert_eq!(r.len(), 1);
        ids.insert(r[0].0);
        addresses.insert(r[0].1.clone());
    }
    assert_eq!(ids.len(), 50);
    assert_eq!(addresses.len(), 50);
    let mut ports = HashSet::new();
    for id in 0..50u16 {
        ports.insert(m.get_port(id).unwrap());
    }
    assert_eq!(ports.len(), 50);
}

#[test]
fn get_all_after_create_holds_old_and_new() {
    let mut m = local_manager();
    m.create_rtmp_server(2);
    m.remove_rtmp_server(1);
    let r = m.create_rtmp_server(2);
    let all = m.get_all_rtmp_servers();
    assert_eq!(all.len(), 3);
    assert_eq!(all.get(&0), Some(&"127.0.0.1:1935".to_string()));
    for (id, address) in r {
        assert_eq!(all.get(&id), Some(&address));
    }
    assert_eq!(all.get(&2), Some(&"127.0.0.1:1936".to_string()));
    assert_eq!(all.get(&3), Some(&"127.0.0.1:1937".to_string()));
}

#[test]
fn get_all_is_a_snapshot() {
    let mut m = local_manager();
    m.create_rtmp_server(1);
    let all = m.get_all_rtmp_servers();
    m.create_rtmp_server(1);
    m.remove_rtmp_server(0);
    assert_eq!(all.len(), 1);
    assert_eq!(all.get(&0), Some(&"127.0.0.1:1935".to_string()));
}

#[test]
fn remove_twice_is_harmless() {
    let mut m = local_manager();
    m.create_rtmp_server(3);
    m.remove_rtmp_server(1);
    m.remove_rtmp_server(1);
    assert_eq!(m.get_port(1), None);
    assert_eq!(m.get_all_rtmp_servers().len(), 2);
    let r = m.create_rtmp_server(2);
    assert_eq!(
        r,
        vec![(3, "127.0.0.1:1936".to_string()), (4, "127.0.0.1:1938".to_string())]
    );
}

#[test]
fn remove_unknown_id_changes_nothing() {
    let mut m = local_manager();
    m.create_rtmp_server(1);
    m.remove_rtmp_server(7);
    assert_eq!(m.get_all_rtmp_servers().len(), 1);
    assert_eq!(m.next_server_id(), 1);
}

#[test]
fn ids_increase_across_create_and_remove() {
    let mut m = local_manager();
    let a = m.create_rtmp_server(3);
    m.remove_rtmp_server(2);
    m.remove_rtmp_server(0);
    let b = m.create_rtmp_server(2);
    let ids: Vec<u16> = a.iter().chain(b.iter()).map(|e| e.0).collect();
    assert_eq!(ids, vec![0, 1, 2, 3, 4]);
    assert_eq!(m.next_server_id(), 5);
}

#[test]
fn default_manager_listens_on_all_interfaces() {
    let mut m = RtmpServerManager::new();
    let r = m.create_rtmp_server(1);
    assert_eq!(r, vec![(0, "0.0.0.0:1935".to_string())]);
}

#[test]
fn create_zero_creates_nothing() {
    let mut m = local_manager();
    let r = m.create_rtmp_server(0);
    assert!(r.is_empty());
    assert_eq!(m.next_server_id(), 0);
}

#[test]
fn exhausted_range_stops_creation() {
    let mut m = RtmpServerManager::with_config("10.0.0.1".to_string(), 65534);
    let r = m.create_rtmp_server(3);
    assert_eq!(
        r,
        vec![(0, "10.0.0.1:65534".to_string()), (1, "10.0.0.1:65535".to_string())]
    );
    assert_eq!(m.next_server_id(), 3);
    assert_eq!(m.create_rtmp_server(1), vec![]);
    assert_eq!(m.next_server_id(), 4);
    m.remove_rtmp_server(0);
    assert_eq!(m.create_rtmp_server(1), vec![(4, "10.0.0.1:65534".to_string())]);
}

#[test]
fn allocator_hands_out_lowest_free_port() {
    let mut a = PortAllocator::new(1935, 1937);
    assert_eq!(a.get_next_dynamic_port(), Some(1935));
    assert_eq!(a.get_next_dynamic_port(), Some(1936));
    assert_eq!(a.get_next_dynamic_port(), Some(1937));
    assert_eq!(a.get_next_dynamic_port(), None);
    a.release(1936);
    assert!(!a.is_used(1936));
    assert!(a.is_used(1935));
    a.release(1936);
    a.release(4000);
    assert_eq!(a.get_next_dynamic_port(), Some(1936));
    assert_eq!(a.get_next_dynamic_port(), None);
}

#[test]
fn allocator_with_empty_range_gives_nothing() {
    let mut a = PortAllocator::new(2000, 1999);
    assert_eq!(a.get_next_dynamic_port(), None);
}
