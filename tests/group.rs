use sendspin::group::{Group, GroupManager, PlaybackState};

#[test]
fn test_group_basic() {
    let mut group = Group::new("test", "Test Group");
    assert!(group.is_empty());

    group.add_member("client1".to_string());
    assert_eq!(group.member_count(), 1);
    assert!(group.has_member("client1"));

    group.remove_member("client1");
    assert!(group.is_empty());
}

#[test]
fn test_group_manager() {
    let mut manager = GroupManager::new();

    assert!(manager.get_group("default").is_some());

    manager.add_to_group("client1", "default");
    assert_eq!(manager.get_client_group("client1"), Some("default".to_string()));

    manager.create_group("room1", "Living Room");
    manager.add_to_group("client1", "room1");
    assert_eq!(manager.get_client_group("client1"), Some("room1".to_string()));

    manager.remove_client("client1");
    assert_eq!(manager.get_client_group("client1"), None);
}

#[test]
fn adding_a_member_twice_counts_once() {
    let mut group = Group::new("g", "G");
    group.add_member("a".to_string());
    group.add_member("a".to_string());
    assert_eq!(group.member_count(), 1);
    assert!(!group.remove_member("b"));
    assert!(group.remove_member("a"));
}

#[test]
fn client_moves_between_groups() {
    let mut m = GroupManager::new();
    m.create_group("room1", "Room 1");
    m.create_group("room2", "Room 2");
    assert!(m.add_to_group("c", "room1"));
    assert!(m.add_to_group("c", "room2"));
    assert!(m.get_group_members("room1").is_empty());
    assert_eq!(m.get_group_members("room2"), vec!["c".to_string()]);
}

#[test]
fn unknown_group_falls_back_to_default() {
    let mut m = GroupManager::new();
    assert!(!m.add_to_group("c", "nowhere"));
    assert_eq!(m.get_client_group("c"), Some("default".to_string()));
}

#[test]
fn deleting_a_group_moves_members_to_default() {
    let mut m = GroupManager::new();
    m.create_group("room1", "Room 1");
    m.add_to_group("a", "default");
    m.add_to_group("b", "room1");
    m.add_to_group("c", "room1");
    let total_before: usize = m.group_ids().iter().map(|g| m.get_group_members(g).len()).sum();
    let mut moved = m.delete_group("room1");
    moved.sort();
    assert_eq!(moved, vec!["b".to_string(), "c".to_string()]);
    let total_after: usize = m.group_ids().iter().map(|g| m.get_group_members(g).len()).sum();
    assert_eq!(total_before, 3);
    assert_eq!(total_after, 3);
    assert!(m.get_group("room1").is_none());
    assert_eq!(m.get_client_group("b"), Some("default".to_string()));
}

#[test]
fn default_group_cannot_be_deleted() {
    let mut m = GroupManager::new();
    m.add_to_group("a", "default");
    assert!(m.delete_group("default").is_empty());
    assert!(m.delete_group("missing").is_empty());
    assert_eq!(m.get_client_group("a"), Some("default".to_string()));
    assert_eq!(m.default_group_id(), "default");
}

#[test]
fn group_settings() {
    let mut m = GroupManager::new();
    m.set_playback_state("default", PlaybackState::Playing);
    assert_eq!(m.get_playback_state("default"), Some(PlaybackState::Playing));
    assert_eq!(m.get_playback_state("missing"), None);
    m.set_volume("default", 250);
    m.set_muted("default", true);
    let (id, name, st) = m.get_group("default").unwrap();
    assert_eq!(id, "default");
    assert_eq!(name, "Default Group");
    assert_eq!(st, PlaybackState::Playing);
    assert_eq!(PlaybackState::Paused.as_str(), "paused");
    assert_eq!(PlaybackState::Stopped.as_str(), "stopped");
}

#[test]
fn recreating_a_group_changes_nothing() {
    let mut m = GroupManager::new();
    m.create_group("r", "First");
    m.add_to_group("a", "r");
    assert_eq!(m.create_group("r", "Second"), "r");
    assert_eq!(m.get_group_members("r"), vec!["a".to_string()]);
    assert_eq!(m.get_group("r").unwrap().1, "First");
    m.add_to_group("b", "default");
    m.create_group("default", "Other");
    assert_eq!(m.get_client_group("b"), Some("default".to_string()));
    assert_eq!(m.group_ids().len(), 2);
}
