use worldsync::geometry::Vec3;
use worldsync::roster::{find_id, join_message, PlayerState};
use worldsync::world::{SharedWorldState, MAX_JOIN_MESSAGES};

fn player(id: &str, x: i64, y: i64, z: i64) -> PlayerState {
    PlayerState::new(id.to_string(), Vec3::new(x, y, z), Vec3::new(0, 0, 0))
}

fn identified(id: &str) -> SharedWorldState {
    let mut w = SharedWorldState::new();
    assert!(w.set_local_id(id.to_string()));
    w
}

fn ids(w: &SharedWorldState) -> Vec<String> {
    let mut v: Vec<String> = w.other_players().iter().map(|p| p.id.clone()).collect();
    v.sort();
    v
}

fn log(w: &SharedWorldState) -> Vec<String> {
    w.join_log().iter().cloned().collect()
}

#[test]
fn new_state_knows_nothing() {
    let w = SharedWorldState::new();
    assert_eq!(*w.local_player_id(), None);
    assert!(w.other_players().is_empty());
    assert!(w.join_log().is_empty());
    assert_eq!(MAX_JOIN_MESSAGES, 5);
}

#[test]
fn join_message_shows_six_characters() {
    assert_eq!(join_message(&"abcdefghij".to_string()), "Player abcdef... joined");
    assert_eq!(join_message(&"abcdef".to_string()), "Player abcdef... joined");
    assert_eq!(join_message(&"C".to_string()), "Player C... joined");
    assert_eq!(join_message(&"".to_string()), "Player ... joined");
}

#[test]
fn join_message_counts_characters_not_bytes() {
    assert_eq!(join_message(&"äöüßéèà".to_string()), "Player äöüßéè... joined");
    assert_eq!(join_message(&"日本語".to_string()), "Player 日本語... joined");
}

#[test]
fn find_id_gives_the_first_match() {
    let list = vec![player("a", 0, 0, 0), player("b", 1, 0, 0), player("a", 2, 0, 0)];
    assert_eq!(find_id(&list, &"a".to_string()), Some(0));
    assert_eq!(find_id(&list, &"b".to_string()), Some(1));
    assert_eq!(find_id(&list, &"c".to_string()), None);
    assert_eq!(find_id(&Vec::new(), &"a".to_string()), None);
}

#[test]
fn player_state_clone_keeps_every_field() {
    let p = PlayerState::new("me".to_string(), Vec3::new(1, 2, 3), Vec3::new(4, 5, 6));
    let q = p.clone();
    assert_eq!(q.id, "me");
    assert_eq!(q.position, Vec3::new(1, 2, 3));
    assert_eq!(q.rotation, Vec3::new(4, 5, 6));
}

#[test]
fn local_id_is_set_once() {
    let mut w = SharedWorldState::new();
    assert!(w.set_local_id("A".to_string()));
    assert_eq!(*w.local_player_id(), Some("A".to_string()));
    assert!(!w.set_local_id("B".to_string()));
    assert_eq!(*w.local_player_id(), Some("A".to_string()));
    w.reconcile(vec![player("B", 0, 5_000, 0), player("C", 0, 0, 0)]);
    assert_eq!(*w.local_player_id(), Some("A".to_string()));
    w.apply_pending(vec![vec![], vec![player("Z", 0, 5_000, 0)]]);
    assert_eq!(*w.local_player_id(), Some("A".to_string()));
}

#[test]
fn reconcile_waits_for_the_identity() {
    let mut w = SharedWorldState::new();
    let told = w.reconcile(vec![player("A", 0, 0, 0), player("B", 0, 0, 0)]);
    assert!(told.is_empty());
    assert!(w.other_players().is_empty());
    assert!(w.join_log().is_empty());
    assert_eq!(*w.local_player_id(), None);
}

#[test]
fn reconcile_never_records_the_local_id() {
    let mut w = identified("A");
    w.reconcile(vec![player("A", 1, 2, 3), player("B", 4, 5, 6), player("A", 7, 8, 9)]);
    assert_eq!(ids(&w), vec!["B".to_string()]);
    assert!(!w.knows(&"A".to_string()));
    assert!(w.knows(&"B".to_string()));
    assert_eq!(log(&w), vec!["Player B... joined".to_string()]);
    w.reconcile(vec![player("B", 4, 5, 6), player("C", 0, 0, 0)]);
    assert_eq!(ids(&w), vec!["B".to_string(), "C".to_string()]);
    assert!(!w.knows(&"A".to_string()));
}

#[test]
fn new_player_is_logged_and_leaves_silently() {
    let mut w = identified("A");
    w.reconcile(vec![player("A", 0, 5_000, 0), player("B", 10, 0, 0)]);
    assert_eq!(log(&w), vec!["Player B... joined".to_string()]);
    let told =
        w.reconcile(vec![player("A", 0, 5_000, 0), player("B", 10, 0, 0), player("C", 20, 0, 0)]);
    assert_eq!(told, vec!["Player C... joined".to_string()]);
    assert_eq!(ids(&w), vec!["B".to_string(), "C".to_string()]);
    assert_eq!(log(&w), vec!["Player B... joined".to_string(), "Player C... joined".to_string()]);
    let told = w.reconcile(vec![player("A", 0, 5_000, 0), player("B", 10, 0, 0)]);
    assert!(told.is_empty());
    assert_eq!(ids(&w), vec!["B".to_string()]);
    assert!(!w.knows(&"C".to_string()));
    assert_eq!(log(&w), vec!["Player B... joined".to_string(), "Player C... joined".to_string()]);
}

#[test]
fn player_who_returns_is_logged_again() {
    let mut w = identified("A");
    w.reconcile(vec![player("B", 0, 0, 0)]);
    w.reconcile(vec![]);
    assert!(w.other_players().is_empty());
    w.reconcile(vec![player("B", 0, 0, 0)]);
    assert_eq!(log(&w), vec!["Player B... joined".to_string(), "Player B... joined".to_string()]);
}

#[test]
fn snapshots_are_replaced_wholesale() {
    let mut w = identified("A");
    w.reconcile(vec![player("B", 1, 1, 1), player("C", 2, 2, 2)]);
    w.reconcile(vec![player("C", 30, 30, 30), player("D", 4, 4, 4)]);
    assert_eq!(ids(&w), vec!["C".to_string(), "D".to_string()]);
    let c = w.other_players().iter().find(|p| p.id == "C").unwrap();
    assert_eq!(c.position, Vec3::new(30, 30, 30));
}

#[test]
fn later_entry_with_the_same_id_wins_and_is_logged_once() {
    let mut w = identified("A");
    let told = w.reconcile(vec![player("B", 1, 1, 1), player("C", 2, 2, 2), player("B", 9, 9, 9)]);
    assert_eq!(told, vec!["Player B... joined".to_string(), "Player C... joined".to_string()]);
    assert_eq!(ids(&w), vec!["B".to_string(), "C".to_string()]);
    let b = w.other_players().iter().find(|p| p.id == "B").unwrap();
    assert_eq!(b.position, Vec3::new(9, 9, 9));
    assert_eq!(log(&w), vec!["Player B... joined".to_string(), "Player C... joined".to_string()]);
}

#[test]
fn join_log_holds_the_five_most_recent_of_a_burst() {
    let mut w = identified("me");
    let roster: Vec<PlayerState> = (0..8).map(|i| player(&format!("n{}", i), i, 0, 0)).collect();
    let told = w.reconcile(roster);
    assert_eq!(told.len(), 8);
    assert_eq!(told[0], "Player n0... joined");
    assert_eq!(told[7], "Player n7... joined");
    assert_eq!(w.other_players().len(), 8);
    assert_eq!(
        log(&w),
        vec![
            "Player n3... joined".to_string(),
            "Player n4... joined".to_string(),
            "Player n5... joined".to_string(),
            "Player n6... joined".to_string(),
            "Player n7... joined".to_string(),
        ]
    );
}

#[test]
fn join_log_never_grows_past_its_capacity() {
    let mut w = identified("me");
    let mut roster: Vec<PlayerState> = Vec::new();
    for i in 0..12 {
        roster.push(player(&format!("id{}", i), i, 0, 0));
        w.reconcile(roster.clone());
        assert!(w.join_log().len() <= MAX_JOIN_MESSAGES);
        assert_eq!(w.join_log().len(), std::cmp::min(i as usize + 1, 5));
        assert_eq!(w.join_log().back().unwrap(), &format!("Player id{}... joined", i));
    }
    assert_eq!(
        log(&w),
        vec![
            "Player id7... joined".to_string(),
            "Player id8... joined".to_string(),
            "Player id9... joined".to_string(),
            "Player id10... joined".to_string(),
            "Player id11... joined".to_string(),
        ]
    );
}

#[test]
fn only_the_latest_pending_roster_is_applied() {
    let mut w = identified("A");
    let told = w.apply_pending(vec![
        vec![player("B", 0, 0, 0)],
        vec![player("C", 0, 0, 0)],
        vec![player("A", 0, 0, 0), player("D", 1, 2, 3)],
    ]);
    assert_eq!(told, vec!["Player D... joined".to_string()]);
    assert_eq!(ids(&w), vec!["D".to_string()]);
    assert_eq!(log(&w), vec!["Player D... joined".to_string()]);
}

#[test]
fn nothing_pending_changes_nothing() {
    let mut w = identified("A");
    w.reconcile(vec![player("B", 0, 0, 0)]);
    let told = w.apply_pending(vec![]);
    assert!(told.is_empty());
    assert_eq!(ids(&w), vec!["B".to_string()]);
    assert_eq!(log(&w), vec!["Player B... joined".to_string()]);
}

#[test]
fn outbound_state_needs_the_identity() {
    let mut w = SharedWorldState::new();
    assert!(w.outbound_state(Vec3::new(1, 2, 3), Vec3::new(4, 5, 0)).is_none());
    w.set_local_id("me".to_string());
    let s = w.outbound_state(Vec3::new(1, 2, 3), Vec3::new(4, 5, 0)).unwrap();
    assert_eq!(s.id, "me");
    assert_eq!(s.position, Vec3::new(1, 2, 3));
    assert_eq!(s.rotation, Vec3::new(4, 5, 0));
}
