use game_backend::entity::AchievementPayload;
use game_backend::entity::InventoryItemPayload;
use game_backend::entity::Player;
use game_backend::entity::PlayerPayload;
use game_backend::errors::Error;
use game_backend::state::GameState;

fn player_payload(name: &str) -> PlayerPayload {
    PlayerPayload { username: name.to_owned() }
}

fn achievement_payload(name: &str, points: u32) -> AchievementPayload {
    AchievementPayload { name: name.to_owned(), description: "desc".to_owned(), points }
}

fn item_payload(name: &str, quantity: u32) -> InventoryItemPayload {
    InventoryItemPayload { name: name.to_owned(), description: "desc".to_owned(), quantity }
}

#[test]
fn create_player_defaults() {
    let mut s = GameState::new();
    let p = s.create_player(player_payload("Ana"), 42).unwrap();
    assert_eq!(p.id, 1);
    assert_eq!(p.username, "Ana");
    assert_eq!(p.level, 1);
    assert_eq!(p.experience, 0);
    assert_eq!(p.created_at, 42);
    assert!(p.achievements.is_empty());
}

#[test]
fn identifier_uniqueness_across_kinds() {
    let mut s = GameState::new();
    let mut ids: Vec<u64> = Vec::new();
    ids.push(s.create_player(player_payload("a"), 0).unwrap().id);
    ids.push(s.create_achievement(achievement_payload("x", 1)).unwrap().id);
    ids.push(s.create_inventory_item(item_payload("i", 1), 0).unwrap().id);
    ids.push(s.create_player(player_payload("b"), 0).unwrap().id);
    ids.push(s.create_inventory_item(item_payload("j", 2), 0).unwrap().id);
    ids.push(s.create_achievement(achievement_payload("y", 2)).unwrap().id);
    for i in 0..ids.len() {
        for j in 0..ids.len() {
            if i != j {
                assert_ne!(ids[i], ids[j]);
            }
        }
    }
    assert_eq!(ids, vec![1, 2, 3, 4, 5, 6]);
}

#[test]
fn get_player_found_and_not_found() {
    let mut s = GameState::new();
    s.create_player(player_payload("Ana"), 5).unwrap();
    let p = s.get_player(1).unwrap();
    assert_eq!(p.username, "Ana");
    match s.get_player(7) {
        Err(Error::NotFound { msg }) => assert_eq!(msg, "Player with id=7 not found."),
        _ => panic!("expected NotFound"),
    }
}

#[test]
fn not_found_messages_render_identifier_edges() {
    let s = GameState::new();
    match s.get_player(0) {
        Err(Error::NotFound { msg }) => assert_eq!(msg, "Player with id=0 not found."),
        _ => panic!("expected NotFound"),
    }
    match s.get_player(u64::MAX) {
        Err(Error::NotFound { msg }) => {
            assert_eq!(msg, "Player with id=18446744073709551615 not found.")
        }
        _ => panic!("expected NotFound"),
    }
    match s.get_player(1000) {
        Err(Error::NotFound { msg }) => assert_eq!(msg, "Player with id=1000 not found."),
        _ => panic!("expected NotFound"),
    }
}

#[test]
fn get_all_players_empty_is_not_found() {
    let s = GameState::new();
    match s.get_all_players() {
        Err(Error::NotFound { msg }) => assert_eq!(msg, "No players found."),
        _ => panic!("expected NotFound"),
    }
}

#[test]
fn get_all_players_ascending_order() {
    let mut s = GameState::new();
    s.create_player(player_payload("a"), 0).unwrap();
    s.create_achievement(achievement_payload("x", 1)).unwrap();
    s.create_player(player_payload("b"), 0).unwrap();
    let all = s.get_all_players().unwrap();
    let ids: Vec<u64> = all.iter().map(|p| p.id).collect();
    assert_eq!(ids, vec![1, 3]);
}

#[test]
fn update_player_level_accepts_any_value() {
    let mut s = GameState::new();
    s.create_player(player_payload("Ana"), 0).unwrap();
    let p = s.update_player_level(1, 9).unwrap();
    assert_eq!(p.level, 9);
    let p = s.update_player_level(1, 2).unwrap();
    assert_eq!(p.level, 2);
    assert_eq!(s.get_player(1).unwrap().level, 2);
    match s.update_player_level(5, 1) {
        Err(Error::NotFound { msg }) => assert_eq!(msg, "Player with id=5 not found."),
        _ => panic!("expected NotFound"),
    }
}

#[test]
fn get_achievement_messages() {
    let mut s = GameState::new();
    s.create_achievement(achievement_payload("First Blood", 10)).unwrap();
    let a = s.get_achievement(1).unwrap();
    assert_eq!(a.name, "First Blood");
    assert_eq!(a.points, 10);
    match s.get_achievement(3) {
        Err(Error::NotFound { msg }) => assert_eq!(msg, "Achievement with id=3 not found."),
        _ => panic!("expected NotFound"),
    }
    match GameState::new().get_all_achievements() {
        Err(Error::NotFound { msg }) => assert_eq!(msg, "No achievements found."),
        _ => panic!("expected NotFound"),
    }
}

#[test]
fn get_inventory_item_messages() {
    let mut s = GameState::new();
    s.create_inventory_item(item_payload("Potion", 15), 3).unwrap();
    let it = s.get_inventory_item(1).unwrap();
    assert_eq!(it.name, "Potion");
    assert_eq!(it.quantity, 15);
    assert_eq!(it.created_at, 3);
    match s.get_inventory_item(9) {
        Err(Error::NotFound { msg }) => assert_eq!(msg, "Inventory item with id=9 not found."),
        _ => panic!("expected NotFound"),
    }
    match GameState::new().get_all_inventory_items() {
        Err(Error::NotFound { msg }) => assert_eq!(msg, "No inventory items found."),
        _ => panic!("expected NotFound"),
    }
}

#[test]
fn earn_achievement_threshold_enforcement() {
    let mut s = GameState::new();
    s.create_player(player_payload("Ana"), 0).unwrap();
    s.create_achievement(achievement_payload("First Blood", 10)).unwrap();
    match s.earn_achievement(1, 2) {
        Err(Error::InsufficientExperience { msg }) => assert_eq!(
            msg,
            "Player does not have enough experience to earn the achievement"
        ),
        _ => panic!("expected InsufficientExperience"),
    }
    // The failure left the player's achievement list unchanged.
    assert!(s.get_player(1).unwrap().achievements.is_empty());
}

#[test]
fn earn_achievement_not_found_messages() {
    let mut s = GameState::new();
    s.create_player(player_payload("Ana"), 0).unwrap();
    match s.earn_achievement(1, 8) {
        Err(Error::NotFound { msg }) => assert_eq!(msg, "Achievement with id=8 not found"),
        _ => panic!("expected NotFound"),
    }
    // Player-not-found takes precedence when both are absent.
    match s.earn_achievement(6, 8) {
        Err(Error::NotFound { msg }) => assert_eq!(msg, "Player with id=6 not found"),
        _ => panic!("expected NotFound"),
    }
}

#[test]
fn use_inventory_item_not_found_precedence() {
    let mut s = GameState::new();
    match s.use_inventory_item(4, 5) {
        Err(Error::NotFound { msg }) => assert_eq!(msg, "Player with id=4 not found."),
        _ => panic!("expected NotFound"),
    }
    s.create_player(player_payload("Ana"), 0).unwrap();
    match s.use_inventory_item(1, 5) {
        Err(Error::NotFound { msg }) => assert_eq!(msg, "Inventory item with id=5 not found."),
        _ => panic!("expected NotFound"),
    }
}

#[test]
fn use_inventory_item_conservation() {
    let mut s = GameState::new();
    s.create_player(player_payload("Ana"), 0).unwrap();
    s.create_inventory_item(item_payload("Potion", 15), 0).unwrap();
    let before = s.get_player(1).unwrap().experience;
    let p = s.use_inventory_item(1, 2).unwrap();
    assert_eq!(p.experience, before + 15);
    assert_eq!(s.get_player(1).unwrap().experience, before + 15);
    // The item is gone entirely: at most one consumption per item instance.
    match s.get_all_inventory_items() {
        Err(Error::NotFound { msg }) => assert_eq!(msg, "No inventory items found."),
        _ => panic!("expected empty inventory"),
    }
    match s.use_inventory_item(1, 2) {
        Err(Error::NotFound { msg }) => assert_eq!(msg, "Inventory item with id=2 not found."),
        _ => panic!("expected NotFound"),
    }
}

#[test]
fn use_inventory_item_overflow_is_invalid_operation() {
    let mut s = GameState::new();
    let created = s.create_player(player_payload("Ana"), 0).unwrap();
    // Push the stored experience to the top of its range through the public
    // upsert, then consume an item that would overflow it.
    let rich = Player { experience: u64::MAX, ..created };
    s.do_insert_player(&rich);
    s.create_inventory_item(item_payload("Potion", 1), 0).unwrap();
    match s.use_inventory_item(1, 2) {
        Err(Error::InvalidOperation { msg }) => assert_eq!(msg, "Player experience overflow."),
        _ => panic!("expected InvalidOperation"),
    }
    // Neither store was touched by the failure.
    assert_eq!(s.get_player(1).unwrap().experience, u64::MAX);
    assert_eq!(s.get_all_inventory_items().unwrap().len(), 1);
}

#[test]
fn earn_achievement_idempotent() {
    let mut s = GameState::new();
    s.create_player(player_payload("Ana"), 0).unwrap();
    s.create_achievement(achievement_payload("First Blood", 10)).unwrap();
    s.create_inventory_item(item_payload("Potion", 15), 0).unwrap();
    s.use_inventory_item(1, 3).unwrap();
    let first = s.earn_achievement(1, 2).unwrap();
    assert_eq!(first.achievements, vec![2]);
    let second = s.earn_achievement(1, 2).unwrap();
    assert_eq!(second.achievements, vec![2]);
    assert_eq!(second.experience, first.experience);
    assert_eq!(s.get_player(1).unwrap().achievements, vec![2]);
}

#[test]
fn end_to_end_scenario() {
    let mut s = GameState::new();
    let ana = s.create_player(player_payload("Ana"), 0).unwrap();
    assert_eq!((ana.id, ana.level, ana.experience), (1, 1, 0));
    let ach = s.create_achievement(achievement_payload("First Blood", 10)).unwrap();
    assert_eq!(ach.id, 2);
    match s.earn_achievement(1, 2) {
        Err(Error::InsufficientExperience { .. }) => {}
        _ => panic!("expected InsufficientExperience"),
    }
    let potion = s.create_inventory_item(item_payload("Potion", 15), 0).unwrap();
    assert_eq!(potion.id, 3);
    let p = s.use_inventory_item(1, 3).unwrap();
    assert_eq!(p.experience, 15);
    match s.get_all_inventory_items() {
        Err(Error::NotFound { .. }) => {}
        Ok(items) => assert!(items.iter().all(|it| it.id != 3)),
        Err(e) => panic!("unexpected error: {:?}", e),
    }
    let p = s.earn_achievement(1, 2).unwrap();
    assert_eq!(p.achievements, vec![2]);
    let again = s.earn_achievement(1, 2).unwrap();
    assert_eq!(again.achievements, vec![2]);
    assert_eq!(again.experience, p.experience);
    assert_eq!(again.level, p.level);
    assert_eq!(again.username, p.username);
}

#[test]
fn restore_round_trips_a_grown_state() {
    let mut s = GameState::new();
    s.create_player(player_payload("Ana"), 11).unwrap();
    s.create_achievement(achievement_payload("First Blood", 10)).unwrap();
    s.create_inventory_item(item_payload("Potion", 15), 12).unwrap();
    s.use_inventory_item(1, 3).unwrap();
    s.earn_achievement(1, 2).unwrap();

    let counter = s.current_id_counter();
    let players = s.get_all_players().unwrap();
    let achievements = s.get_all_achievements().unwrap();
    let items = match s.get_all_inventory_items() {
        Ok(v) => v,
        Err(Error::NotFound { .. }) => Vec::new(),
        Err(e) => panic!("unexpected error: {:?}", e),
    };
    let restored = GameState::restore(counter, players, achievements, items)
        .expect("a grown state restores");

    assert_eq!(restored.current_id_counter(), 3);
    let p = restored.get_player(1).unwrap();
    assert_eq!(p.username, "Ana");
    assert_eq!(p.experience, 15);
    assert_eq!(p.achievements, vec![2]);
    assert_eq!(restored.get_achievement(2).unwrap().name, "First Blood");
    match restored.get_inventory_item(3) {
        Err(Error::NotFound { .. }) => {}
        _ => panic!("consumed item must stay consumed after a restore"),
    }
    // The counter watermark survives: the next identifier is fresh.
    let mut restored = restored;
    assert_eq!(restored.create_player(player_payload("Bo"), 0).unwrap().id, 4);
}

#[test]
fn restore_rejects_inconsistent_snapshots() {
    let mut s = GameState::new();
    let p = s.create_player(player_payload("Ana"), 0).unwrap();
    let a = s.create_achievement(achievement_payload("x", 1)).unwrap();

    // An identifier above the counter watermark was never issued.
    assert!(GameState::restore(1, vec![], vec![a.clone()], vec![]).is_none());

    // A player referencing an achievement that the snapshot does not hold.
    let dangling = Player { achievements: vec![9], ..p.clone() };
    assert!(GameState::restore(2, vec![dangling], vec![a.clone()], vec![]).is_none());

    // The consistent snapshot passes.
    assert!(GameState::restore(2, vec![p], vec![a], vec![]).is_some());
}
