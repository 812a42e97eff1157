use bm1_server::model::{PlayerBag, PlayerBagMoney, PlayerBagMoneyType, PlayerBase, PlayerData};
use bm1_server::player::Player;
use bm1_server::player_pool::PlayerPool;

fn make_player(id: u64, name: &str) -> PlayerData {
    PlayerData {
        player_base: Some(PlayerBase {
            player_id: id,
            player_name: name.into(),
            player_level: 1,
        }),
        player_bag: Some(PlayerBag::default()),
        player_skill: None,
        player_equip: None,
    }
}

#[test]
fn player_pool_test_add_and_get() {
    let mut pool = PlayerPool::new();
    assert!(pool.is_empty());

    pool.load(make_player(1, "alice"));
    pool.load(make_player(2, "bob"));

    assert_eq!(pool.len(), 2);
    assert_eq!(pool.get(1).unwrap().player_name(), "alice");
    assert!(pool.contains(2));
    assert!(!pool.contains(3));
}

#[test]
fn player_pool_test_remove() {
    let mut pool = PlayerPool::new();
    pool.load(make_player(1, "alice"));

    let removed = pool.remove(1).unwrap();
    assert_eq!(removed.player_name(), "alice");
    assert!(pool.is_empty());
    assert!(pool.remove(999).is_none());
}

#[test]
fn player_pool_test_get_mut() {
    let mut pool = PlayerPool::new();
    pool.load(make_player(1, "alice"));

    pool.get_mut(1).unwrap().add_gold(100);
    assert_eq!(pool.get(1).unwrap().gold(), 100);
}

#[test]
fn test_global_mut() {
    let mut pool = PlayerPool::with_sample_players();
    pool.load(PlayerData {
        player_base: Some(PlayerBase {
            player_id: 104,
            player_name: "alice".into(),
            player_level: 10,
        }),
        player_bag: Some(PlayerBag {
            items: vec![],
            money: vec![PlayerBagMoney {
                money_type: PlayerBagMoneyType::Gold as i32,
                money_count: 1000,
            }],
        }),
        player_skill: None,
        player_equip: None,
    });
    pool.get_mut(104).unwrap().add_gold(100);
    assert_eq!(pool.get(104).unwrap().gold(), 1100);
    pool.get_mut(104).unwrap().sub_gold(100).unwrap();
}

#[test]
fn player_pool_test_add_replace() {
    let mut pool = PlayerPool::new();
    pool.load(make_player(1, "alice"));

    let old = pool.load(make_player(1, "alice_v2"));
    assert_eq!(old.unwrap().player_name(), "alice");
    assert_eq!(pool.get(1).unwrap().player_name(), "alice_v2");
}

#[test]
fn sample_players_are_alice_and_bob() {
    let pool = PlayerPool::with_sample_players();
    assert_eq!(pool.len(), 2);
    let alice = pool.get(1).unwrap();
    assert_eq!(alice.player_name(), "alice");
    assert_eq!(alice.level(), 10);
    assert_eq!(alice.gold(), 1000);
    assert_eq!(alice.get_item_count(1001), 5);
    let bob = pool.get(2).unwrap();
    assert_eq!(bob.player_name(), "bob");
    assert_eq!(bob.level(), 20);
    assert_eq!(bob.gold(), 500);
    assert_eq!(bob.diamond(), 50);
    assert_eq!(bob.get_item_count(2001), 3);
    assert_eq!(bob.get_item_count(2002), 1);
}

#[test]
fn add_uses_the_players_own_id() {
    let mut pool = PlayerPool::new();
    assert!(pool.add(Player::new(make_player(9, "x"))).is_none());
    assert!(pool.contains(9));
    assert!(pool.get_mut(10).is_none());
    assert_eq!(pool.len(), 1);
}
