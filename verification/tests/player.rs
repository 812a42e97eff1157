use bm1_server::model::{
    PlayerBag, PlayerBagItem, PlayerBagMoney, PlayerBagMoneyType, PlayerBase, PlayerData,
    PlayerSkill, PlayerSkillData,
};
use bm1_server::player::Player;

fn test_player() -> Player {
    Player::new(PlayerData {
        player_base: Some(PlayerBase {
            player_id: 1001,
            player_name: "test".into(),
            player_level: 1,
        }),
        player_bag: Some(PlayerBag {
            items: vec![PlayerBagItem { item_id: 100, item_count: 5 }],
            money: vec![PlayerBagMoney { money_type: PlayerBagMoneyType::Gold as i32, money_count: 100 }],
        }),
        player_skill: None,
        player_equip: None,
    })
}

#[test]
fn player_test_base_access() {
    let p = test_player();
    assert_eq!(p.player_id(), 1001);
    assert_eq!(p.player_name(), "test");
    assert_eq!(p.level(), 1);
}

#[test]
fn player_test_add_level() {
    let mut p = test_player();
    assert_eq!(p.add_level(2), 3);
}

#[test]
fn player_test_money_operations() {
    let mut p = test_player();
    assert_eq!(p.gold(), 100);
    assert_eq!(p.add_gold(50), 150);
    assert_eq!(p.sub_gold(30).unwrap(), 120);
    assert!(p.sub_gold(200).is_err());
    assert_eq!(p.diamond(), 0);
    assert_eq!(p.add_diamond(10), 10);
}

#[test]
fn player_test_item_operations() {
    let mut p = test_player();
    assert_eq!(p.get_item_count(100), 5);
    assert_eq!(p.add_item(100, 3), 8);
    assert_eq!(p.sub_item(100, 8).unwrap(), 0);
    assert_eq!(p.get_item_count(100), 0);
    assert_eq!(p.add_item(200, 1), 1);
    assert!(p.sub_item(999, 1).is_err());
    assert!(p.sub_item(200, 5).is_err());
}

#[test]
fn player_test_empty_player() {
    let mut p = Player::new(PlayerData::default());
    assert_eq!(p.player_id(), 0);
    assert_eq!(p.gold(), 0);
    assert_eq!(p.add_gold(10), 10);
    assert_eq!(p.add_item(1, 1), 1);
}

#[test]
fn test_buy_equip_success() {
    let mut p = test_player();
    p.add_gold(500);
    let (id, level) = p.buy_equip(1001).unwrap();
    assert_eq!(id, 1001);
    assert_eq!(level, 1);
    assert_eq!(p.gold(), 100);
    assert_eq!(p.equip_level(1001), Some(1));
}

#[test]
fn test_buy_equip_already_owned() {
    let mut p = test_player();
    p.add_gold(500);
    p.buy_equip(1001).unwrap();
    p.add_gold(500);
    assert!(p.buy_equip(1001).is_err());
}

#[test]
fn test_buy_equip_insufficient_gold() {
    let mut p = test_player();
    assert!(p.buy_equip(1001).is_err());
}

#[test]
fn test_upgrade_equip_success() {
    let mut p = test_player();
    p.add_gold(600);
    p.buy_equip(1001).unwrap();
    let (id, level) = p.upgrade_equip(1001).unwrap();
    assert_eq!(id, 1001);
    assert_eq!(level, 2);
    assert_eq!(p.gold(), 100);
}

#[test]
fn test_upgrade_equip_not_owned() {
    let mut p = test_player();
    assert!(p.upgrade_equip(999).is_err());
}

#[test]
fn test_upgrade_equip_insufficient_gold() {
    let mut p = test_player();
    p.add_gold(500);
    p.buy_equip(1001).unwrap();
    assert!(p.upgrade_equip(1001).is_ok());
    p.add_gold(50);
    assert!(p.upgrade_equip(1001).is_err());
}

#[test]
fn error_messages_name_the_failure() {
    let mut p = test_player();
    assert_eq!(p.sub_diamond(1), Err("money type not found"));
    assert_eq!(p.sub_gold(101), Err("insufficient money"));
    assert_eq!(p.sub_item(7, 1), Err("item not found"));
    assert_eq!(p.sub_item(100, 6), Err("insufficient item count"));
    assert_eq!(p.upgrade_equip(5), Err("equip not owned"));
    assert_eq!(p.buy_equip(5), Err("insufficient money"));
    assert_eq!(p.upgrade_skill(5), Err("skill not unlocked"));
    assert_eq!(p.unlock_skill(5), Err("insufficient skill points"));
}

#[test]
fn failed_take_leaves_balances() {
    let mut p = test_player();
    assert!(p.sub_gold(500).is_err());
    assert_eq!(p.gold(), 100);
    assert_eq!(p.get_item_count(100), 5);
}

#[test]
fn add_then_sub_restores_balance() {
    let mut p = test_player();
    let before = p.gold();
    p.add_gold(77);
    assert_eq!(p.sub_gold(77), Ok(before));
    assert_eq!(p.gold(), 100);
}

#[test]
fn money_saturates_at_max() {
    let mut p = test_player();
    assert_eq!(p.add_gold(u32::MAX), u32::MAX);
    assert_eq!(p.gold(), u32::MAX);
    assert_eq!(p.add_level(u32::MAX), u32::MAX);
    assert_eq!(p.add_item(100, u32::MAX), u32::MAX);
}

#[test]
fn zero_stack_leaves_bag_other_stack_stays() {
    let mut p = test_player();
    p.add_item(200, 2);
    assert_eq!(p.sub_item(100, 5), Ok(0));
    assert_eq!(p.data().player_bag.as_ref().unwrap().items.len(), 1);
    assert_eq!(p.get_item_count(200), 2);
    assert_eq!(p.sub_item(200, 1), Ok(1));
    assert_eq!(p.get_item_count(200), 1);
}

#[test]
fn skills_unlock_and_upgrade() {
    let mut p = test_player();
    assert_eq!(p.skill_points(), 0);
    assert_eq!(p.add_skill_points(2), 2);
    assert_eq!(p.unlock_skill(7), Ok((7, 1)));
    assert_eq!(p.skill_points(), 1);
    assert_eq!(p.unlock_skill(7), Err("skill already unlocked"));
    assert_eq!(p.skill_points(), 1);
    assert_eq!(p.upgrade_skill(7), Ok((7, 2)));
    assert_eq!(p.skill_points(), 0);
    assert_eq!(p.skill_level(7), Some(2));
    assert_eq!(p.skill_level(8), None);
    assert_eq!(p.upgrade_skill(7), Err("insufficient skill points"));
}

#[test]
fn base_setters_create_a_base() {
    let mut p = Player::new(PlayerData::default());
    assert_eq!(p.player_name(), "");
    assert_eq!(p.level(), 0);
    p.set_player_name("carol".to_string());
    p.set_level(4);
    assert_eq!(p.player_name(), "carol");
    assert_eq!(p.level(), 4);
    assert_eq!(p.add_exp(3), 7);
    assert_eq!(p.player_id(), 0);
}

#[test]
fn data_mut_changes_the_record() {
    let mut p = test_player();
    p.data_mut().player_skill = Some(PlayerSkillData {
        skill_points: 3,
        skills: vec![PlayerSkill { skill_id: 1, skill_level: 4 }],
    });
    assert_eq!(p.skill_points(), 3);
    assert_eq!(p.skill_level(1), Some(4));
}

#[test]
fn money_type_numbers() {
    assert_eq!(PlayerBagMoneyType::Unspecified.value(), 0);
    assert_eq!(PlayerBagMoneyType::Gold.value(), 1);
    assert_eq!(PlayerBagMoneyType::Diamond.value(), 2);
    assert_eq!(PlayerBagMoneyType::from_number(2), PlayerBagMoneyType::Diamond);
    assert_eq!(PlayerBagMoneyType::from_number(9), PlayerBagMoneyType::Unspecified);
}
