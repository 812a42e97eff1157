use bm1_server::delta::{diff_player_data, DeltaOp, PlayerDataDelta};
use bm1_server::model::{
    PlayerBag, PlayerBagItem, PlayerBagMoney, PlayerBagMoneyType, PlayerBase, PlayerData,
    PlayerEquip, PlayerEquipData, PlayerSkill, PlayerSkillData,
};

fn make_player_data(level: u32, gold: u32, diamond: u32, items: Vec<(u32, u32)>) -> PlayerData {
    PlayerData {
        player_base: Some(PlayerBase {
            player_id: 1,
            player_name: "test".into(),
            player_level: level,
        }),
        player_bag: Some(PlayerBag {
            items: items.into_iter().map(|(id, count)| PlayerBagItem { item_id: id, item_count: count }).collect(),
            money: vec![
                PlayerBagMoney { money_type: PlayerBagMoneyType::Gold as i32, money_count: gold },
                PlayerBagMoney { money_type: PlayerBagMoneyType::Diamond as i32, money_count: diamond },
            ],
        }),
        player_skill: None,
        player_equip: None,
    }
}

#[test]
fn test_no_change_returns_none() {
    let data = make_player_data(1, 100, 50, vec![]);
    assert!(diff_player_data(&data, &data).is_none());
}

#[test]
fn test_level_change() {
    let before = make_player_data(1, 100, 50, vec![]);
    let mut after = before.clone();
    after.player_base.as_mut().unwrap().player_level = 3;

    let delta = diff_player_data(&before, &after).unwrap();
    assert_eq!(delta.base.unwrap().player_level, Some(3));
    assert!(delta.bag.is_none());
}

#[test]
fn test_money_change() {
    let before = make_player_data(1, 100, 50, vec![]);
    let mut after = before.clone();
    after.player_bag.as_mut().unwrap().money[0].money_count = 200;

    let delta = diff_player_data(&before, &after).unwrap();
    let bag = delta.bag.unwrap();
    assert_eq!(bag.money_changes.len(), 1);
    assert_eq!(bag.money_changes[0].money_type, PlayerBagMoneyType::Gold as i32);
    assert_eq!(bag.money_changes[0].money_count, 200);
}

#[test]
fn test_item_added() {
    let before = make_player_data(1, 100, 50, vec![]);
    let mut after = before.clone();
    after.player_bag.as_mut().unwrap().items.push(PlayerBagItem { item_id: 1001, item_count: 5 });

    let delta = diff_player_data(&before, &after).unwrap();
    let bag = delta.bag.unwrap();
    assert_eq!(bag.item_changes.len(), 1);
    assert_eq!(bag.item_changes[0].op, DeltaOp::Upsert as i32);
    assert_eq!(bag.item_changes[0].item_id, 1001);
    assert_eq!(bag.item_changes[0].item_count, 5);
}

#[test]
fn test_item_removed() {
    let before = make_player_data(1, 100, 50, vec![(1001, 5)]);
    let after = make_player_data(1, 100, 50, vec![]);

    let delta = diff_player_data(&before, &after).unwrap();
    let bag = delta.bag.unwrap();
    assert_eq!(bag.item_changes.len(), 1);
    assert_eq!(bag.item_changes[0].op, DeltaOp::Delete as i32);
    assert_eq!(bag.item_changes[0].item_id, 1001);
}

#[test]
fn test_item_count_changed() {
    let before = make_player_data(1, 100, 50, vec![(1001, 5)]);
    let mut after = before.clone();
    after.player_bag.as_mut().unwrap().items[0].item_count = 10;

    let delta = diff_player_data(&before, &after).unwrap();
    let bag = delta.bag.unwrap();
    assert_eq!(bag.item_changes.len(), 1);
    assert_eq!(bag.item_changes[0].op, DeltaOp::Upsert as i32);
    assert_eq!(bag.item_changes[0].item_count, 10);
}

#[test]
fn test_multiple_changes() {
    let before = make_player_data(1, 100, 50, vec![(1001, 5)]);
    let mut after = before.clone();
    after.player_base.as_mut().unwrap().player_level = 2;
    after.player_bag.as_mut().unwrap().money[0].money_count = 150;
    after.player_bag.as_mut().unwrap().items[0].item_count = 8;
    after.player_bag.as_mut().unwrap().items.push(PlayerBagItem { item_id: 2001, item_count: 1 });

    let delta = diff_player_data(&before, &after).unwrap();
    assert_eq!(delta.base.unwrap().player_level, Some(2));
    let bag = delta.bag.unwrap();
    assert_eq!(bag.money_changes.len(), 1);
    assert_eq!(bag.item_changes.len(), 2);
}

#[test]
fn removed_money_is_reported_as_zero() {
    let before = make_player_data(1, 100, 50, vec![]);
    let mut after = before.clone();
    after.player_bag.as_mut().unwrap().money.remove(1);
    let bag = diff_player_data(&before, &after).unwrap().bag.unwrap();
    assert_eq!(bag.money_changes.len(), 1);
    assert_eq!(bag.money_changes[0].money_type, 2);
    assert_eq!(bag.money_changes[0].money_count, 0);
}

#[test]
fn skill_changes_and_points() {
    let mut before = make_player_data(1, 100, 50, vec![]);
    before.player_skill = Some(PlayerSkillData {
        skill_points: 3,
        skills: vec![PlayerSkill { skill_id: 1, skill_level: 1 }, PlayerSkill { skill_id: 2, skill_level: 4 }],
    });
    let mut after = before.clone();
    let s = after.player_skill.as_mut().unwrap();
    s.skill_points = 2;
    s.skills[0].skill_level = 2;
    s.skills.remove(1);
    s.skills.push(PlayerSkill { skill_id: 3, skill_level: 1 });
    let delta = diff_player_data(&before, &after).unwrap();
    assert!(delta.base.is_none());
    assert!(delta.bag.is_none());
    let sk = delta.skill.unwrap();
    assert_eq!(sk.skill_points, Some(2));
    let changes: Vec<(i32, u32, u32)> = sk.skill_changes.iter().map(|c| (c.op, c.skill_id, c.skill_level)).collect();
    assert_eq!(changes, vec![(1, 1, 2), (1, 3, 1), (2, 2, 0)]);
}

// A client-side cache update as the sync design describes it: money and
// item changes are keyed upserts and deletions.
fn apply_delta(data: &mut PlayerData, delta: &PlayerDataDelta) {
    if let Some(base) = &delta.base {
        if let Some(level) = base.player_level {
            data.player_base.get_or_insert_with(PlayerBase::default).player_level = level;
        }
    }
    if let Some(bag_delta) = &delta.bag {
        let bag = data.player_bag.get_or_insert_with(PlayerBag::default);
        for m in &bag_delta.money_changes {
            match bag.money.iter_mut().find(|x| x.money_type == m.money_type) {
                Some(x) => x.money_count = m.money_count,
                None => bag.money.push(PlayerBagMoney { money_type: m.money_type, money_count: m.money_count }),
            }
        }
        for c in &bag_delta.item_changes {
            if c.op == DeltaOp::Delete as i32 {
                bag.items.retain(|i| i.item_id != c.item_id);
            } else {
                match bag.items.iter_mut().find(|x| x.item_id == c.item_id) {
                    Some(x) => x.item_count = c.item_count,
                    None => bag.items.push(PlayerBagItem { item_id: c.item_id, item_count: c.item_count }),
                }
            }
        }
    }
}

fn count(d: &PlayerData, id: u32) -> u32 {
    d.player_bag.as_ref().and_then(|b| b.items.iter().find(|i| i.item_id == id)).map(|i| i.item_count).unwrap_or(0)
}

fn money(d: &PlayerData, ty: i32) -> u32 {
    d.player_bag.as_ref().and_then(|b| b.money.iter().find(|m| m.money_type == ty)).map(|m| m.money_count).unwrap_or(0)
}

#[test]
fn applying_the_diff_brings_the_cache_up_to_date() {
    let before = make_player_data(1, 100, 50, vec![(1001, 5), (1002, 7), (1003, 1)]);
    let mut after = make_player_data(4, 90, 0, vec![(1003, 2), (1004, 9)]);
    after.player_bag.as_mut().unwrap().money.remove(1);
    let delta = diff_player_data(&before, &after).unwrap();
    let mut cache = before.clone();
    apply_delta(&mut cache, &delta);
    assert_eq!(cache.player_base.as_ref().unwrap().player_level, 4);
    for id in [1001, 1002, 1003, 1004, 1005] {
        assert_eq!(count(&cache, id), count(&after, id));
    }
    for ty in [0, 1, 2] {
        assert_eq!(money(&cache, ty), money(&after, ty));
    }
}

fn with_equips(equips: Vec<(u32, u32)>) -> PlayerData {
    let mut d = make_player_data(1, 100, 50, vec![]);
    d.player_equip = Some(PlayerEquipData {
        equips: equips.into_iter().map(|(id, level)| PlayerEquip { equip_id: id, equip_level: level }).collect(),
    });
    d
}

#[test]
fn equipment_level_change_is_reported() {
    let before = with_equips(vec![(1001, 1)]);
    let after = with_equips(vec![(1001, 2)]);
    let delta = diff_player_data(&before, &after).unwrap();
    assert!(delta.base.is_none() && delta.bag.is_none() && delta.skill.is_none());
    let equip = delta.equip.unwrap();
    assert_eq!(equip.equip_changes.len(), 1);
    assert_eq!(equip.equip_changes[0].op, DeltaOp::Upsert as i32);
    assert_eq!(equip.equip_changes[0].equip_id, 1001);
    assert_eq!(equip.equip_changes[0].equip_level, 2);
}

#[test]
fn equipment_added_and_removed() {
    let before = with_equips(vec![(1001, 3)]);
    let after = with_equips(vec![(2002, 1)]);
    let equip = diff_player_data(&before, &after).unwrap().equip.unwrap();
    assert_eq!(equip.equip_changes.len(), 2);
    assert_eq!(
        (equip.equip_changes[0].op, equip.equip_changes[0].equip_id, equip.equip_changes[0].equip_level),
        (DeltaOp::Upsert as i32, 2002, 1)
    );
    assert_eq!(
        (equip.equip_changes[1].op, equip.equip_changes[1].equip_id, equip.equip_changes[1].equip_level),
        (DeltaOp::Delete as i32, 1001, 0)
    );
    assert!(diff_player_data(&after, &after).is_none());
}
