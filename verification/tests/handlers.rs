use bm1_server::handler::add_money::AddMoneyHandler;
use bm1_server::handler::buy_equip::BuyEquipHandler;
use bm1_server::handler::heartbeat::HeartbeatHandler;
use bm1_server::handler::login::LoginHandler;
use bm1_server::handler::placeholder::PlaceholderHandler;
use bm1_server::handler::skill_unlock::SkillUnlockHandler;
use bm1_server::handler::skill_upgrade::SkillUpgradeHandler;
use bm1_server::handler::upgrade_equip::UpgradeEquipHandler;
use bm1_server::message::{
    AddMoneyReq, BuyEquipReq, CsRpcCmd, CsRpcMsg, HeartbeatReq, LoginReq, Payload, PlaceholderReq,
    SkillUnlockReq, SkillUpgradeReq, UpgradeEquipReq,
};
use bm1_server::model::{
    PlayerBag, PlayerBagMoney, PlayerBagMoneyType, PlayerBase, PlayerData, PlayerEquip,
    PlayerEquipData, PlayerSkill, PlayerSkillData,
};
use bm1_server::player_pool::PlayerPool;
use bm1_server::router::{Context, MessageHandler};

fn make_add_money_msg(money_type: i32, amount: u32) -> CsRpcMsg {
    CsRpcMsg {
        cmd: CsRpcCmd::AddMoneyReq as i32,
        seq: 1,
        session_id: 1,
        payload: Some(Payload::AddMoneyReq(AddMoneyReq { money_type, amount })),
    }
}

#[test]
fn test_add_money_not_logged_in() {
    let mut pool = PlayerPool::with_sample_players();
    let handler = AddMoneyHandler;
    let ctx = Context { session_id: 1, player_id: 0 };
    let msg = make_add_money_msg(PlayerBagMoneyType::Gold as i32, 100);

    let resp = handler.handle(&ctx, &mut pool, msg).unwrap();
    assert_eq!(resp.cmd, CsRpcCmd::AddMoneyResp as i32);
    if let Some(Payload::AddMoneyResp(r)) = resp.payload {
        assert_eq!(r.money_count, 0);
        assert!(!r.error_msg.is_empty());
    } else {
        panic!("expected AddMoneyResp");
    }
}

#[test]
fn test_add_money_gold() {
    let mut pool = PlayerPool::with_sample_players();
    let handler = AddMoneyHandler;
    let ctx = Context { session_id: 1, player_id: 1 };
    let msg = make_add_money_msg(PlayerBagMoneyType::Gold as i32, 50);

    let resp = handler.handle(&ctx, &mut pool, msg).unwrap();
    if let Some(Payload::AddMoneyResp(r)) = resp.payload {
        assert_eq!(r.money_count, 1050);
        assert!(r.error_msg.is_empty());
    } else {
        panic!("expected AddMoneyResp");
    }

    pool.get_mut(1).unwrap().sub_gold(50).unwrap();
}

#[test]
fn test_add_money_invalid_type() {
    let mut pool = PlayerPool::with_sample_players();
    let handler = AddMoneyHandler;
    let ctx = Context { session_id: 1, player_id: 1 };
    let msg = make_add_money_msg(0, 100);

    let resp = handler.handle(&ctx, &mut pool, msg).unwrap();
    if let Some(Payload::AddMoneyResp(r)) = resp.payload {
        assert!(!r.error_msg.is_empty());
    } else {
        panic!("expected AddMoneyResp");
    }
}

#[test]
fn add_money_replies_carry_seq_session_and_texts() {
    let mut pool = PlayerPool::with_sample_players();
    let mut msg = make_add_money_msg(2, 5);
    msg.seq = 77;
    let resp = AddMoneyHandler.handle(&Context { session_id: 9, player_id: 2 }, &mut pool, msg).unwrap();
    assert_eq!((resp.seq, resp.session_id), (77, 9));
    match resp.payload {
        Some(Payload::AddMoneyResp(r)) => assert_eq!(r.money_count, 55),
        _ => panic!("expected AddMoneyResp"),
    }
    let resp = AddMoneyHandler.handle(&Context { session_id: 9, player_id: 3 }, &mut pool, make_add_money_msg(1, 5)).unwrap();
    match resp.payload {
        Some(Payload::AddMoneyResp(r)) => assert_eq!(r.error_msg, "player not found"),
        _ => panic!("expected AddMoneyResp"),
    }
    let resp = AddMoneyHandler.handle(&Context { session_id: 9, player_id: 1 }, &mut pool, make_add_money_msg(3, 5)).unwrap();
    match resp.payload {
        Some(Payload::AddMoneyResp(r)) => assert_eq!(r.error_msg, "invalid money type"),
        _ => panic!("expected AddMoneyResp"),
    }
    let other = CsRpcMsg { cmd: 5, seq: 1, session_id: 0, payload: None };
    assert!(AddMoneyHandler.handle(&Context { session_id: 9, player_id: 1 }, &mut pool, other).is_none());
}

fn make_unlock_req(skill_id: u32) -> CsRpcMsg {
    CsRpcMsg {
        cmd: CsRpcCmd::SkillUnlockReq as i32,
        seq: 1,
        session_id: 0,
        payload: Some(Payload::SkillUnlockReq(SkillUnlockReq { skill_id })),
    }
}

fn setup_player_with_points(pool: &mut PlayerPool, points: u32) {
    pool.load(PlayerData {
        player_base: Some(PlayerBase {
            player_id: 102,
            player_name: "test".into(),
            player_level: 1,
        }),
        player_bag: None,
        player_skill: Some(PlayerSkillData {
            skill_points: points,
            skills: vec![],
        }),
        player_equip: None,
    });
}

#[test]
fn skill_unlock_test_not_logged_in() {
    let mut pool = PlayerPool::with_sample_players();
    let handler = SkillUnlockHandler;
    let msg = make_unlock_req(1);
    let resp = handler.handle(&Context { player_id: 0, session_id: 0 }, &mut pool, msg).unwrap();
    assert_eq!(resp.cmd, CsRpcCmd::SkillUnlockResp as i32);
    match resp.payload {
        Some(Payload::SkillUnlockResp(r)) => {
            assert_eq!(r.result, 0);
            assert!(!r.error_msg.is_empty());
        }
        _ => panic!("unexpected payload"),
    }
}

#[test]
fn test_unlock_success() {
    let mut pool = PlayerPool::with_sample_players();
    setup_player_with_points(&mut pool, 5);
    let handler = SkillUnlockHandler;
    let msg = make_unlock_req(100);
    let resp = handler.handle(&Context { player_id: 102, session_id: 100 }, &mut pool, msg).unwrap();
    match resp.payload {
        Some(Payload::SkillUnlockResp(r)) => {
            assert_eq!(r.result, 1);
            assert_eq!(r.skill_id, 100);
            assert_eq!(r.skill_level, 1);
            assert_eq!(r.remaining_skill_points, 4);
        }
        _ => panic!("unexpected payload"),
    }
}

#[test]
fn test_unlock_duplicate() {
    let mut pool = PlayerPool::with_sample_players();
    setup_player_with_points(&mut pool, 5);
    let handler = SkillUnlockHandler;
    let ctx = Context { player_id: 102, session_id: 100 };
    let _ = handler.handle(&ctx, &mut pool, make_unlock_req(200));
    let resp = handler.handle(&ctx, &mut pool, make_unlock_req(200)).unwrap();
    match resp.payload {
        Some(Payload::SkillUnlockResp(r)) => {
            assert_eq!(r.result, 0);
            assert!(r.error_msg.contains("already unlocked"));
        }
        _ => panic!("unexpected payload"),
    }
}

#[test]
fn test_unlock_insufficient_points() {
    let mut pool = PlayerPool::with_sample_players();
    setup_player_with_points(&mut pool, 0);
    let handler = SkillUnlockHandler;
    let msg = make_unlock_req(300);
    let resp = handler.handle(&Context { player_id: 102, session_id: 100 }, &mut pool, msg).unwrap();
    match resp.payload {
        Some(Payload::SkillUnlockResp(r)) => {
            assert_eq!(r.result, 0);
            assert!(r.error_msg.contains("insufficient"));
        }
        _ => panic!("unexpected payload"),
    }
}

fn make_upgrade_req(skill_id: u32) -> CsRpcMsg {
    CsRpcMsg {
        cmd: CsRpcCmd::SkillUpgradeReq as i32,
        seq: 1,
        session_id: 0,
        payload: Some(Payload::SkillUpgradeReq(SkillUpgradeReq { skill_id })),
    }
}

fn setup_player_with_skill(pool: &mut PlayerPool) {
    pool.load(PlayerData {
        player_base: Some(PlayerBase {
            player_id: 103,
            player_name: "test".into(),
            player_level: 1,
        }),
        player_bag: None,
        player_skill: Some(PlayerSkillData {
            skill_points: 5,
            skills: vec![PlayerSkill { skill_id: 100, skill_level: 1 }],
        }),
        player_equip: None,
    });
}

#[test]
fn skill_upgrade_test_not_logged_in() {
    let mut pool = PlayerPool::with_sample_players();
    let handler = SkillUpgradeHandler;
    let msg = make_upgrade_req(100);
    let resp = handler.handle(&Context { player_id: 0, session_id: 0 }, &mut pool, msg).unwrap();
    assert_eq!(resp.cmd, CsRpcCmd::SkillUpgradeResp as i32);
    match resp.payload {
        Some(Payload::SkillUpgradeResp(r)) => {
            assert_eq!(r.result, 0);
            assert!(!r.error_msg.is_empty());
        }
        _ => panic!("unexpected payload"),
    }
}

#[test]
fn skill_upgrade_test_upgrade_success() {
    let mut pool = PlayerPool::with_sample_players();
    setup_player_with_skill(&mut pool);
    let handler = SkillUpgradeHandler;
    let msg = make_upgrade_req(100);
    let resp = handler.handle(&Context { player_id: 103, session_id: 100 }, &mut pool, msg).unwrap();
    match resp.payload {
        Some(Payload::SkillUpgradeResp(r)) => {
            assert_eq!(r.result, 1);
            assert_eq!(r.skill_id, 100);
            assert_eq!(r.skill_level, 2);
        }
        _ => panic!("unexpected payload"),
    }
}

#[test]
fn test_upgrade_not_unlocked() {
    let mut pool = PlayerPool::with_sample_players();
    setup_player_with_skill(&mut pool);
    let handler = SkillUpgradeHandler;
    let msg = make_upgrade_req(999);
    let resp = handler.handle(&Context { player_id: 103, session_id: 100 }, &mut pool, msg).unwrap();
    match resp.payload {
        Some(Payload::SkillUpgradeResp(r)) => {
            assert_eq!(r.result, 0);
            assert!(r.error_msg.contains("not unlocked"));
        }
        _ => panic!("unexpected payload"),
    }
}

#[test]
fn test_upgrade_insufficient_points() {
    let mut pool = PlayerPool::with_sample_players();
    setup_player_with_skill(&mut pool);
    let handler = SkillUpgradeHandler;
    let ctx = Context { player_id: 103, session_id: 100 };
    for _ in 0..10 {
        let _ = handler.handle(&ctx, &mut pool, make_upgrade_req(100));
    }
    let resp = handler.handle(&ctx, &mut pool, make_upgrade_req(100)).unwrap();
    match resp.payload {
        Some(Payload::SkillUpgradeResp(r)) => {
            assert_eq!(r.result, 0);
            assert!(r.error_msg.contains("insufficient"));
        }
        _ => panic!("unexpected payload"),
    }
}

fn make_equip_req(equip_id: u32) -> CsRpcMsg {
    CsRpcMsg {
        cmd: CsRpcCmd::UpgradeEquipReq as i32,
        seq: 1,
        session_id: 0,
        payload: Some(Payload::UpgradeEquipReq(UpgradeEquipReq { equip_id })),
    }
}

fn setup_player_with_equip(pool: &mut PlayerPool) {
    pool.load(PlayerData {
        player_base: Some(PlayerBase {
            player_id: 202,
            player_name: "test".into(),
            player_level: 1,
        }),
        player_bag: Some(PlayerBag {
            items: vec![],
            money: vec![PlayerBagMoney {
                money_type: PlayerBagMoneyType::Gold as i32,
                money_count: 500,
            }],
        }),
        player_skill: None,
        player_equip: Some(PlayerEquipData {
            equips: vec![PlayerEquip { equip_id: 1001, equip_level: 1 }],
        }),
    });
}

#[test]
fn upgrade_equip_test_not_logged_in() {
    let mut pool = PlayerPool::with_sample_players();
    let handler = UpgradeEquipHandler;
    let msg = make_equip_req(1001);
    let resp = handler.handle(&Context { player_id: 0, session_id: 0 }, &mut pool, msg).unwrap();
    assert_eq!(resp.cmd, CsRpcCmd::UpgradeEquipResp as i32);
    match resp.payload {
        Some(Payload::UpgradeEquipResp(r)) => {
            assert_eq!(r.result, 0);
            assert!(!r.error_msg.is_empty());
        }
        _ => panic!("unexpected payload"),
    }
}

#[test]
fn upgrade_equip_test_upgrade_success() {
    let mut pool = PlayerPool::with_sample_players();
    setup_player_with_equip(&mut pool);
    let handler = UpgradeEquipHandler;
    let msg = make_equip_req(1001);
    let resp = handler.handle(&Context { player_id: 202, session_id: 100 }, &mut pool, msg).unwrap();
    match resp.payload {
        Some(Payload::UpgradeEquipResp(r)) => {
            assert_eq!(r.result, 1);
            assert_eq!(r.equip_id, 1001);
            assert_eq!(r.equip_level, 2);
        }
        _ => panic!("unexpected payload"),
    }
}

#[test]
fn test_upgrade_not_owned() {
    let mut pool = PlayerPool::with_sample_players();
    setup_player_with_equip(&mut pool);
    let handler = UpgradeEquipHandler;
    let msg = make_equip_req(9999);
    let resp = handler.handle(&Context { player_id: 202, session_id: 100 }, &mut pool, msg).unwrap();
    match resp.payload {
        Some(Payload::UpgradeEquipResp(r)) => {
            assert_eq!(r.result, 0);
            assert!(r.error_msg.contains("not owned"));
        }
        _ => panic!("unexpected payload"),
    }
}

#[test]
fn test_upgrade_insufficient_gold() {
    let mut pool = PlayerPool::with_sample_players();
    setup_player_with_equip(&mut pool);
    let handler = UpgradeEquipHandler;
    let ctx = Context { player_id: 202, session_id: 100 };
    for _ in 0..6 {
        let _ = handler.handle(&ctx, &mut pool, make_equip_req(1001));
    }
    let resp = handler.handle(&ctx, &mut pool, make_equip_req(1001)).unwrap();
    match resp.payload {
        Some(Payload::UpgradeEquipResp(r)) => {
            assert_eq!(r.result, 0);
            assert!(r.error_msg.contains("insufficient"));
        }
        _ => panic!("unexpected payload"),
    }
}

#[test]
fn login_found_and_not_found() {
    let mut pool = PlayerPool::with_sample_players();
    let msg = |player_id: u32| CsRpcMsg {
        cmd: CsRpcCmd::LoginReq as i32,
        seq: 3,
        session_id: 0,
        payload: Some(Payload::LoginReq(LoginReq { player_id })),
    };
    let resp = LoginHandler.handle(&Context { session_id: 4, player_id: 0 }, &mut pool, msg(2)).unwrap();
    assert_eq!((resp.cmd, resp.seq, resp.session_id), (CsRpcCmd::LoginResp as i32, 3, 4));
    match resp.payload {
        Some(Payload::LoginResp(r)) => {
            assert!(r.error_msg.is_empty());
            let data = r.player_data.unwrap();
            assert_eq!(data.player_base.unwrap().player_name, "bob");
        }
        _ => panic!("unexpected payload"),
    }
    let resp = LoginHandler.handle(&Context { session_id: 4, player_id: 0 }, &mut pool, msg(4_294_967_295)).unwrap();
    match resp.payload {
        Some(Payload::LoginResp(r)) => {
            assert!(r.player_data.is_none());
            assert_eq!(r.error_msg, "player 4294967295 not found");
        }
        _ => panic!("unexpected payload"),
    }
}

#[test]
fn placeholder_echoes_and_heartbeat_returns_timestamp() {
    let mut pool = PlayerPool::new();
    let ctx = Context { session_id: 2, player_id: 0 };
    let msg = CsRpcMsg {
        cmd: CsRpcCmd::Placeholder as i32,
        seq: 8,
        session_id: 0,
        payload: Some(Payload::PlaceholderReq(PlaceholderReq { msg: "hi".into() })),
    };
    let resp = PlaceholderHandler.handle(&ctx, &mut pool, msg).unwrap();
    match resp.payload {
        Some(Payload::PlaceholderResp(r)) => assert_eq!(r.msg, "echo: hi"),
        _ => panic!("unexpected payload"),
    }
    let hb = CsRpcMsg {
        cmd: CsRpcCmd::Heartbeat as i32,
        seq: 9,
        session_id: 0,
        payload: Some(Payload::HeartbeatReq(HeartbeatReq { timestamp: 123 })),
    };
    let resp = HeartbeatHandler.handle(&ctx, &mut pool, hb).unwrap();
    assert_eq!((resp.cmd, resp.seq, resp.session_id), (2, 9, 2));
    match resp.payload {
        Some(Payload::HeartbeatResp(r)) => assert_eq!(r.timestamp, 123),
        _ => panic!("unexpected payload"),
    }
    let empty = CsRpcMsg { cmd: 2, seq: 1, session_id: 0, payload: None };
    match HeartbeatHandler.handle(&ctx, &mut pool, empty).unwrap().payload {
        Some(Payload::HeartbeatResp(r)) => assert_eq!(r.timestamp, 0),
        _ => panic!("unexpected payload"),
    }
}

fn make_buy_req(equip_id: u32) -> CsRpcMsg {
    CsRpcMsg {
        cmd: CsRpcCmd::BuyEquipReq as i32,
        seq: 4,
        session_id: 0,
        payload: Some(Payload::BuyEquipReq(BuyEquipReq { equip_id })),
    }
}

fn buy_result(resp: CsRpcMsg) -> (i32, String, u32, u32) {
    assert_eq!(resp.cmd, CsRpcCmd::BuyEquipResp as i32);
    match resp.payload {
        Some(Payload::BuyEquipResp(r)) => (r.result, r.error_msg, r.equip_id, r.equip_level),
        _ => panic!("unexpected payload"),
    }
}

#[test]
fn buy_equip_test_not_logged_in() {
    let mut pool = PlayerPool::with_sample_players();
    let resp = BuyEquipHandler.handle(&Context { player_id: 0, session_id: 0 }, &mut pool, make_buy_req(2002)).unwrap();
    assert_eq!(buy_result(resp), (0, "not logged in".to_string(), 0, 0));
}

#[test]
fn buy_equip_test_success() {
    let mut pool = PlayerPool::with_sample_players();
    setup_player_with_equip(&mut pool);
    let ctx = Context { player_id: 202, session_id: 100 };
    let resp = BuyEquipHandler.handle(&ctx, &mut pool, make_buy_req(2002)).unwrap();
    assert_eq!((resp.seq, resp.session_id), (4, 100));
    assert_eq!(buy_result(resp), (1, String::new(), 2002, 1));
    let player = pool.get(202).unwrap();
    assert_eq!(player.equip_level(2002), Some(1));
    assert_eq!(player.gold(), 0);
}

#[test]
fn buy_equip_test_already_owned() {
    let mut pool = PlayerPool::with_sample_players();
    setup_player_with_equip(&mut pool);
    let ctx = Context { player_id: 202, session_id: 100 };
    let resp = BuyEquipHandler.handle(&ctx, &mut pool, make_buy_req(1001)).unwrap();
    assert_eq!(buy_result(resp), (0, "equip already owned".to_string(), 0, 0));
    assert_eq!(pool.get(202).unwrap().gold(), 500);
}

#[test]
fn buy_equip_test_insufficient_gold() {
    let mut pool = PlayerPool::with_sample_players();
    let ctx = Context { player_id: 2, session_id: 1 };
    let first = BuyEquipHandler.handle(&ctx, &mut pool, make_buy_req(2002)).unwrap();
    assert_eq!(buy_result(first).0, 1);
    let resp = BuyEquipHandler.handle(&ctx, &mut pool, make_buy_req(3003)).unwrap();
    let (result, err, _, _) = buy_result(resp);
    assert_eq!(result, 0);
    assert!(err.contains("insufficient"));
    assert_eq!(pool.get(2).unwrap().equip_level(3003), None);
}

#[test]
fn buy_equip_ignores_other_payloads() {
    let mut pool = PlayerPool::with_sample_players();
    let resp = BuyEquipHandler.handle(&Context { player_id: 1, session_id: 1 }, &mut pool, make_equip_req(1001));
    assert!(resp.is_none());
}
