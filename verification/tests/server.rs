use bm1_server::handler::GameHandler;
use bm1_server::delta::DeltaOp;
use bm1_server::message::{
    AddMoneyReq, BuyEquipReq, CsRpcCmd, CsRpcMsg, LoginReq, Payload, PlaceholderReq, UpgradeEquipReq,
};
use bm1_server::model::{PlayerBag, PlayerBagMoney, PlayerBase, PlayerData};
use bm1_server::player_pool::PlayerPool;
use bm1_server::server::{close_connection, process_message, Server};
use bm1_server::session::SessionManager;

fn login(player_id: u32, session_id: u32) -> CsRpcMsg {
    CsRpcMsg {
        cmd: CsRpcCmd::LoginReq as i32,
        seq: 1,
        session_id,
        payload: Some(Payload::LoginReq(LoginReq { player_id })),
    }
}

fn add_gold(amount: u32) -> CsRpcMsg {
    CsRpcMsg {
        cmd: CsRpcCmd::AddMoneyReq as i32,
        seq: 2,
        session_id: 0,
        payload: Some(Payload::AddMoneyReq(AddMoneyReq { money_type: 1, amount })),
    }
}

#[test]
fn server_keeps_its_address() {
    let server = Server::new("0.0.0.0:8080".to_string());
    assert_eq!(server.addr(), "0.0.0.0:8080");
}

#[test]
fn unrouted_command_gets_no_reply() {
    let router = Server::build_router();
    let mut pool = PlayerPool::with_sample_players();
    let mut mgr = SessionManager::new();
    let mut sid = 0;
    let heartbeat = CsRpcMsg { cmd: CsRpcCmd::Heartbeat as i32, seq: 1, session_id: 0, payload: None };
    assert!(process_message(&mut sid, &mut mgr, &mut pool, &router, heartbeat).is_empty());
    assert_eq!(sid, 1);
}

#[test]
fn login_then_money_sends_delta_before_reply() {
    let router = Server::build_router();
    let mut pool = PlayerPool::with_sample_players();
    let mut mgr = SessionManager::new();
    let mut sid = 0;

    let out = process_message(&mut sid, &mut mgr, &mut pool, &router, login(1, 0));
    assert_eq!(sid, 1);
    assert_eq!(out.len(), 1);
    assert_eq!(out[0].cmd, CsRpcCmd::LoginResp as i32);
    assert_eq!(out[0].session_id, 1);
    assert_eq!(mgr.player_id(1), Some(1));

    let out = process_message(&mut sid, &mut mgr, &mut pool, &router, add_gold(25));
    assert_eq!(out.len(), 2);
    assert_eq!(out[0].cmd, CsRpcCmd::PlayerDataNotify as i32);
    assert_eq!(out[0].seq, 0);
    match &out[0].payload {
        Some(Payload::PlayerDataNotify(n)) => {
            let bag = n.delta.as_ref().unwrap().bag.as_ref().unwrap();
            assert_eq!(bag.money_changes[0].money_count, 1025);
            assert!(n.reason.is_empty());
        }
        _ => panic!("expected a notify"),
    }
    assert_eq!(out[1].cmd, CsRpcCmd::AddMoneyResp as i32);
    assert_eq!(out[1].seq, 2);
    assert_eq!(pool.get(1).unwrap().gold(), 1025);
}

#[test]
fn unchanged_record_sends_only_the_reply() {
    let router = Server::build_router();
    let mut pool = PlayerPool::with_sample_players();
    let mut mgr = SessionManager::new();
    let mut sid = 0;
    process_message(&mut sid, &mut mgr, &mut pool, &router, login(2, 0));
    let bad = CsRpcMsg {
        cmd: CsRpcCmd::AddMoneyReq as i32,
        seq: 5,
        session_id: 0,
        payload: Some(Payload::AddMoneyReq(AddMoneyReq { money_type: 0, amount: 1 })),
    };
    let out = process_message(&mut sid, &mut mgr, &mut pool, &router, bad);
    assert_eq!(out.len(), 1);
    assert_eq!(out[0].cmd, CsRpcCmd::AddMoneyResp as i32);
}

#[test]
fn failed_login_binds_nothing() {
    let router = Server::build_router();
    let mut pool = PlayerPool::with_sample_players();
    let mut mgr = SessionManager::new();
    let mut sid = 0;
    process_message(&mut sid, &mut mgr, &mut pool, &router, login(99, 0));
    assert_eq!(mgr.player_id(sid), Some(0));
    let out = process_message(&mut sid, &mut mgr, &mut pool, &router, add_gold(1));
    match &out[0].payload {
        Some(Payload::AddMoneyResp(r)) => assert_eq!(r.error_msg, "not logged in"),
        _ => panic!("expected a money reply"),
    }
}

#[test]
fn reconnect_takes_over_an_offline_session() {
    let router: bm1_server::router::Router<GameHandler> = Server::build_router();
    let mut pool = PlayerPool::with_sample_players();
    let mut mgr = SessionManager::new();
    let mut first = 0;
    process_message(&mut first, &mut mgr, &mut pool, &router, login(1, 0));
    close_connection(first, &mut mgr);
    assert!(!mgr.get_session(first).unwrap().connected);

    let mut second = 0;
    let out = process_message(&mut second, &mut mgr, &mut pool, &router, add_gold(5));
    assert_eq!(second, 2);
    assert_eq!(out.len(), 1);

    let mut third = 0;
    let mut msg = add_gold(5);
    msg.session_id = first;
    let out = process_message(&mut third, &mut mgr, &mut pool, &router, msg);
    assert_eq!(third, first);
    assert_eq!(out.len(), 2);
    assert!(mgr.get_session(first).unwrap().connected);

    let mut fourth = 0;
    let mut msg = add_gold(5);
    msg.session_id = first;
    process_message(&mut fourth, &mut mgr, &mut pool, &router, msg);
    assert_eq!(fourth, 3);
}

fn equip_msg(cmd: CsRpcCmd, equip_id: u32) -> CsRpcMsg {
    let payload = if cmd == CsRpcCmd::BuyEquipReq {
        Payload::BuyEquipReq(BuyEquipReq { equip_id })
    } else {
        Payload::UpgradeEquipReq(UpgradeEquipReq { equip_id })
    };
    CsRpcMsg { cmd: cmd as i32, seq: 7, session_id: 0, payload: Some(payload) }
}

#[test]
fn router_serves_placeholder_and_equipment_commands() {
    let router = Server::build_router();
    let mut pool = PlayerPool::with_sample_players();
    let mut mgr = SessionManager::new();
    let mut sid = 0;

    let echo = CsRpcMsg {
        cmd: CsRpcCmd::Placeholder as i32,
        seq: 1,
        session_id: 0,
        payload: Some(Payload::PlaceholderReq(PlaceholderReq { msg: "hello".to_string() })),
    };
    let out = process_message(&mut sid, &mut mgr, &mut pool, &router, echo);
    assert_eq!(out.len(), 1);
    match &out[0].payload {
        Some(Payload::PlaceholderResp(r)) => assert_eq!(r.msg, "echo: hello"),
        _ => panic!("expected an echo"),
    }

    process_message(&mut sid, &mut mgr, &mut pool, &router, login(1, 0));

    let out = process_message(&mut sid, &mut mgr, &mut pool, &router, equip_msg(CsRpcCmd::BuyEquipReq, 3001));
    assert_eq!(out.len(), 2);
    match &out[0].payload {
        Some(Payload::PlayerDataNotify(n)) => {
            let delta = n.delta.as_ref().unwrap();
            assert_eq!(delta.bag.as_ref().unwrap().money_changes[0].money_count, 500);
            let equip = delta.equip.as_ref().unwrap();
            assert_eq!(equip.equip_changes.len(), 1);
            assert_eq!(equip.equip_changes[0].op, DeltaOp::Upsert as i32);
            assert_eq!(equip.equip_changes[0].equip_id, 3001);
            assert_eq!(equip.equip_changes[0].equip_level, 1);
        }
        _ => panic!("expected a notify"),
    }
    assert_eq!(out[1].cmd, CsRpcCmd::BuyEquipResp as i32);
    match &out[1].payload {
        Some(Payload::BuyEquipResp(r)) => assert_eq!((r.result, r.equip_id, r.equip_level), (1, 3001, 1)),
        _ => panic!("expected a purchase reply"),
    }

    let out = process_message(&mut sid, &mut mgr, &mut pool, &router, equip_msg(CsRpcCmd::UpgradeEquipReq, 3001));
    assert_eq!(out.len(), 2);
    match &out[0].payload {
        Some(Payload::PlayerDataNotify(n)) => {
            let equip = n.delta.as_ref().unwrap().equip.as_ref().unwrap();
            assert_eq!(equip.equip_changes[0].equip_level, 2);
        }
        _ => panic!("expected a notify"),
    }
    assert_eq!(out[1].cmd, CsRpcCmd::UpgradeEquipResp as i32);
    assert_eq!(pool.get(1).unwrap().equip_level(3001), Some(2));
    assert_eq!(pool.get(1).unwrap().gold(), 400);
}

#[test]
fn delta_goes_out_even_without_a_reply() {
    let router = Server::build_router();
    let mut pool = PlayerPool::new();
    pool.load(PlayerData {
        player_base: Some(PlayerBase { player_id: 300, player_name: "twice".into(), player_level: 1 }),
        player_bag: Some(PlayerBag {
            items: vec![],
            money: vec![
                PlayerBagMoney { money_type: 1, money_count: 100 },
                PlayerBagMoney { money_type: 1, money_count: 50 },
            ],
        }),
        player_skill: None,
        player_equip: None,
    });
    let mut mgr = SessionManager::new();
    let mut sid = 0;
    process_message(&mut sid, &mut mgr, &mut pool, &router, login(300, 0));
    let bare = CsRpcMsg { cmd: CsRpcCmd::AddMoneyReq as i32, seq: 9, session_id: 0, payload: None };
    let out = process_message(&mut sid, &mut mgr, &mut pool, &router, bare);
    assert_eq!(out.len(), 1);
    assert_eq!(out[0].cmd, CsRpcCmd::PlayerDataNotify as i32);
    assert_eq!(out[0].session_id, sid);
}

#[test]
fn every_message_keeps_the_session_online() {
    let router = Server::build_router();
    let mut pool = PlayerPool::with_sample_players();
    let mut mgr = SessionManager::new();
    let mut sid = 0;
    process_message(&mut sid, &mut mgr, &mut pool, &router, login(2, 0));
    let before = mgr.get_session(sid).unwrap().last_active;
    process_message(&mut sid, &mut mgr, &mut pool, &router, add_gold(1));
    let s = mgr.get_session(sid).unwrap();
    assert!(s.connected);
    assert_eq!(s.player_id, 2);
    assert!(s.last_active >= before);
    assert_eq!(mgr.next_session_id(), 2);
}
