use bm1_server::message::{CsRpcCmd, CsRpcMsg};
use bm1_server::player_pool::PlayerPool;
use bm1_server::router::{Context, MessageHandler, Router};

struct EchoHandler;

impl MessageHandler for EchoHandler {
    fn handles(&self, _: Context, _: PlayerPool, _: CsRpcMsg, _: Option<CsRpcMsg>, _: PlayerPool) -> bool {
        true
    }

    fn handle(&self, ctx: &Context, _pool: &mut PlayerPool, msg: CsRpcMsg) -> Option<CsRpcMsg> {
        Some(CsRpcMsg {
            cmd: msg.cmd,
            seq: msg.seq,
            session_id: ctx.session_id,
            payload: None,
        })
    }
}

#[test]
fn test_dispatch_known_cmd() {
    let mut router = Router::new();
    router.register(CsRpcCmd::Placeholder as i32, EchoHandler);

    let mut pool = PlayerPool::new();
    let ctx = Context { session_id: 1, player_id: 0 };
    let msg = CsRpcMsg {
        cmd: CsRpcCmd::Placeholder as i32,
        seq: 1,
        session_id: 0,
        payload: None,
    };

    let resp = router.dispatch(&ctx, &mut pool, msg);
    assert!(resp.is_some());
    assert_eq!(resp.unwrap().session_id, 1);
}

#[test]
fn test_dispatch_unknown_cmd() {
    let router: Router<EchoHandler> = Router::new();
    let mut pool = PlayerPool::new();
    let ctx = Context { session_id: 1, player_id: 0 };
    let msg = CsRpcMsg {
        cmd: 999,
        seq: 1,
        session_id: 0,
        payload: None,
    };

    let resp = router.dispatch(&ctx, &mut pool, msg);
    assert!(resp.is_none());
}

struct Fixed(u32);

impl MessageHandler for Fixed {
    fn handles(&self, _: Context, _: PlayerPool, _: CsRpcMsg, _: Option<CsRpcMsg>, _: PlayerPool) -> bool {
        true
    }

    fn handle(&self, _ctx: &Context, _pool: &mut PlayerPool, _msg: CsRpcMsg) -> Option<CsRpcMsg> {
        Some(CsRpcMsg { cmd: 0, seq: self.0, session_id: 0, payload: None })
    }
}

#[test]
fn registering_again_replaces_the_handler() {
    let mut router = Router::new();
    router.register(1, Fixed(10));
    router.register(1, Fixed(20));
    let mut pool = PlayerPool::new();
    let ctx = Context { session_id: 1, player_id: 0 };
    let resp = router.dispatch(&ctx, &mut pool, CsRpcMsg { cmd: 1, seq: 0, session_id: 0, payload: None });
    assert_eq!(resp.unwrap().seq, 20);
}

#[test]
fn command_numbers_follow_declaration_order() {
    assert_eq!(CsRpcCmd::LoginReq.value(), 3);
    assert_eq!(CsRpcCmd::PlayerDataNotify.value(), 7);
    assert_eq!(CsRpcCmd::UpgradeEquipReq.value(), 14);
    assert_eq!(CsRpcCmd::UpgradeEquipResp as i32, CsRpcCmd::UpgradeEquipResp.value());
}
