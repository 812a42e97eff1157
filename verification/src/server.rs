//! The server's decisions: which handlers it routes to, and what it does with
//! each message a connection receives. Listening, reading and writing are
//! done around this by the program that runs the server.
use crate::delta::{
    diff, diff_player_data, equip_after, item_after, lemma_diff_then_apply, level_after, money_after,
    points_after, skill_after, PlayerDataDeltaView,
};
use crate::handler::add_money::AddMoneyHandler;
use crate::handler::buy_equip::BuyEquipHandler;
use crate::handler::login::LoginHandler;
use crate::handler::placeholder::PlaceholderHandler;
use crate::handler::skill_unlock::SkillUnlockHandler;
use crate::handler::skill_upgrade::SkillUpgradeHandler;
use crate::handler::upgrade_equip::UpgradeEquipHandler;
use crate::handler::GameHandler;
use crate::message::{cmd_number, CsRpcCmd, CsRpcMsg, Payload, PlayerDataNotify};
use crate::model::{PlayerData, PlayerDataView};
use crate::player_pool::PlayerPool;
use crate::router::{Context, MessageHandler, Router};
use crate::session::{disconnected, reconnectable, Session, SessionManager};
use vstd::prelude::*;

verus! {

/// A server bound to an address.
pub struct Server {
    addr: String,
}

impl Server {
    /// The address the server listens on.
    pub closed spec fn address(&self) -> Seq<char> {
        self.addr@
    }

    /// A server for an address such as "0.0.0.0:8080".
    pub fn new(addr: String) -> (r: Server)
        ensures
            r.address() == addr@,
    {
        Server { addr }
    }

    /// The address the server listens on.
    pub fn addr(&self) -> (r: &str)
        ensures
            r@ == self.address(),
    {
        self.addr.as_str()
    }

    /// The server's routes: the echo placeholder, login, money, skill unlock
    /// and upgrade, and equipment purchase and upgrade.
    pub fn build_router() -> (r: Router<GameHandler>)
        ensures
            r@ == Map::<i32, GameHandler>::empty().insert(
                cmd_number(CsRpcCmd::Placeholder),
                GameHandler::Placeholder(PlaceholderHandler),
            ).insert(cmd_number(CsRpcCmd::LoginReq), GameHandler::Login(LoginHandler)).insert(
                cmd_number(CsRpcCmd::AddMoneyReq),
                GameHandler::AddMoney(AddMoneyHandler),
            ).insert(
                cmd_number(CsRpcCmd::SkillUnlockReq),
                GameHandler::SkillUnlock(SkillUnlockHandler),
            ).insert(
                cmd_number(CsRpcCmd::SkillUpgradeReq),
                GameHandler::SkillUpgrade(SkillUpgradeHandler),
            ).insert(cmd_number(CsRpcCmd::BuyEquipReq), GameHandler::BuyEquip(BuyEquipHandler)).insert(
                cmd_number(CsRpcCmd::UpgradeEquipReq),
                GameHandler::UpgradeEquip(UpgradeEquipHandler),
            ),
    {
        let mut router = Router::new();
        router.register(CsRpcCmd::Placeholder.value(), GameHandler::Placeholder(PlaceholderHandler));
        router.register(CsRpcCmd::LoginReq.value(), GameHandler::Login(LoginHandler));
        router.register(CsRpcCmd::AddMoneyReq.value(), GameHandler::AddMoney(AddMoneyHandler));
        router.register(CsRpcCmd::SkillUnlockReq.value(), GameHandler::SkillUnlock(SkillUnlockHandler));
        router.register(CsRpcCmd::SkillUpgradeReq.value(), GameHandler::SkillUpgrade(SkillUpgradeHandler));
        router.register(CsRpcCmd::BuyEquipReq.value(), GameHandler::BuyEquip(BuyEquipHandler));
        router.register(CsRpcCmd::UpgradeEquipReq.value(), GameHandler::UpgradeEquip(UpgradeEquipHandler));
        router
    }
}

/// A connection without a session gets a new one unless its first message
/// names an offline session.
pub open spec fn opens_session(current: u32, msg: CsRpcMsg, sessions: Map<u32, Session>) -> bool {
    current == 0 && !(msg.session_id != 0 && reconnectable(sessions, msg.session_id))
}

/// The session a message is handled in: the connection's, else a reconnected
/// one, else a new one.
pub open spec fn session_for(current: u32, msg: CsRpcMsg, sessions: Map<u32, Session>, next: u32) -> u32 {
    if current != 0 {
        current
    } else if opens_session(current, msg, sessions) {
        next
    } else {
        msg.session_id
    }
}

/// The player logged in on the session a message is handled in, 0 for none.
pub open spec fn player_for(current: u32, msg: CsRpcMsg, sessions: Map<u32, Session>, next: u32) -> u64 {
    let s = session_for(current, msg, sessions, next);
    if opens_session(current, msg, sessions) {
        0
    } else if sessions.contains_key(s) {
        sessions[s].player_id
    } else {
        0
    }
}

/// The player a login request names.
pub open spec fn login_target(msg: CsRpcMsg) -> Option<u64> {
    match msg.payload {
        Some(Payload::LoginReq(req)) => Some(req.player_id as u64),
        _ => None,
    }
}

/// A reply that reports a successful login.
pub open spec fn login_succeeded(resp: CsRpcMsg) -> bool {
    resp.payload matches Some(Payload::LoginResp(lr)) && lr.error_msg@.len() == 0
}

/// The player a session carries after the handler's answer: the one a
/// successful login named, where the session had none, else the one it had.
pub open spec fn player_after(msg: CsRpcMsg, player: u64, resp: Option<CsRpcMsg>) -> u64 {
    match resp {
        Some(r) => if player == 0 && login_target(msg) is Some && login_succeeded(r) {
            login_target(msg).unwrap()
        } else {
            player
        },
        None => player,
    }
}

/// `n` pushes `delta` to session `sid`.
pub open spec fn is_notify(n: CsRpcMsg, sid: u32, delta: PlayerDataDeltaView) -> bool {
    &&& n.cmd == cmd_number(CsRpcCmd::PlayerDataNotify)
    &&& n.seq == 0
    &&& n.session_id == sid
    &&& n.payload matches Some(Payload::PlayerDataNotify(pn))
    &&& pn.delta matches Some(d)
    &&& d@ == delta
    &&& pn.reason@.len() == 0
}

/// The delta of the logged-in player's record across handling, where the
/// player is logged in and loaded before and after, and the record changed.
pub open spec fn player_delta(
    player: u64,
    pool: Map<u64, PlayerDataView>,
    pool_after: Map<u64, PlayerDataView>,
) -> Option<PlayerDataDeltaView> {
    if player > 0 && pool.contains_key(player) && pool_after.contains_key(player) {
        diff(pool[player], pool_after[player])
    } else {
        None
    }
}

/// What a connection sends for a message whose handler answered `resp`:
/// the logged-in player's delta first where there is one, then the reply,
/// where there is one, stamped with the session.
pub open spec fn outgoing(
    out: Seq<CsRpcMsg>,
    sid: u32,
    resp: Option<CsRpcMsg>,
    delta: Option<PlayerDataDeltaView>,
) -> bool {
    &&& out.len() == (if delta is Some {
        1nat
    } else {
        0nat
    }) + (if resp is Some {
        1nat
    } else {
        0nat
    })
    &&& delta matches Some(d) ==> is_notify(out[0], sid, d)
    &&& resp matches Some(r) ==> out.last() == (CsRpcMsg { session_id: sid, ..r })
}

/// Handles one message that a connection received, and returns the messages
/// to send back in order.
///
/// A connection without a session (`*session_id == 0`) first gets one: a new
/// one where the message names none or one that is not offline, else the
/// named offline session, reconnected. The session's activity time is then
/// refreshed, and the message is routed with the session and its logged-in
/// player. A successful login binds its player to a session that has none.
/// Where a logged-in player's record changed, the delta goes out first, then
/// the reply, if the handler gave one.
pub fn process_message<H: MessageHandler>(
    session_id: &mut u32,
    mgr: &mut SessionManager,
    pool: &mut PlayerPool,
    router: &Router<H>,
    msg: CsRpcMsg,
) -> (out: Vec<CsRpcMsg>)
    requires
        old(mgr).wf(),
        *old(session_id) == 0 ==> old(mgr).next_id() < u32::MAX,
    ensures
        ({
            let sessions = old(mgr).sessions();
            let sid = session_for(*old(session_id), msg, sessions, old(mgr).next_id());
            let player = player_for(*old(session_id), msg, sessions, old(mgr).next_id());
            let ctx = Context { session_id: sid, player_id: player };
            let opened = opens_session(*old(session_id), msg, sessions);
            let delta = player_delta(player, old(pool)@, final(pool)@);
            &&& *final(session_id) == sid
            &&& final(mgr).wf()
            &&& final(mgr).next_id() == if opened {
                old(mgr).next_id() + 1
            } else {
                old(mgr).next_id() as int
            }
            &&& opened ==> !sessions.contains_key(sid)
            &&& forall|k: u32|
                k != sid ==> (#[trigger] final(mgr).sessions().contains_key(k)
                    == sessions.contains_key(k)) && (sessions.contains_key(k)
                    ==> final(mgr).sessions()[k] == sessions[k])
            &&& final(mgr).sessions().contains_key(sid) == (sessions.contains_key(sid)
                || *old(session_id) == 0)
            &&& final(mgr).sessions().contains_key(sid) ==> final(mgr).sessions()[sid].id == sid
            &&& *old(session_id) == 0 ==> final(mgr).sessions()[sid].connected
            &&& (*old(session_id) != 0 && sessions.contains_key(sid))
                ==> final(mgr).sessions()[sid].connected == sessions[sid].connected
            &&& player != 0 && final(mgr).sessions().contains_key(sid) ==> final(mgr).sessions()[sid].player_id
                == player
            &&& if router@.contains_key(msg.cmd) {
                exists|resp: Option<CsRpcMsg>|
                    {
                        &&& #[trigger] router@[msg.cmd].handles(ctx, *old(pool), msg, resp, *final(pool))
                        &&& outgoing(out@, sid, resp, delta)
                        &&& final(mgr).sessions().contains_key(sid)
                            ==> final(mgr).sessions()[sid].player_id == player_after(msg, player, resp)
                    }
            } else {
                &&& final(pool)@ == old(pool)@
                &&& outgoing(out@, sid, None, delta)
                &&& final(mgr).sessions().contains_key(sid) ==> final(mgr).sessions()[sid].player_id == player
            }
        }),
{
    let mut sid = *session_id;
    if sid == 0 {
        sid = if msg.session_id == 0 {
            mgr.create_session()
        } else if mgr.reconnect(msg.session_id) {
            msg.session_id
        } else {
            mgr.create_session()
        };
        *session_id = sid;
    }
    mgr.touch(sid);
    let player_id = match mgr.player_id(sid) {
        Some(p) => p,
        None => 0,
    };
    let login_player_id: Option<u64> = match &msg.payload {
        Some(Payload::LoginReq(req)) => Some(req.player_id as u64),
        _ => None,
    };
    let ctx = Context { session_id: sid, player_id };
    let before: Option<PlayerData> = if player_id > 0 {
        match pool.get(player_id) {
            Some(p) => Some(p.data().snapshot()),
            None => None,
        }
    } else {
        None
    };
    let ghost pool_before = *pool;
    let ghost msg_in = msg;
    let answer = router.dispatch(&ctx, pool, msg);
    let mut out: Vec<CsRpcMsg> = Vec::new();
    if let Some(before_data) = before {
        let after: Option<PlayerData> = match pool.get(player_id) {
            Some(p) => Some(p.data().snapshot()),
            None => None,
        };
        if let Some(after_data) = after {
            if let Some(delta) = diff_player_data(&before_data, &after_data) {
                out.push(
                    CsRpcMsg {
                        cmd: CsRpcCmd::PlayerDataNotify.value(),
                        seq: 0,
                        session_id: sid,
                        payload: Some(
                            Payload::PlayerDataNotify(
                                PlayerDataNotify { delta: Some(delta), reason: String::new() },
                            ),
                        ),
                    },
                );
            }
        }
    }
    match answer {
        None => {},
        Some(resp0) => {
            let mut resp = resp0;
            if login_player_id.is_some() && player_id == 0 {
                let ok = match &resp.payload {
                    Some(Payload::LoginResp(lr)) => lr.error_msg.as_str().is_empty(),
                    _ => false,
                };
                if ok {
                    mgr.set_player_id(sid, login_player_id.unwrap());
                }
            }
            resp.session_id = sid;
            out.push(resp);
        },
    }
    proof {
        lemma_session_player_binding(msg_in, player_id, answer);
        if router@.contains_key(msg_in.cmd) {
            assert(router@[msg_in.cmd].handles(ctx, pool_before, msg_in, answer, *pool));
        }
    }
    out
}

/// Ends a connection: its session, if it got one, goes offline and stays
/// for a reconnect.
pub fn close_connection(session_id: u32, mgr: &mut SessionManager)
    requires
        old(mgr).wf(),
    ensures
        final(mgr).wf(),
        final(mgr).next_id() == old(mgr).next_id(),
        final(mgr).sessions() == disconnected(old(mgr).sessions(), session_id),
{
    if session_id != 0 {
        mgr.disconnect(session_id);
    }
}

/// The client's cached record stays in step with the server: for a player
/// that is logged in and loaded before and after a message, applying what
/// `process_message` pushes (the delta, or nothing where there is none) to the
/// record the client held gives the level, skill points, balances, item
/// counts, skill levels and equipment levels the server holds afterwards, wherever the record
/// afterwards holds each key at most once in its keyed lists.
pub proof fn lemma_pushed_delta_syncs_client(
    player: u64,
    pool: Map<u64, PlayerDataView>,
    pool_after: Map<u64, PlayerDataView>,
)
    requires
        player > 0,
        pool.contains_key(player),
        pool_after.contains_key(player),
        pool[player].counts_nonnegative(),
        pool_after[player].well_formed(),
    ensures
        ({
            let before = pool[player];
            let after = pool_after[player];
            let d = player_delta(player, pool, pool_after);
            &&& level_after(before, d) == after.level()
            &&& points_after(before, d) == after.skill_points()
            &&& forall|k: int| #[trigger] money_after(before, d, k) == after.money_count(k)
            &&& forall|k: int| #[trigger] item_after(before, d, k) == after.item_count(k)
            &&& forall|k: int| #[trigger] skill_after(before, d, k) == after.skill_level(k)
            &&& forall|k: int| #[trigger] equip_after(before, d, k) == after.equip_level(k)
        }),
{
    lemma_diff_then_apply(pool[player], pool_after[player]);
}

/// A session's player changes only through a successful login on a session
/// that has no player yet, and then to the player that the login request
/// names; a session that carries a player keeps it whatever comes.
pub proof fn lemma_session_player_binding(msg: CsRpcMsg, player: u64, resp: Option<CsRpcMsg>)
    ensures
        player != 0 ==> player_after(msg, player, resp) == player,
        player_after(msg, player, resp) != player ==> {
            &&& player == 0
            &&& msg.payload matches Some(Payload::LoginReq(req))
            &&& req.player_id as u64 == player_after(msg, player, resp)
            &&& resp matches Some(r)
            &&& r.payload matches Some(Payload::LoginResp(lr))
            &&& lr.error_msg@.len() == 0
        },
{
}

/// What a connection sends for one message is the update and the reply and
/// nothing else: no message where there is neither, the update first where
/// there is one, carrying the delta and the session, and the reply last
/// where there is one, as the handler gave it but for the session.
pub proof fn lemma_outgoing_order(
    out: Seq<CsRpcMsg>,
    sid: u32,
    resp: Option<CsRpcMsg>,
    delta: Option<PlayerDataDeltaView>,
)
    requires
        outgoing(out, sid, resp, delta),
    ensures
        delta is None && resp is None ==> out.len() == 0,
        delta is Some && resp is None ==> out.len() == 1,
        delta is None && resp is Some ==> out.len() == 1,
        delta is Some && resp is Some ==> out.len() == 2,
        delta matches Some(d) ==> {
            &&& out[0].cmd == 7
            &&& out[0].seq == 0
            &&& out[0].session_id == sid
            &&& out[0].payload matches Some(Payload::PlayerDataNotify(n))
            &&& n.delta matches Some(x)
            &&& x@ == d
        },
        resp matches Some(r) ==> {
            &&& out[out.len() - 1].cmd == r.cmd
            &&& out[out.len() - 1].seq == r.seq
            &&& out[out.len() - 1].payload == r.payload
            &&& out[out.len() - 1].session_id == sid
        },
{
}

} // verus!
