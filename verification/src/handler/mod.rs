//! The request handlers, and the handler set the server routes to.
pub mod add_money;
pub mod buy_equip;
pub mod heartbeat;
pub mod login;
pub mod placeholder;
pub mod skill_unlock;
pub mod skill_upgrade;
pub mod upgrade_equip;

use crate::handler::add_money::AddMoneyHandler;
use crate::handler::buy_equip::BuyEquipHandler;
use crate::handler::heartbeat::HeartbeatHandler;
use crate::handler::login::LoginHandler;
use crate::handler::placeholder::PlaceholderHandler;
use crate::handler::skill_unlock::SkillUnlockHandler;
use crate::handler::skill_upgrade::SkillUpgradeHandler;
use crate::handler::upgrade_equip::UpgradeEquipHandler;
use crate::keyed::has_key;
use crate::message::{
    cmd_number, AddMoneyReq, BuyEquipReq, CsRpcCmd, CsRpcMsg, Payload, SkillUnlockReq, SkillUpgradeReq,
    UpgradeEquipReq,
};
use crate::player::{
    keeps_other_keys, lemma_buy_equip_law, lemma_set_key, lemma_unlock_skill_law, lemma_upgrade_equip_law,
    lemma_upgrade_skill_law, one_level_up, saturated,
};
use crate::player_pool::PlayerPool;
use crate::router::{Context, MessageHandler};
use vstd::prelude::*;

verus! {

/// `resp` answers `msg` in `ctx` with command `cmd`: it carries the request's
/// sequence number and the context's session.
pub open spec fn replies(resp: CsRpcMsg, cmd: CsRpcCmd, msg: CsRpcMsg, ctx: Context) -> bool {
    &&& resp.cmd == cmd_number(cmd)
    &&& resp.seq == msg.seq
    &&& resp.session_id == ctx.session_id
}

/// Any of the server's handlers, so that one router can hold them all.
pub enum GameHandler {
    Placeholder(PlaceholderHandler),
    Heartbeat(HeartbeatHandler),
    Login(LoginHandler),
    AddMoney(AddMoneyHandler),
    SkillUnlock(SkillUnlockHandler),
    SkillUpgrade(SkillUpgradeHandler),
    BuyEquip(BuyEquipHandler),
    UpgradeEquip(UpgradeEquipHandler),
}

impl MessageHandler for GameHandler {
    open spec fn handles(
        &self,
        ctx: Context,
        before: PlayerPool,
        msg: CsRpcMsg,
        resp: Option<CsRpcMsg>,
        after: PlayerPool,
    ) -> bool {
        match self {
            GameHandler::Placeholder(h) => h.handles(ctx, before, msg, resp, after),
            GameHandler::Heartbeat(h) => h.handles(ctx, before, msg, resp, after),
            GameHandler::Login(h) => h.handles(ctx, before, msg, resp, after),
            GameHandler::AddMoney(h) => h.handles(ctx, before, msg, resp, after),
            GameHandler::SkillUnlock(h) => h.handles(ctx, before, msg, resp, after),
            GameHandler::SkillUpgrade(h) => h.handles(ctx, before, msg, resp, after),
            GameHandler::BuyEquip(h) => h.handles(ctx, before, msg, resp, after),
            GameHandler::UpgradeEquip(h) => h.handles(ctx, before, msg, resp, after),
        }
    }

    fn handle(&self, ctx: &Context, pool: &mut PlayerPool, msg: CsRpcMsg) -> (resp: Option<CsRpcMsg>) {
        match self {
            GameHandler::Placeholder(h) => h.handle(ctx, pool, msg),
            GameHandler::Heartbeat(h) => h.handle(ctx, pool, msg),
            GameHandler::Login(h) => h.handle(ctx, pool, msg),
            GameHandler::AddMoney(h) => h.handle(ctx, pool, msg),
            GameHandler::SkillUnlock(h) => h.handle(ctx, pool, msg),
            GameHandler::SkillUpgrade(h) => h.handle(ctx, pool, msg),
            GameHandler::BuyEquip(h) => h.handle(ctx, pool, msg),
            GameHandler::UpgradeEquip(h) => h.handle(ctx, pool, msg),
        }
    }
}

/// Every handler changes no record but the logged-in player's, and none at
/// all where no player is logged in, and loads or drops no player; every reply
/// it gives carries the request's sequence number and the connection's
/// session.
pub proof fn lemma_handlers_touch_only_the_player(
    h: GameHandler,
    ctx: Context,
    before: PlayerPool,
    msg: CsRpcMsg,
    resp: Option<CsRpcMsg>,
    after: PlayerPool,
)
    requires
        h.handles(ctx, before, msg, resp, after),
    ensures
        after@.dom() == before@.dom(),
        forall|id: u64| id != ctx.player_id && #[trigger] before@.contains_key(id) ==> after@[id] == before@[id],
        ctx.player_id == 0 ==> after@ == before@,
        resp matches Some(r) ==> r.seq == msg.seq && r.session_id == ctx.session_id,
{
    if before@.contains_key(ctx.player_id) {
        assert(before@.insert(ctx.player_id, before@[ctx.player_id]).dom() =~= before@.dom());
    }
}

/// A money request of a logged-in, loaded player with gold (1) or diamonds
/// (2) adds the amount to that balance, capped at the largest `u32`, and to
/// nothing else of the record, and the reply reports the new balance with no
/// error.
pub proof fn lemma_add_money_credits(
    ctx: Context,
    before: PlayerPool,
    msg: CsRpcMsg,
    req: AddMoneyReq,
    resp: Option<CsRpcMsg>,
    after: PlayerPool,
)
    requires
        AddMoneyHandler.handles(ctx, before, msg, resp, after),
        msg.payload == Some(Payload::AddMoneyReq(req)),
        req.money_type == 1 || req.money_type == 2,
        ctx.player_id != 0,
        before@.contains_key(ctx.player_id),
        before@[ctx.player_id].counts_nonnegative(),
    ensures
        ({
            let o = before@[ctx.player_id];
            let p = after@[ctx.player_id];
            let t = req.money_type as int;
            &&& after@.contains_key(ctx.player_id)
            &&& o.money_count(t) + req.amount <= u32::MAX ==> p.money_count(t) == o.money_count(t) + req.amount
            &&& o.money_count(t) + req.amount > u32::MAX ==> p.money_count(t) == u32::MAX
            &&& has_key(p.money(), t)
            &&& keeps_other_keys(o.money(), p.money(), t)
            &&& p.items() == o.items()
            &&& p.player_skill == o.player_skill
            &&& p.player_equip == o.player_equip
            &&& p.player_base == o.player_base
            &&& resp matches Some(r)
            &&& r.payload matches Some(Payload::AddMoneyResp(a))
            &&& a.money_count == p.money_count(t)
            &&& a.error_msg@.len() == 0
        }),
{
    let o = before@[ctx.player_id];
    let t = req.money_type as int;
    crate::keyed::lemma_lookup_nonnegative(o.money(), t);
    lemma_set_key(o.money(), t, saturated(o.money_count(t) + req.amount) as int);
}

/// A skill unlock request of a logged-in, loaded player reports success
/// exactly where the skill was not unlocked and a point was left; a success
/// reply names the skill, its level 1 and the points left, as the record
/// afterwards holds them, and a failure leaves the skills and points alone.
pub proof fn lemma_skill_unlock_replies(
    ctx: Context,
    before: PlayerPool,
    msg: CsRpcMsg,
    req: SkillUnlockReq,
    resp: Option<CsRpcMsg>,
    after: PlayerPool,
)
    requires
        SkillUnlockHandler.handles(ctx, before, msg, resp, after),
        msg.payload == Some(Payload::SkillUnlockReq(req)),
        ctx.player_id != 0,
        before@.contains_key(ctx.player_id),
    ensures
        ({
            let o = before@[ctx.player_id];
            let p = after@[ctx.player_id];
            let k = req.skill_id as int;
            &&& resp matches Some(r)
            &&& r.payload matches Some(Payload::SkillUnlockResp(a))
            &&& (a.result == 1) == (!has_key(o.skills(), k) && o.skill_points() >= 1)
            &&& a.result == 1 ==> {
                &&& a.skill_id == req.skill_id
                &&& a.skill_level == 1
                &&& p.skill_level(k) == 1
                &&& a.remaining_skill_points == p.skill_points()
                &&& p.skill_points() == o.skill_points() - 1
                &&& keeps_other_keys(o.skills(), p.skills(), k)
            }
            &&& a.result != 1 ==> a.error_msg@.len() > 0 && p.skills() == o.skills() && p.skill_points()
                == o.skill_points()
        }),
{
    lemma_unlock_skill_law(before@[ctx.player_id], req.skill_id);
    reveal_strlit("skill already unlocked");
    reveal_strlit("insufficient skill points");
}

/// A skill upgrade request of a logged-in, loaded player reports success
/// exactly where the skill was unlocked and a point was left; a success reply
/// names the skill and its level one above the old one, as the record
/// afterwards holds it, and a failure leaves the skills and points alone.
pub proof fn lemma_skill_upgrade_replies(
    ctx: Context,
    before: PlayerPool,
    msg: CsRpcMsg,
    req: SkillUpgradeReq,
    resp: Option<CsRpcMsg>,
    after: PlayerPool,
)
    requires
        SkillUpgradeHandler.handles(ctx, before, msg, resp, after),
        msg.payload == Some(Payload::SkillUpgradeReq(req)),
        ctx.player_id != 0,
        before@.contains_key(ctx.player_id),
        before@[ctx.player_id].counts_nonnegative(),
    ensures
        ({
            let o = before@[ctx.player_id];
            let p = after@[ctx.player_id];
            let k = req.skill_id as int;
            &&& resp matches Some(r)
            &&& r.payload matches Some(Payload::SkillUpgradeResp(a))
            &&& (a.result == 1) == (has_key(o.skills(), k) && o.skill_points() >= 1)
            &&& a.result == 1 ==> {
                &&& a.skill_id == req.skill_id
                &&& one_level_up(o.skill_level(k), a.skill_level)
                &&& p.skill_level(k) == a.skill_level
                &&& a.remaining_skill_points == p.skill_points()
                &&& p.skill_points() == o.skill_points() - 1
                &&& keeps_other_keys(o.skills(), p.skills(), k)
            }
            &&& a.result != 1 ==> a.error_msg@.len() > 0 && p.skills() == o.skills() && p.skill_points()
                == o.skill_points()
        }),
{
    lemma_upgrade_skill_law(before@[ctx.player_id], req.skill_id);
    reveal_strlit("skill not unlocked");
    reveal_strlit("insufficient skill points");
}

/// An equipment purchase request of a logged-in, loaded player reports
/// success exactly where the piece was not owned and 500 gold was at hand; a
/// success reply names the piece at level 1, as the record afterwards holds
/// it, and a failure leaves the equipment and the money alone.
pub proof fn lemma_buy_equip_replies(
    ctx: Context,
    before: PlayerPool,
    msg: CsRpcMsg,
    req: BuyEquipReq,
    resp: Option<CsRpcMsg>,
    after: PlayerPool,
)
    requires
        BuyEquipHandler.handles(ctx, before, msg, resp, after),
        msg.payload == Some(Payload::BuyEquipReq(req)),
        ctx.player_id != 0,
        before@.contains_key(ctx.player_id),
    ensures
        ({
            let o = before@[ctx.player_id];
            let p = after@[ctx.player_id];
            let k = req.equip_id as int;
            &&& resp matches Some(r)
            &&& r.payload matches Some(Payload::BuyEquipResp(a))
            &&& (a.result == 1) == (!has_key(o.equips(), k) && has_key(o.money(), 1) && o.money_count(1) >= 500)
            &&& a.result == 1 ==> {
                &&& a.equip_id == req.equip_id
                &&& a.equip_level == 1
                &&& p.equip_level(k) == 1
                &&& p.money_count(1) == o.money_count(1) - 500
                &&& keeps_other_keys(o.equips(), p.equips(), k)
            }
            &&& a.result != 1 ==> a.error_msg@.len() > 0 && p.equips() == o.equips() && p.money() == o.money()
        }),
{
    lemma_buy_equip_law(before@[ctx.player_id], req.equip_id);
    reveal_strlit("equip already owned");
    reveal_strlit("money type not found");
    reveal_strlit("insufficient money");
}

/// An equipment upgrade request of a logged-in, loaded player reports
/// success exactly where the piece was owned and 100 gold was at hand; a
/// success reply names the piece and its level one above the old one, as the
/// record afterwards holds it, and a failure leaves the equipment and the
/// money alone.
pub proof fn lemma_upgrade_equip_replies(
    ctx: Context,
    before: PlayerPool,
    msg: CsRpcMsg,
    req: UpgradeEquipReq,
    resp: Option<CsRpcMsg>,
    after: PlayerPool,
)
    requires
        UpgradeEquipHandler.handles(ctx, before, msg, resp, after),
        msg.payload == Some(Payload::UpgradeEquipReq(req)),
        ctx.player_id != 0,
        before@.contains_key(ctx.player_id),
        before@[ctx.player_id].counts_nonnegative(),
    ensures
        ({
            let o = before@[ctx.player_id];
            let p = after@[ctx.player_id];
            let k = req.equip_id as int;
            &&& resp matches Some(r)
            &&& r.payload matches Some(Payload::UpgradeEquipResp(a))
            &&& (a.result == 1) == (has_key(o.equips(), k) && has_key(o.money(), 1) && o.money_count(1) >= 100)
            &&& a.result == 1 ==> {
                &&& a.equip_id == req.equip_id
                &&& one_level_up(o.equip_level(k), a.equip_level)
                &&& p.equip_level(k) == a.equip_level
                &&& p.money_count(1) == o.money_count(1) - 100
                &&& keeps_other_keys(o.equips(), p.equips(), k)
            }
            &&& a.result != 1 ==> a.error_msg@.len() > 0 && p.equips() == o.equips() && p.money() == o.money()
        }),
{
    lemma_upgrade_equip_law(before@[ctx.player_id], req.equip_id);
    reveal_strlit("equip not owned");
    reveal_strlit("money type not found");
    reveal_strlit("insufficient money");
}

} // verus!
