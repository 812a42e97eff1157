//! Upgrades a piece of equipment of the logged-in player.
use crate::handler::replies;
use crate::message::{CsRpcCmd, CsRpcMsg, Payload, UpgradeEquipResp};
use crate::model::PlayerDataView;
use crate::player::upgrade_equip_outcome;
use crate::player_pool::PlayerPool;
use crate::router::{Context, MessageHandler};
use vstd::prelude::*;

verus! {

/// `resp` is a successful equipment upgrade reply to `msg`.
pub open spec fn upgrade_equip_success(
    resp: Option<CsRpcMsg>,
    msg: CsRpcMsg,
    ctx: Context,
    id: u32,
    level: u32,
) -> bool {
    &&& resp matches Some(r)
    &&& replies(r, CsRpcCmd::UpgradeEquipResp, msg, ctx)
    &&& r.payload matches Some(Payload::UpgradeEquipResp(p))
    &&& p.result == 1
    &&& p.error_msg@ == Seq::<char>::empty()
    &&& p.equip_id == id
    &&& p.equip_level == level
}

/// `resp` is a failed equipment upgrade reply to `msg` with an error message.
pub open spec fn upgrade_equip_failure(resp: Option<CsRpcMsg>, msg: CsRpcMsg, ctx: Context, error: Seq<char>) -> bool {
    &&& resp matches Some(r)
    &&& replies(r, CsRpcCmd::UpgradeEquipResp, msg, ctx)
    &&& r.payload matches Some(Payload::UpgradeEquipResp(p))
    &&& p.result == 0
    &&& p.error_msg@ == error
    &&& p.equip_id == 0
    &&& p.equip_level == 0
}

/// Answers `UpgradeEquipReq` messages: upgrades the equipment of the logged-in player.
pub struct UpgradeEquipHandler;

impl MessageHandler for UpgradeEquipHandler {
    open spec fn handles(
        &self,
        ctx: Context,
        before: PlayerPool,
        msg: CsRpcMsg,
        resp: Option<CsRpcMsg>,
        after: PlayerPool,
    ) -> bool {
        let pool = before@;
        let pool_after = after@;
        match msg.payload {
            Some(Payload::UpgradeEquipReq(req)) => if ctx.player_id == 0 {
                pool_after == pool && upgrade_equip_failure(resp, msg, ctx, "not logged in"@)
            } else if !pool.contains_key(ctx.player_id) {
                pool_after == pool && upgrade_equip_failure(resp, msg, ctx, "player not found"@)
            } else {
                let (outcome, player_after) = upgrade_equip_outcome(pool[ctx.player_id], req.equip_id);
                &&& pool_after == pool.insert(ctx.player_id, player_after)
                &&& match outcome {
                    Ok((id, level)) => upgrade_equip_success(resp, msg, ctx, id, level),
                    Err(e) => upgrade_equip_failure(resp, msg, ctx, e),
                }
            },
            _ => resp is None && pool_after == pool,
        }
    }

    fn handle(&self, ctx: &Context, pool: &mut PlayerPool, msg: CsRpcMsg) -> (resp: Option<CsRpcMsg>) {
        let target = match &msg.payload {
            Some(Payload::UpgradeEquipReq(r)) => r.equip_id,
            _ => return None,
        };
        if ctx.player_id == 0 {
            return Some(Self::err_resp(&msg, ctx, "not logged in"));
        }
        let player = match pool.get_mut(ctx.player_id) {
            Some(p) => p,
            None => return Some(Self::err_resp(&msg, ctx, "player not found")),
        };
        match player.upgrade_equip(target) {
            Ok((equip_id, equip_level)) => {
                Some(
                    CsRpcMsg {
                        cmd: CsRpcCmd::UpgradeEquipResp.value(),
                        seq: msg.seq,
                        session_id: ctx.session_id,
                        payload: Some(
                            Payload::UpgradeEquipResp(
                                UpgradeEquipResp {
                                    result: 1,
                                    error_msg: String::new(),
                                    equip_id,
                                    equip_level,
                                },
                            ),
                        ),
                    },
                )
            },
            Err(e) => Some(Self::err_resp(&msg, ctx, e)),
        }
    }
}

impl UpgradeEquipHandler {
    /// A failed reply to `msg` carrying `err`.
    fn err_resp(msg: &CsRpcMsg, ctx: &Context, err: &str) -> (r: CsRpcMsg)
        ensures
            upgrade_equip_failure(Some(r), *msg, *ctx, err@),
    {
        CsRpcMsg {
            cmd: CsRpcCmd::UpgradeEquipResp.value(),
            seq: msg.seq,
            session_id: ctx.session_id,
            payload: Some(
                Payload::UpgradeEquipResp(
                    UpgradeEquipResp {
                        result: 0,
                        error_msg: String::from_str(err),
                        equip_id: 0,
                        equip_level: 0,
                    },
                ),
            ),
        }
    }
}

} // verus!
