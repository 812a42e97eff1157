//! Buys a piece of equipment for the logged-in player.
use crate::handler::replies;
use crate::message::{CsRpcCmd, CsRpcMsg, Payload, BuyEquipResp};
use crate::model::PlayerDataView;
use crate::player::buy_equip_outcome;
use crate::player_pool::PlayerPool;
use crate::router::{Context, MessageHandler};
use vstd::prelude::*;

verus! {

/// `resp` is a successful equipment purchase reply to `msg`.
pub open spec fn buy_equip_success(
    resp: Option<CsRpcMsg>,
    msg: CsRpcMsg,
    ctx: Context,
    id: u32,
    level: u32,
) -> bool {
    &&& resp matches Some(r)
    &&& replies(r, CsRpcCmd::BuyEquipResp, msg, ctx)
    &&& r.payload matches Some(Payload::BuyEquipResp(p))
    &&& p.result == 1
    &&& p.error_msg@ == Seq::<char>::empty()
    &&& p.equip_id == id
    &&& p.equip_level == level
}

/// `resp` is a failed equipment purchase reply to `msg` with an error message.
pub open spec fn buy_equip_failure(resp: Option<CsRpcMsg>, msg: CsRpcMsg, ctx: Context, error: Seq<char>) -> bool {
    &&& resp matches Some(r)
    &&& replies(r, CsRpcCmd::BuyEquipResp, msg, ctx)
    &&& r.payload matches Some(Payload::BuyEquipResp(p))
    &&& p.result == 0
    &&& p.error_msg@ == error
    &&& p.equip_id == 0
    &&& p.equip_level == 0
}

/// Answers `BuyEquipReq` messages: buys equipment for the logged-in player.
pub struct BuyEquipHandler;

impl MessageHandler for BuyEquipHandler {
    open spec fn handles(
        &self,
        ctx: Context,
        before: PlayerPool,
        msg: CsRpcMsg,
        resp: Option<CsRpcMsg>,
        after: PlayerPool,
    ) -> bool {
        let pool = before@;
        let pool_after = after@;
        match msg.payload {
            Some(Payload::BuyEquipReq(req)) => if ctx.player_id == 0 {
                pool_after == pool && buy_equip_failure(resp, msg, ctx, "not logged in"@)
            } else if !pool.contains_key(ctx.player_id) {
                pool_after == pool && buy_equip_failure(resp, msg, ctx, "player not found"@)
            } else {
                let (outcome, player_after) = buy_equip_outcome(pool[ctx.player_id], req.equip_id);
                &&& pool_after == pool.insert(ctx.player_id, player_after)
                &&& match outcome {
                    Ok((id, level)) => buy_equip_success(resp, msg, ctx, id, level),
                    Err(e) => buy_equip_failure(resp, msg, ctx, e),
                }
            },
            _ => resp is None && pool_after == pool,
        }
    }

    fn handle(&self, ctx: &Context, pool: &mut PlayerPool, msg: CsRpcMsg) -> (resp: Option<CsRpcMsg>) {
        let target = match &msg.payload {
            Some(Payload::BuyEquipReq(r)) => r.equip_id,
            _ => return None,
        };
        if ctx.player_id == 0 {
            return Some(Self::err_resp(&msg, ctx, "not logged in"));
        }
        let player = match pool.get_mut(ctx.player_id) {
            Some(p) => p,
            None => return Some(Self::err_resp(&msg, ctx, "player not found")),
        };
        match player.buy_equip(target) {
            Ok((equip_id, equip_level)) => {
                Some(
                    CsRpcMsg {
                        cmd: CsRpcCmd::BuyEquipResp.value(),
                        seq: msg.seq,
                        session_id: ctx.session_id,
                        payload: Some(
                            Payload::BuyEquipResp(
                                BuyEquipResp {
                                    result: 1,
                                    error_msg: String::new(),
                                    equip_id,
                                    equip_level,
                                },
                            ),
                        ),
                    },
                )
            },
            Err(e) => Some(Self::err_resp(&msg, ctx, e)),
        }
    }
}

impl BuyEquipHandler {
    /// A failed reply to `msg` carrying `err`.
    fn err_resp(msg: &CsRpcMsg, ctx: &Context, err: &str) -> (r: CsRpcMsg)
        ensures
            buy_equip_failure(Some(r), *msg, *ctx, err@),
    {
        CsRpcMsg {
            cmd: CsRpcCmd::BuyEquipResp.value(),
            seq: msg.seq,
            session_id: ctx.session_id,
            payload: Some(
                Payload::BuyEquipResp(
                    BuyEquipResp {
                        result: 0,
                        error_msg: String::from_str(err),
                        equip_id: 0,
                        equip_level: 0,
                    },
                ),
            ),
        }
    }
}

} // verus!
