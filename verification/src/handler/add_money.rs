//! Adds gold or diamonds to the logged-in player.
use crate::handler::replies;
use crate::keyed::upsert;
use crate::message::{AddMoneyResp, CsRpcCmd, CsRpcMsg, Payload};
use crate::model::{PlayerBagMoneyType, PlayerDataView};
use crate::player::{saturated, with_money};
use crate::player_pool::PlayerPool;
use crate::router::{Context, MessageHandler};
use vstd::prelude::*;

verus! {

/// `resp` is a money reply to `msg` with a balance and an error message.
pub open spec fn add_money_reply(
    resp: Option<CsRpcMsg>,
    msg: CsRpcMsg,
    ctx: Context,
    count: u32,
    error: Seq<char>,
) -> bool {
    &&& resp matches Some(r)
    &&& replies(r, CsRpcCmd::AddMoneyResp, msg, ctx)
    &&& r.payload matches Some(Payload::AddMoneyResp(p))
    &&& p.money_count == count
    &&& p.error_msg@ == error
}

/// Answers `AddMoneyReq` messages: adds the amount to the logged-in player's
/// gold or diamonds and replies with the new balance.
pub struct AddMoneyHandler;

impl MessageHandler for AddMoneyHandler {
    open spec fn handles(
        &self,
        ctx: Context,
        before: PlayerPool,
        msg: CsRpcMsg,
        resp: Option<CsRpcMsg>,
        after: PlayerPool,
    ) -> bool {
        let pool = before@;
        let pool_after = after@;
        if ctx.player_id == 0 {
            pool_after == pool && add_money_reply(resp, msg, ctx, 0, "not logged in"@)
        } else {
            match msg.payload {
                Some(Payload::AddMoneyReq(req)) => if req.money_type != 1 && req.money_type != 2 {
                    pool_after == pool && add_money_reply(resp, msg, ctx, 0, "invalid money type"@)
                } else if !pool.contains_key(ctx.player_id) {
                    pool_after == pool && add_money_reply(resp, msg, ctx, 0, "player not found"@)
                } else {
                    let o = pool[ctx.player_id];
                    let n = saturated(o.money_count(req.money_type as int) + req.amount);
                    &&& pool_after == pool.insert(
                        ctx.player_id,
                        with_money(o, upsert(o.money(), req.money_type as int, n as int)),
                    )
                    &&& add_money_reply(resp, msg, ctx, n, Seq::empty())
                },
                _ => resp is None && pool_after == pool,
            }
        }
    }

    fn handle(&self, ctx: &Context, pool: &mut PlayerPool, msg: CsRpcMsg) -> (resp: Option<CsRpcMsg>) {
        if ctx.player_id == 0 {
            return Some(
                CsRpcMsg {
                    cmd: CsRpcCmd::AddMoneyResp.value(),
                    seq: msg.seq,
                    session_id: ctx.session_id,
                    payload: Some(
                        Payload::AddMoneyResp(
                            AddMoneyResp { money_count: 0, error_msg: String::from_str("not logged in") },
                        ),
                    ),
                },
            );
        }
        let (money_type, amount) = match &msg.payload {
            Some(Payload::AddMoneyReq(req)) => (req.money_type, req.amount),
            _ => return None,
        };
        let money_type_enum = PlayerBagMoneyType::from_number(money_type);
        if money_type_enum == PlayerBagMoneyType::Unspecified {
            return Some(
                CsRpcMsg {
                    cmd: CsRpcCmd::AddMoneyResp.value(),
                    seq: msg.seq,
                    session_id: ctx.session_id,
                    payload: Some(
                        Payload::AddMoneyResp(
                            AddMoneyResp {
                                money_count: 0,
                                error_msg: String::from_str("invalid money type"),
                            },
                        ),
                    ),
                },
            );
        }
        let new_count = match pool.get_mut(ctx.player_id) {
            Some(player) => player.add_money(money_type_enum, amount),
            None => {
                return Some(
                    CsRpcMsg {
                        cmd: CsRpcCmd::AddMoneyResp.value(),
                        seq: msg.seq,
                        session_id: ctx.session_id,
                        payload: Some(
                            Payload::AddMoneyResp(
                                AddMoneyResp {
                                    money_count: 0,
                                    error_msg: String::from_str("player not found"),
                                },
                            ),
                        ),
                    },
                );
            },
        };
        Some(
            CsRpcMsg {
                cmd: CsRpcCmd::AddMoneyResp.value(),
                seq: msg.seq,
                session_id: ctx.session_id,
                payload: Some(
                    Payload::AddMoneyResp(AddMoneyResp { money_count: new_count, error_msg: String::new() }),
                ),
            },
        )
    }
}

} // verus!
