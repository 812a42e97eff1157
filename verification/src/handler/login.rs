//! Login: looks a player up and answers with its record.
use crate::handler::replies;
use crate::message::{CsRpcCmd, CsRpcMsg, LoginResp, Payload};
use crate::model::PlayerDataView;
use crate::player_pool::PlayerPool;
use crate::router::{Context, MessageHandler};
use crate::text::{player_not_found, player_not_found_text};
use vstd::prelude::*;

verus! {

/// Answers `LoginReq` messages with the player's record, or with an error
/// where the player is not loaded.
pub struct LoginHandler;

impl MessageHandler for LoginHandler {
    open spec fn handles(
        &self,
        ctx: Context,
        before: PlayerPool,
        msg: CsRpcMsg,
        resp: Option<CsRpcMsg>,
        after: PlayerPool,
    ) -> bool {
        let pool = before@;
        let pool_after = after@;
        &&& pool_after == pool
        &&& match msg.payload {
            Some(Payload::LoginReq(req)) => {
                &&& resp matches Some(r)
                &&& replies(r, CsRpcCmd::LoginResp, msg, ctx)
                &&& r.payload matches Some(Payload::LoginResp(p))
                &&& if pool.contains_key(req.player_id as u64) {
                    &&& p.player_data matches Some(d)
                    &&& d@ == pool[req.player_id as u64]
                    &&& p.error_msg@ == Seq::<char>::empty()
                } else {
                    &&& p.player_data is None
                    &&& p.error_msg@ == player_not_found_text(req.player_id)
                }
            },
            _ => resp is None,
        }
    }

    fn handle(&self, ctx: &Context, pool: &mut PlayerPool, msg: CsRpcMsg) -> (resp: Option<CsRpcMsg>) {
        let player_id = match &msg.payload {
            Some(Payload::LoginReq(req)) => req.player_id,
            _ => return None,
        };
        let (player_data, error_msg) = match pool.get(player_id as u64) {
            Some(player) => (Some(player.data().snapshot()), String::new()),
            None => (None, player_not_found(player_id)),
        };
        Some(
            CsRpcMsg {
                cmd: CsRpcCmd::LoginResp.value(),
                seq: msg.seq,
                session_id: ctx.session_id,
                payload: Some(Payload::LoginResp(LoginResp { player_data, error_msg })),
            },
        )
    }
}

} // verus!
