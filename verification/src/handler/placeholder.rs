//! Echoes a placeholder message back with an "echo: " prefix.
use crate::handler::replies;
use crate::message::{CsRpcCmd, CsRpcMsg, Payload, PlaceholderResp};
use crate::model::PlayerDataView;
use crate::player_pool::PlayerPool;
use crate::router::{Context, MessageHandler};
use crate::text::{echo, echo_text};
use vstd::prelude::*;

verus! {

/// Echoes `PlaceholderReq` messages.
pub struct PlaceholderHandler;

impl MessageHandler for PlaceholderHandler {
    open spec fn handles(
        &self,
        ctx: Context,
        before: PlayerPool,
        msg: CsRpcMsg,
        resp: Option<CsRpcMsg>,
        after: PlayerPool,
    ) -> bool {
        let pool = before@;
        let pool_after = after@;
        &&& pool_after == pool
        &&& match msg.payload {
            Some(Payload::PlaceholderReq(req)) => {
                &&& resp matches Some(r)
                &&& replies(r, CsRpcCmd::Placeholder, msg, ctx)
                &&& r.payload matches Some(Payload::PlaceholderResp(p))
                &&& p.msg@ == echo_text(req.msg@)
            },
            _ => resp is None,
        }
    }

    fn handle(&self, ctx: &Context, pool: &mut PlayerPool, msg: CsRpcMsg) -> (resp: Option<CsRpcMsg>) {
        let req_msg = match &msg.payload {
            Some(Payload::PlaceholderReq(req)) => &req.msg,
            _ => return None,
        };
        Some(
            CsRpcMsg {
                cmd: CsRpcCmd::Placeholder.value(),
                seq: msg.seq,
                session_id: ctx.session_id,
                payload: Some(Payload::PlaceholderResp(PlaceholderResp { msg: echo(req_msg.as_str()) })),
            },
        )
    }
}

} // verus!
