//! Answers a heartbeat with the timestamp it carried.
use crate::handler::replies;
use crate::message::{CsRpcCmd, CsRpcMsg, HeartbeatResp, Payload};
use crate::model::PlayerDataView;
use crate::player_pool::PlayerPool;
use crate::router::{Context, MessageHandler};
use vstd::prelude::*;

verus! {

/// The timestamp a heartbeat carries, 0 for any other payload.
pub open spec fn heartbeat_timestamp(msg: CsRpcMsg) -> u64 {
    match msg.payload {
        Some(Payload::HeartbeatReq(req)) => req.timestamp,
        _ => 0,
    }
}

/// Answers every message with a heartbeat reply.
pub struct HeartbeatHandler;

impl MessageHandler for HeartbeatHandler {
    open spec fn handles(
        &self,
        ctx: Context,
        before: PlayerPool,
        msg: CsRpcMsg,
        resp: Option<CsRpcMsg>,
        after: PlayerPool,
    ) -> bool {
        let pool = before@;
        let pool_after = after@;
        &&& pool_after == pool
        &&& resp matches Some(r)
        &&& replies(r, CsRpcCmd::Heartbeat, msg, ctx)
        &&& r.payload matches Some(Payload::HeartbeatResp(p))
        &&& p.timestamp == heartbeat_timestamp(msg)
    }

    fn handle(&self, ctx: &Context, pool: &mut PlayerPool, msg: CsRpcMsg) -> (resp: Option<CsRpcMsg>) {
        let timestamp = match &msg.payload {
            Some(Payload::HeartbeatReq(req)) => req.timestamp,
            _ => 0,
        };
        Some(
            CsRpcMsg {
                cmd: CsRpcCmd::Heartbeat.value(),
                seq: msg.seq,
                session_id: ctx.session_id,
                payload: Some(Payload::HeartbeatResp(HeartbeatResp { timestamp })),
            },
        )
    }
}

} // verus!
