//! Upgrades a skill of the logged-in player.
use crate::handler::replies;
use crate::message::{CsRpcCmd, CsRpcMsg, Payload, SkillUpgradeResp};
use crate::model::PlayerDataView;
use crate::player::upgrade_skill_outcome;
use crate::player_pool::PlayerPool;
use crate::router::{Context, MessageHandler};
use vstd::prelude::*;

verus! {

/// `resp` is a successful skill upgrade reply to `msg`.
pub open spec fn skill_upgrade_success(
    resp: Option<CsRpcMsg>,
    msg: CsRpcMsg,
    ctx: Context,
    id: u32,
    level: u32,
    remaining: u32,
) -> bool {
    &&& resp matches Some(r)
    &&& replies(r, CsRpcCmd::SkillUpgradeResp, msg, ctx)
    &&& r.payload matches Some(Payload::SkillUpgradeResp(p))
    &&& p.result == 1
    &&& p.error_msg@ == Seq::<char>::empty()
    &&& p.skill_id == id
    &&& p.skill_level == level
    &&& p.remaining_skill_points == remaining
}

/// `resp` is a failed skill upgrade reply to `msg` with an error message.
pub open spec fn skill_upgrade_failure(resp: Option<CsRpcMsg>, msg: CsRpcMsg, ctx: Context, error: Seq<char>) -> bool {
    &&& resp matches Some(r)
    &&& replies(r, CsRpcCmd::SkillUpgradeResp, msg, ctx)
    &&& r.payload matches Some(Payload::SkillUpgradeResp(p))
    &&& p.result == 0
    &&& p.error_msg@ == error
    &&& p.skill_id == 0
    &&& p.skill_level == 0
    &&& p.remaining_skill_points == 0
}

/// Answers `SkillUpgradeReq` messages: upgrades the skill of the logged-in player.
pub struct SkillUpgradeHandler;

impl MessageHandler for SkillUpgradeHandler {
    open spec fn handles(
        &self,
        ctx: Context,
        before: PlayerPool,
        msg: CsRpcMsg,
        resp: Option<CsRpcMsg>,
        after: PlayerPool,
    ) -> bool {
        let pool = before@;
        let pool_after = after@;
        match msg.payload {
            Some(Payload::SkillUpgradeReq(req)) => if ctx.player_id == 0 {
                pool_after == pool && skill_upgrade_failure(resp, msg, ctx, "not logged in"@)
            } else if !pool.contains_key(ctx.player_id) {
                pool_after == pool && skill_upgrade_failure(resp, msg, ctx, "player not found"@)
            } else {
                let (outcome, player_after) = upgrade_skill_outcome(pool[ctx.player_id], req.skill_id);
                &&& pool_after == pool.insert(ctx.player_id, player_after)
                &&& match outcome {
                    Ok((id, level)) => skill_upgrade_success(resp, msg, ctx, id, level, player_after.skill_points()),
                    Err(e) => skill_upgrade_failure(resp, msg, ctx, e),
                }
            },
            _ => resp is None && pool_after == pool,
        }
    }

    fn handle(&self, ctx: &Context, pool: &mut PlayerPool, msg: CsRpcMsg) -> (resp: Option<CsRpcMsg>) {
        let target = match &msg.payload {
            Some(Payload::SkillUpgradeReq(r)) => r.skill_id,
            _ => return None,
        };
        if ctx.player_id == 0 {
            return Some(Self::err_resp(&msg, ctx, "not logged in"));
        }
        let player = match pool.get_mut(ctx.player_id) {
            Some(p) => p,
            None => return Some(Self::err_resp(&msg, ctx, "player not found")),
        };
        match player.upgrade_skill(target) {
            Ok((skill_id, skill_level)) => {
                let remaining = player.skill_points();
                Some(
                    CsRpcMsg {
                        cmd: CsRpcCmd::SkillUpgradeResp.value(),
                        seq: msg.seq,
                        session_id: ctx.session_id,
                        payload: Some(
                            Payload::SkillUpgradeResp(
                                SkillUpgradeResp {
                                    result: 1,
                                    error_msg: String::new(),
                                    skill_id,
                                    skill_level,
                                    remaining_skill_points: remaining,
                                },
                            ),
                        ),
                    },
                )
            },
            Err(e) => Some(Self::err_resp(&msg, ctx, e)),
        }
    }
}

impl SkillUpgradeHandler {
    /// A failed reply to `msg` carrying `err`.
    fn err_resp(msg: &CsRpcMsg, ctx: &Context, err: &str) -> (r: CsRpcMsg)
        ensures
            skill_upgrade_failure(Some(r), *msg, *ctx, err@),
    {
        CsRpcMsg {
            cmd: CsRpcCmd::SkillUpgradeResp.value(),
            seq: msg.seq,
            session_id: ctx.session_id,
            payload: Some(
                Payload::SkillUpgradeResp(
                    SkillUpgradeResp {
                        result: 0,
                        error_msg: String::from_str(err),
                        skill_id: 0,
                        skill_level: 0,
                        remaining_skill_points: 0,
                    },
                ),
            ),
        }
    }
}

} // verus!
