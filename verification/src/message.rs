//! Client/server messages: one envelope, a command number, and a payload.
use crate::delta::PlayerDataDelta;
use crate::model::PlayerData;
use vstd::prelude::*;

verus! {

/// Command numbers; `value` gives the wire number, which is also the
/// variant's position in this list.
#[derive(Debug, Clone, Copy, PartialEq, Eq, Structural)]
pub enum CsRpcCmd {
    Unspecified,
    Placeholder,
    Heartbeat,
    LoginReq,
    LoginResp,
    AddMoneyReq,
    AddMoneyResp,
    PlayerDataNotify,
    SkillUnlockReq,
    SkillUnlockResp,
    SkillUpgradeReq,
    SkillUpgradeResp,
    BuyEquipReq,
    BuyEquipResp,
    UpgradeEquipReq,
    UpgradeEquipResp,
}

/// Wire numbers of the commands.
pub open spec fn cmd_number(c: CsRpcCmd) -> i32 {
    match c {
        CsRpcCmd::Unspecified => 0,
        CsRpcCmd::Placeholder => 1,
        CsRpcCmd::Heartbeat => 2,
        CsRpcCmd::LoginReq => 3,
        CsRpcCmd::LoginResp => 4,
        CsRpcCmd::AddMoneyReq => 5,
        CsRpcCmd::AddMoneyResp => 6,
        CsRpcCmd::PlayerDataNotify => 7,
        CsRpcCmd::SkillUnlockReq => 8,
        CsRpcCmd::SkillUnlockResp => 9,
        CsRpcCmd::SkillUpgradeReq => 10,
        CsRpcCmd::SkillUpgradeResp => 11,
        CsRpcCmd::BuyEquipReq => 12,
        CsRpcCmd::BuyEquipResp => 13,
        CsRpcCmd::UpgradeEquipReq => 14,
        CsRpcCmd::UpgradeEquipResp => 15,
    }
}

impl CsRpcCmd {
    /// The wire number of this command.
    pub fn value(self) -> (v: i32)
        ensures
            v == cmd_number(self),
    {
        match self {
            CsRpcCmd::Unspecified => 0,
            CsRpcCmd::Placeholder => 1,
            CsRpcCmd::Heartbeat => 2,
            CsRpcCmd::LoginReq => 3,
            CsRpcCmd::LoginResp => 4,
            CsRpcCmd::AddMoneyReq => 5,
            CsRpcCmd::AddMoneyResp => 6,
            CsRpcCmd::PlayerDataNotify => 7,
            CsRpcCmd::SkillUnlockReq => 8,
            CsRpcCmd::SkillUnlockResp => 9,
            CsRpcCmd::SkillUpgradeReq => 10,
            CsRpcCmd::SkillUpgradeResp => 11,
            CsRpcCmd::BuyEquipReq => 12,
            CsRpcCmd::BuyEquipResp => 13,
            CsRpcCmd::UpgradeEquipReq => 14,
            CsRpcCmd::UpgradeEquipResp => 15,
        }
    }
}

#[derive(Debug, Clone, Default)]
pub struct PlaceholderReq {
    pub msg: String,
}

#[derive(Debug, Clone, Default)]
pub struct PlaceholderResp {
    pub msg: String,
}

#[derive(Debug, Clone, Copy, Default)]
pub struct HeartbeatReq {
    pub timestamp: u64,
}

#[derive(Debug, Clone, Copy, Default)]
pub struct HeartbeatResp {
    pub timestamp: u64,
}

#[derive(Debug, Clone, Copy, Default)]
pub struct LoginReq {
    pub player_id: u32,
}

#[derive(Debug, Clone, Default)]
pub struct LoginResp {
    pub player_data: Option<PlayerData>,
    pub error_msg: String,
}

/// A money request; `money_type` holds a currency's wire number.
#[derive(Debug, Clone, Copy, Default)]
pub struct AddMoneyReq {
    pub money_type: i32,
    pub amount: u32,
}

#[derive(Debug, Clone, Default)]
pub struct AddMoneyResp {
    pub money_count: u32,
    pub error_msg: String,
}

/// Changes of the player's record, pushed to the client.
#[derive(Debug, Clone, Default)]
pub struct PlayerDataNotify {
    pub delta: Option<PlayerDataDelta>,
    pub reason: String,
}

#[derive(Debug, Clone, Copy, Default)]
pub struct SkillUnlockReq {
    pub skill_id: u32,
}

/// `result` is 1 on success and 0 on failure.
#[derive(Debug, Clone, Default)]
pub struct SkillUnlockResp {
    pub result: i32,
    pub error_msg: String,
    pub skill_id: u32,
    pub skill_level: u32,
    pub remaining_skill_points: u32,
}

#[derive(Debug, Clone, Copy, Default)]
pub struct SkillUpgradeReq {
    pub skill_id: u32,
}

/// `result` is 1 on success and 0 on failure.
#[derive(Debug, Clone, Default)]
pub struct SkillUpgradeResp {
    pub result: i32,
    pub error_msg: String,
    pub skill_id: u32,
    pub skill_level: u32,
    pub remaining_skill_points: u32,
}

#[derive(Debug, Clone, Copy, Default)]
pub struct BuyEquipReq {
    pub equip_id: u32,
}

/// `result` is 1 on success and 0 on failure.
#[derive(Debug, Clone, Default)]
pub struct BuyEquipResp {
    pub result: i32,
    pub error_msg: String,
    pub equip_id: u32,
    pub equip_level: u32,
}

#[derive(Debug, Clone, Copy, Default)]
pub struct UpgradeEquipReq {
    pub equip_id: u32,
}

/// `result` is 1 on success and 0 on failure.
#[derive(Debug, Clone, Default)]
pub struct UpgradeEquipResp {
    pub result: i32,
    pub error_msg: String,
    pub equip_id: u32,
    pub equip_level: u32,
}

/// The body of a message.
#[derive(Debug, Clone)]
pub enum Payload {
    PlaceholderReq(PlaceholderReq),
    PlaceholderResp(PlaceholderResp),
    HeartbeatReq(HeartbeatReq),
    HeartbeatResp(HeartbeatResp),
    LoginReq(LoginReq),
    LoginResp(LoginResp),
    AddMoneyReq(AddMoneyReq),
    AddMoneyResp(AddMoneyResp),
    PlayerDataNotify(PlayerDataNotify),
    SkillUnlockReq(SkillUnlockReq),
    SkillUnlockResp(SkillUnlockResp),
    SkillUpgradeReq(SkillUpgradeReq),
    SkillUpgradeResp(SkillUpgradeResp),
    BuyEquipReq(BuyEquipReq),
    BuyEquipResp(BuyEquipResp),
    UpgradeEquipReq(UpgradeEquipReq),
    UpgradeEquipResp(UpgradeEquipResp),
}

/// The message envelope: command number, sequence number (a reply carries
/// that of its request), session id, and body.
#[derive(Debug, Clone, Default)]
pub struct CsRpcMsg {
    pub cmd: i32,
    pub seq: u32,
    pub session_id: u32,
    pub payload: Option<Payload>,
}

} // verus!
