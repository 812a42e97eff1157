//! Routing of messages to handlers by command number.
use crate::message::CsRpcMsg;
use crate::player_pool::PlayerPool;
use std::collections::HashMap;
use vstd::prelude::*;

verus! {

broadcast use vstd::std_specs::hash::group_hash_axioms;

/// What a handler knows of the connection a message came on.
#[derive(Debug, Clone, Copy)]
pub struct Context {
    /// The session of the connection.
    pub session_id: u32,
    /// The player logged in on the session, 0 for none.
    pub player_id: u64,
}

/// A handler of one kind of request. It may change the player pool and
/// answers with a reply or with nothing.
pub trait MessageHandler: Send + Sync + Sized {
    /// The handler answers `msg` in `ctx` with `resp` and leaves the pool
    /// `before` as `after`.
    spec fn handles(
        &self,
        ctx: Context,
        before: PlayerPool,
        msg: CsRpcMsg,
        resp: Option<CsRpcMsg>,
        after: PlayerPool,
    ) -> bool;

    /// Handles a message; `Some` is a reply to send, `None` means no reply.
    fn handle(&self, ctx: &Context, pool: &mut PlayerPool, msg: CsRpcMsg) -> (resp: Option<CsRpcMsg>)
        ensures
            self.handles(*ctx, *old(pool), msg, resp, *final(pool)),
    ;
}

/// Handlers by command number.
#[verifier::reject_recursive_types(H)]
pub struct Router<H: MessageHandler> {
    handlers: HashMap<i32, H>,
}

impl<H: MessageHandler> View for Router<H> {
    type V = Map<i32, H>;

    closed spec fn view(&self) -> Map<i32, H> {
        self.handlers@
    }
}

impl<H: MessageHandler> Router<H> {
    /// A router without handlers.
    pub fn new() -> (r: Router<H>)
        ensures
            r@ == Map::<i32, H>::empty(),
    {
        Router { handlers: HashMap::new() }
    }

    /// Registers the handler of a command; a handler registered before for
    /// that command is replaced.
    pub fn register(&mut self, cmd: i32, handler: H)
        ensures
            final(self)@ == old(self)@.insert(cmd, handler),
    {
        self.handlers.insert(cmd, handler);
    }

    /// Hands a message to the handler of its command and returns its answer;
    /// a command without handler gets no answer and changes nothing.
    pub fn dispatch(&self, ctx: &Context, pool: &mut PlayerPool, msg: CsRpcMsg) -> (r: Option<CsRpcMsg>)
        ensures
            if self@.contains_key(msg.cmd) {
                self@[msg.cmd].handles(*ctx, *old(pool), msg, r, *final(pool))
            } else {
                r is None && final(pool)@ == old(pool)@
            },
    {
        match self.handlers.get(&msg.cmd) {
            Some(h) => h.handle(ctx, pool, msg),
            None => None,
        }
    }
}

} // verus!
