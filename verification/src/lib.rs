//! Game server core: player model, player pool, snapshot deltas, session
//! bookkeeping, command routing, request handlers and frame codec.
pub mod codec;
pub mod delta;
pub mod handler;
pub mod keyed;
pub mod message;
pub mod model;
pub mod player;
pub mod player_pool;
pub mod router;
pub mod server;
pub mod session;
pub mod text;
