//! Regret and strategy tables: the discount law, the shard owner that
//! serialises updates, the handlers through which agents reach it, the
//! router over several shards, and the byte format of persisted entries.

pub mod channel;
pub mod channel_regret_handler;
pub mod codec;
pub mod direct_handler;
pub mod hash_regret_provider;
pub mod merged;
pub mod persistent;
pub mod regret_provider;
pub mod regret_sharder;

pub use channel_regret_handler::ChannelRegretHandler;
pub use direct_handler::DirectHandler;
pub use hash_regret_provider::HashRegretProvider;
pub use regret_provider::{
    HandlerError, RegretConfig, RegretDelta, RegretHandler, RegretRequest, RegretResponse, Request,
    Response,
};
pub use regret_sharder::RegretSharder;
