//! Orchestration of ephemeral test networks: planning and launching a
//! validator swarm, laying out and filling its configuration artifacts, and
//! moving a wallet from the embedded gateway to a JSON-RPC front-end.

pub mod bootstrap;
pub mod config;
pub mod rpc;
pub mod swarm;
pub mod wallet;
