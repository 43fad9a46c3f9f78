//! A round-robin, rate-limited load balancer for JSON-RPC upstreams.
//!
//! Each chain owns an ordered list of upstream endpoints, every endpoint
//! carrying a per-window token budget. The scheduler hands out one upstream
//! per call, sticking to the current endpoint until its tokens are drained;
//! a periodic refill restores every budget; a retry controller rotates
//! upstreams on failure under an exponential backoff; and the request
//! handler shapes the response a client sees.

pub mod handler;
pub mod laws;
pub mod registry;
pub mod retry;
pub mod round_robin;
pub mod rpc_model;

pub use registry::Chains;
pub use registry::Config;
pub use registry::LoadBalancer;
pub use registry::initialize_load_balancer;
pub use round_robin::RoundRobin;
pub use round_robin::RpcServer;
