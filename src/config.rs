//! Settings of the event synchronizer and of the gateway process.

use vstd::prelude::*;

verus! {

/// Settings for the event synchronizer.
pub struct Synchronizer {
    /// How many slots below the tip catch-up may reach back; `None` for no
    /// limit.
    pub max_catchup_depth: Option<u64>,
    /// Seconds between two polls of the live source.
    pub poll_interval_secs: u64,
    /// The most slots one catch-up page covers (a page covers at least one).
    pub max_signature_fetch: usize,
}

impl Default for Synchronizer {
    fn default() -> (r: Self)
        ensures
            r.max_catchup_depth is None,
            r.poll_interval_secs == 3,
            r.max_signature_fetch == 1000,
    {
        Synchronizer { max_catchup_depth: None, poll_interval_secs: 3, max_signature_fetch: 1000 }
    }
}

/// gRPC server address.
pub struct GrpcConfig {
    pub host: String,
    pub port: u16,
}

impl Default for GrpcConfig {
    fn default() -> (r: Self)
        ensures
            r.host@ == "127.0.0.1"@,
            r.port == 50051,
    {
        GrpcConfig { host: "127.0.0.1".to_owned(), port: 50051 }
    }
}

/// Settings of the gateway process: where the cursor store lives and where
/// the streaming server listens.
pub struct GatewaySpecificConfig {
    pub db_path: String,
    pub grpc: GrpcConfig,
}

impl Default for GatewaySpecificConfig {
    fn default() -> (r: Self)
        ensures
            r.db_path@ == "./w3b2_gateway.db"@,
            r.grpc.host@ == "127.0.0.1"@,
            r.grpc.port == 50051,
    {
        GatewaySpecificConfig { db_path: "./w3b2_gateway.db".to_owned(), grpc: GrpcConfig::default() }
    }
}

} // verus!
