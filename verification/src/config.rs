//! The application configuration the components are constructed from.
//! Reading it from files and the environment is the embedding
//! program's job; the values and their defaults live here.

use vstd::prelude::*;

verus! {

/// The batched publisher's flush thresholds: a batch is flushed when
/// its record count reaches `max_messages`, its cumulative serialized
/// size reaches `max_bytes`, or `max_latency` seconds elapse.
#[derive(Debug, Clone)]
pub struct PubSubConfig {
    pub max_messages: usize,
    pub max_bytes: usize,
    pub max_latency: u64,
}

/// The application's configuration.
#[derive(Debug, Clone)]
pub struct AppConfig {
    pub env: String,
    pub log_level: String,
    pub google_cloud_project: String,
    pub gae_service: String,
    pub port: u16,
    pub redishost: String,
    pub redisport: u16,
    pub pubsub: PubSubConfig,
}

impl AppConfig {
    /// Whether this configuration names the production environment.
    pub fn is_live_env(&self) -> (r: bool)
        ensures
            r == (self.env@ == "prod"@),
    {
        let live = String::from_str("prod");
        self.env == live
    }
}

impl Default for AppConfig {
    /// The development defaults.
    fn default() -> (r: AppConfig)
        ensures
            r.env@ == "dev"@,
            r.port == 3000,
            r.redisport == 6379,
            r.pubsub.max_messages == 10,
            r.pubsub.max_bytes == 1024,
            r.pubsub.max_latency == 5,
    {
        AppConfig {
            env: String::from_str("dev"),
            log_level: String::from_str("rust_gcp=debug,tower_http::trace=debug"),
            google_cloud_project: String::from_str("getcloudy-469014"),
            gae_service: String::from_str("rust-gcp"),
            port: 3000,
            redishost: String::from_str("10.207.177.140"),
            redisport: 6379,
            pubsub: PubSubConfig { max_messages: 10, max_bytes: 1024, max_latency: 5 },
        }
    }
}

} // verus!
