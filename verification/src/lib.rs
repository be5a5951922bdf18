//! Verified core of a bidirectional Kafka <-> jrow gateway: configuration
//! rules, `{topic}` template rendering, and the bookkeeping decisions of the
//! two bridge directions.

pub mod config;
pub mod error;
pub mod gateway;
pub mod sink;
pub mod source;
pub mod substitution;
pub mod summary;
pub mod text;
pub mod topic_map;

pub use config::Config;
pub use error::{GatewayError, Result};
pub use gateway::GatewayStats;
pub use sink::{SinkBridge, SinkStats};
pub use source::{SourceBridge, SourceStats};
pub use topic_map::TopicTemplate;
