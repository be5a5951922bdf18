//! Error type of the gateway.

use vstd::prelude::*;
use vstd::string::*;

verus! {

/// Main error type for the Kafka gateway.
///
/// Errors raised by the Kafka client, JSON and TOML codecs, I/O and the jrow
/// runtime are carried as their rendered messages.
#[derive(Debug)]
pub enum GatewayError {
    /// Configuration error (missing/invalid fields)
    Configuration(String),
    /// Error connecting to or communicating with a jrow server/client
    Jrow(String),
    /// Error from the Kafka client
    Kafka(String),
    /// Serialization/deserialization error
    Serialization(String),
    /// TOML parsing error
    TomlParse(String),
    /// I/O error
    Io(String),
    /// Error bubbled up from the jrow runtime
    JrowCore(String),
    /// Topic mapping/template error
    TopicMapping(String),
    /// Shutdown signal received
    Shutdown,
}

/// Result type alias for gateway operations.
pub type Result<T> = core::result::Result<T, GatewayError>;

/// The text that describes an error: its kind, then its message.
pub open spec fn error_message(e: GatewayError) -> Seq<char> {
    match e {
        GatewayError::Configuration(m) => "configuration error: "@ + m@,
        GatewayError::Jrow(m) => "jrow error: "@ + m@,
        GatewayError::Kafka(m) => "kafka error: "@ + m@,
        GatewayError::Serialization(m) => "serialization error: "@ + m@,
        GatewayError::TomlParse(m) => "TOML parsing error: "@ + m@,
        GatewayError::Io(m) => "I/O error: "@ + m@,
        GatewayError::JrowCore(m) => "jrow-core error: "@ + m@,
        GatewayError::TopicMapping(m) => "topic mapping error: "@ + m@,
        GatewayError::Shutdown => "shutdown signal received"@,
    }
}

impl GatewayError {
    /// The text that describes this error, as shown to users.
    pub fn message(&self) -> (m: String)
        ensures
            m@ == error_message(*self),
    {
        match self {
            GatewayError::Configuration(m) => String::from_str("configuration error: ").concat(
                m.as_str(),
            ),
            GatewayError::Jrow(m) => String::from_str("jrow error: ").concat(m.as_str()),
            GatewayError::Kafka(m) => String::from_str("kafka error: ").concat(m.as_str()),
            GatewayError::Serialization(m) => String::from_str("serialization error: ").concat(
                m.as_str(),
            ),
            GatewayError::TomlParse(m) => String::from_str("TOML parsing error: ").concat(
                m.as_str(),
            ),
            GatewayError::Io(m) => String::from_str("I/O error: ").concat(m.as_str()),
            GatewayError::JrowCore(m) => String::from_str("jrow-core error: ").concat(m.as_str()),
            GatewayError::TopicMapping(m) => String::from_str("topic mapping error: ").concat(
                m.as_str(),
            ),
            GatewayError::Shutdown => String::from_str("shutdown signal received"),
        }
    }

    /// The error stands for a transient condition worth retrying/redelivering.
    pub open spec fn retryable(&self) -> bool {
        ||| self is Kafka
        ||| self is Jrow
        ||| self is JrowCore
        ||| self is Io
    }

    /// Check if this error represents a transient condition worth retrying/redelivering
    pub fn is_retryable(&self) -> (r: bool)
        ensures
            r == self.retryable(),
    {
        match self {
            GatewayError::Kafka(_) => true,
            GatewayError::Jrow(_) => true,
            GatewayError::JrowCore(_) => true,
            GatewayError::Io(_) => true,
            GatewayError::Configuration(_) => false,
            GatewayError::Serialization(_) => false,
            GatewayError::TomlParse(_) => false,
            GatewayError::TopicMapping(_) => false,
            GatewayError::Shutdown => false,
        }
    }
}

} // verus!
