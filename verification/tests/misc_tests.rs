use jrow_kafka_gateway::summary::config_summary_lines;
use jrow_kafka_gateway::{Config, GatewayError};

#[test]
fn retryable_errors() {
    assert!(GatewayError::Kafka("x".to_string()).is_retryable());
    assert!(GatewayError::Jrow("x".to_string()).is_retryable());
    assert!(GatewayError::JrowCore("x".to_string()).is_retryable());
    assert!(GatewayError::Io("x".to_string()).is_retryable());
    assert!(!GatewayError::Configuration("x".to_string()).is_retryable());
    assert!(!GatewayError::Serialization("x".to_string()).is_retryable());
    assert!(!GatewayError::TomlParse("x".to_string()).is_retryable());
    assert!(!GatewayError::TopicMapping("x".to_string()).is_retryable());
    assert!(!GatewayError::Shutdown.is_retryable());
}

#[test]
fn summary_of_default_config() {
    let mut config = Config::default_config();
    config.source.topics.push("payments".to_string());
    let lines = config_summary_lines(&config);
    assert_eq!(
        lines,
        vec![
            "\n📋 Configuration Summary:",
            "  ├─ jrow Bind Address:  127.0.0.1:9950",
            "  ├─ jrow Storage Path:  ./data/kafka-gateway.db",
            "  ├─ jrow Client URL:    ws://127.0.0.1:9950",
            "  ├─ Kafka Brokers:      localhost:9092",
            "  ├─ Source (Kafka->jrow): enabled",
            "  │  ├─ Topics:          orders, payments",
            "  │  ├─ Group ID:        jrow-kafka-gateway",
            "  │  └─ jrow Template:   kafka.{topic}",
            "  ├─ Sink (jrow->Kafka):   enabled",
            "  │  ├─ Subscription ID: jrow-kafka-gateway-sink",
            "  │  ├─ jrow Topic:      events.>",
            "  │  └─ Kafka Template:  jrow.{topic}",
            "  └─ Health Endpoint:    disabled",
        ]
    );
}

#[test]
fn summary_of_disabled_directions() {
    let mut config = Config::default_config();
    config.source.enabled = false;
    config.sink.enabled = false;
    config.health.enabled = true;
    let lines = config_summary_lines(&config);
    assert_eq!(lines.len(), 8);
    assert_eq!(lines[5], "  ├─ Source (Kafka->jrow): disabled");
    assert_eq!(lines[6], "  ├─ Sink (jrow->Kafka):   disabled");
    assert_eq!(lines[7], "  └─ Health Endpoint:    127.0.0.1:8090");
}

#[test]
fn error_messages() {
    let cases = vec![
        (GatewayError::Configuration("c".to_string()), "configuration error: c"),
        (GatewayError::Jrow("j".to_string()), "jrow error: j"),
        (GatewayError::Kafka("k".to_string()), "kafka error: k"),
        (GatewayError::Serialization("s".to_string()), "serialization error: s"),
        (GatewayError::TomlParse("t".to_string()), "TOML parsing error: t"),
        (GatewayError::Io("i".to_string()), "I/O error: i"),
        (GatewayError::JrowCore("r".to_string()), "jrow-core error: r"),
        (GatewayError::TopicMapping("m".to_string()), "topic mapping error: m"),
        (GatewayError::Shutdown, "shutdown signal received"),
    ];
    for (e, text) in cases {
        assert_eq!(e.message(), text);
    }
}
