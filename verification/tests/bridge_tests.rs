use jrow_kafka_gateway::config::{KafkaConfig, SinkConfig, SourceConfig};
use jrow_kafka_gateway::sink::{producer_settings, AckRequest};
use jrow_kafka_gateway::source::{
    consumer_settings, message_to_envelope, EnvelopeValue, OffsetDecision,
};
use jrow_kafka_gateway::{GatewayError, GatewayStats, SinkBridge, SinkStats, SourceBridge, SourceStats};

fn pairs(v: &[(&str, &str)]) -> Vec<(String, String)> {
    v.iter().map(|(a, b)| (a.to_string(), b.to_string())).collect()
}

#[test]
fn source_test_stats_default() {
    let stats = SourceStats::default();
    assert_eq!(stats.messages_consumed, 0);
    assert_eq!(stats.messages_published, 0);
    assert_eq!(stats.publish_errors, 0);
}

#[test]
fn sink_test_stats_default() {
    let stats = SinkStats::default();
    assert_eq!(stats.messages_received, 0);
    assert_eq!(stats.produce_errors, 0);
}

#[test]
fn source_commits_only_after_publish() {
    let mut bridge = SourceBridge::new(&SourceConfig::default()).unwrap();
    assert_eq!(bridge.on_message("orders"), "kafka.orders");
    assert_eq!(bridge.on_publish_result(true), OffsetDecision::Commit);
    assert_eq!(bridge.on_message("payments"), "kafka.payments");
    assert_eq!(bridge.on_publish_result(false), OffsetDecision::Keep);
    assert_eq!(bridge.on_message("orders"), "kafka.orders");
    assert_eq!(
        bridge.stats(),
        SourceStats { messages_consumed: 3, messages_published: 1, publish_errors: 1 }
    );
    assert_eq!(bridge.template().as_str(), "kafka.{topic}");
}

#[test]
fn source_rejects_template_without_placeholder() {
    let mut source = SourceConfig::default();
    source.jrow_topic_template = "static".to_string();
    match SourceBridge::new(&source) {
        Err(GatewayError::TopicMapping(m)) => {
            assert_eq!(m, "template 'static' must contain the '{topic}' placeholder")
        }
        other => panic!("unexpected {:?}", other),
    }
}

#[test]
fn sink_acknowledges_only_confirmed_produces() {
    let mut config = SinkConfig::default();
    config.jrow_topic = "events.>".to_string();
    let mut bridge = SinkBridge::new(&config).unwrap();
    assert_eq!(bridge.subscription_id(), "jrow-kafka-gateway-sink");
    assert_eq!(bridge.jrow_topic(), "events.>");

    let d = bridge.on_delivery(Some(7), Some("events.user.login".to_string()));
    assert_eq!(d.sequence_id, 7);
    assert_eq!(d.jrow_topic, "events.user.login");
    assert_eq!(d.kafka_topic, "jrow.events.user.login");
    assert_eq!(
        bridge.on_produce_result(d.sequence_id, true),
        Some(AckRequest { subscription_id: "jrow-kafka-gateway-sink".to_string(), sequence_id: 7 })
    );

    let d = bridge.on_delivery(None, None);
    assert_eq!(d.sequence_id, 0);
    assert_eq!(d.jrow_topic, "events.>");
    assert_eq!(d.kafka_topic, "jrow.events.>");
    assert_eq!(bridge.on_produce_result(d.sequence_id, false), None);

    let _ = bridge.on_delivery(Some(9), None);
    bridge.on_encode_failure();

    assert_eq!(
        bridge.stats(),
        SinkStats {
            messages_received: 3,
            messages_produced: 1,
            messages_acknowledged: 1,
            produce_errors: 2,
        }
    );
}

#[test]
fn sink_rejects_template_without_placeholder() {
    let mut config = SinkConfig::default();
    config.kafka_topic_template = "jrow.static".to_string();
    assert!(SinkBridge::new(&config).is_err());
}

#[test]
fn client_settings_order() {
    let kafka = KafkaConfig {
        bootstrap_servers: "b:9092".to_string(),
        options: pairs(&[("security.protocol", "SASL_SSL")]),
    };
    let mut source = SourceConfig::default();
    source.group_id = "gw".to_string();
    assert_eq!(
        consumer_settings(&kafka, &source),
        pairs(&[
            ("bootstrap.servers", "b:9092"),
            ("group.id", "gw"),
            ("enable.auto.commit", "false"),
            ("auto.offset.reset", "earliest"),
            ("security.protocol", "SASL_SSL"),
        ])
    );
    assert_eq!(
        producer_settings(&kafka),
        pairs(&[("bootstrap.servers", "b:9092"), ("security.protocol", "SASL_SSL")])
    );
}

#[test]
fn envelope_of_messages() {
    let e = message_to_envelope("orders", 2, 41, Some(1000), Some(b"k1"), Some(b"{\"a\":1}"));
    assert_eq!(e.kafka_topic, "orders");
    assert_eq!(e.kafka_partition, 2);
    assert_eq!(e.kafka_offset, 41);
    assert_eq!(e.kafka_timestamp, Some(1000));
    assert_eq!(e.key, Some("k1".to_string()));
    assert_eq!(e.value, EnvelopeValue::Json(b"{\"a\":1}".to_vec()));

    let e = message_to_envelope("t", 0, 0, None, Some(&[0x66, 0xff]), Some(b"plain text"));
    assert_eq!(e.key, Some("f\u{FFFD}".to_string()));
    assert_eq!(e.value, EnvelopeValue::Text("plain text".to_string()));

    let e = message_to_envelope("t", 0, 0, None, None, Some(&[0xff, 0x61]));
    assert_eq!(e.key, None);
    assert_eq!(e.value, EnvelopeValue::Text("\u{FFFD}a".to_string()));

    let e = message_to_envelope("t", 0, 0, None, None, None);
    assert_eq!(e.value, EnvelopeValue::Null);
}

#[test]
fn gateway_stats_hold_both_directions() {
    let stats = GatewayStats { source: Some(SourceStats::default()), sink: None };
    assert_eq!(stats.source.unwrap().messages_consumed, 0);
    assert!(stats.sink.is_none());
}

#[test]
fn validated_config_builds_both_bridges() {
    let config = jrow_kafka_gateway::Config::default_config();
    assert!(config.validate().is_ok());
    assert!(SourceBridge::new(&config.source).is_ok());
    assert!(SinkBridge::new(&config.sink).is_ok());
}

#[test]
fn source_stats_count_every_cycle() {
    let mut bridge = SourceBridge::new(&SourceConfig::default()).unwrap();
    let outcomes = [true, false, true, true, false];
    for ok in outcomes {
        let _ = bridge.on_message("t");
        let _ = bridge.on_publish_result(ok);
    }
    assert_eq!(
        bridge.stats(),
        SourceStats { messages_consumed: 5, messages_published: 3, publish_errors: 2 }
    );
}

#[test]
fn pending_counts_track_messages_in_hand() {
    let mut source = SourceBridge::new(&SourceConfig::default()).unwrap();
    assert_eq!(source.pending_publishes(), 0);
    let _ = source.on_message("a");
    assert_eq!(source.pending_publishes(), 1);
    let _ = source.on_publish_result(true);
    assert_eq!(source.pending_publishes(), 0);

    let mut config = SinkConfig::default();
    config.jrow_topic = "events.>".to_string();
    let mut sink = SinkBridge::new(&config).unwrap();
    let a = sink.on_delivery(Some(1), None);
    let b = sink.on_delivery(Some(2), None);
    assert_eq!(sink.pending_deliveries(), 2);
    assert!(sink.on_produce_result(b.sequence_id, true).is_some());
    sink.on_encode_failure();
    assert_eq!(sink.pending_deliveries(), 0);
    let st = sink.stats();
    assert_eq!(st.messages_received, st.messages_produced + st.produce_errors);
    assert_eq!(st.messages_acknowledged, st.messages_produced);
    let _ = a;
}
