use jrow_kafka_gateway::config::{
    apply_env_substitutions, default_auto_offset_reset, default_group_id,
    default_health_bind_address, default_jrow_topic_template, default_kafka_topic_template,
    default_subscription_id, substitute_env_vars, HealthConfig, SinkConfig, SourceConfig,
};
use jrow_kafka_gateway::{Config, GatewayError};

fn config_message(config: &Config) -> String {
    match config.validate() {
        Err(GatewayError::Configuration(m)) => m,
        other => panic!("expected a configuration error, got {:?}", other),
    }
}

#[test]
fn test_env_var_substitution() {
    let env = vec![("JKG_TEST_VAR".to_string(), "test_value".to_string())];

    let input = "key = \"${JKG_TEST_VAR}\"";
    let output = substitute_env_vars(input, &env);

    assert_eq!(output, "key = \"test_value\"");
}

#[test]
fn test_default_config_is_valid() {
    let config = Config::default_config();
    assert!(config.validate().is_ok());
}

#[test]
fn test_requires_at_least_one_direction() {
    let mut config = Config::default_config();
    config.source.enabled = false;
    config.sink.enabled = false;
    assert!(config.validate().is_err());
}

#[test]
fn test_source_requires_topics() {
    let mut config = Config::default_config();
    config.source.topics.clear();
    assert!(config.validate().is_err());
}

#[test]
fn test_sink_requires_jrow_topic() {
    let mut config = Config::default_config();
    config.sink.jrow_topic.clear();
    assert!(config.validate().is_err());
}

#[test]
fn test_templates_require_placeholder() {
    let mut config = Config::default_config();
    config.source.jrow_topic_template = "kafka.static".to_string();
    assert!(config.validate().is_err());
}

#[test]
fn test_resolved_client_url_defaults_to_bind_address() {
    let config = Config::default_config();
    assert_eq!(
        config.jrow.resolved_client_url(),
        format!("ws://{}", config.jrow.bind_address)
    );
}

#[test]
fn test_resolved_client_url_override() {
    let mut config = Config::default_config();
    config.jrow.client_url = Some("ws://external-jrow:9004".to_string());
    assert_eq!(config.jrow.resolved_client_url(), "ws://external-jrow:9004");
}

#[test]
fn default_config_values() {
    let config = Config::default_config();
    assert_eq!(config.jrow.bind_address, "127.0.0.1:9950");
    assert_eq!(config.jrow.persistent_storage_path, "./data/kafka-gateway.db");
    assert_eq!(config.kafka.bootstrap_servers, "localhost:9092");
    assert_eq!(config.source.topics, vec!["orders".to_string()]);
    assert_eq!(config.source.jrow_topic_template, "kafka.{topic}");
    assert_eq!(config.sink.jrow_topic, "events.>");
    assert_eq!(config.sink.kafka_topic_template, "jrow.{topic}");
    assert!(!config.health.enabled);
    assert_eq!(config.health.bind_address, "127.0.0.1:8090");
}

#[test]
fn default_values_of_each_section() {
    assert_eq!(default_group_id(), "jrow-kafka-gateway");
    assert_eq!(default_jrow_topic_template(), "kafka.{topic}");
    assert_eq!(default_auto_offset_reset(), "earliest");
    assert_eq!(default_subscription_id(), "jrow-kafka-gateway-sink");
    assert_eq!(default_kafka_topic_template(), "jrow.{topic}");
    assert_eq!(default_health_bind_address(), "127.0.0.1:8090");

    let source = SourceConfig::default();
    assert!(!source.enabled);
    assert!(source.topics.is_empty());
    assert_eq!(source.group_id, "jrow-kafka-gateway");
    let sink = SinkConfig::default();
    assert!(!sink.enabled);
    assert_eq!(sink.jrow_topic, "");
    assert_eq!(sink.subscription_id, "jrow-kafka-gateway-sink");
    let health = HealthConfig::default();
    assert!(!health.enabled);
    assert_eq!(health.bind_address, "127.0.0.1:8090");
}

#[test]
fn validation_messages_follow_the_rule_order() {
    let mut config = Config::default_config();
    config.jrow.bind_address.clear();
    config.kafka.bootstrap_servers.clear();
    assert_eq!(config_message(&config), "jrow.bind_address cannot be empty");

    let mut config = Config::default_config();
    config.jrow.persistent_storage_path.clear();
    assert_eq!(config_message(&config), "jrow.persistent_storage_path cannot be empty");

    let mut config = Config::default_config();
    config.kafka.bootstrap_servers.clear();
    assert_eq!(config_message(&config), "kafka.bootstrap_servers cannot be empty");

    let mut config = Config::default_config();
    config.source.enabled = false;
    config.sink.enabled = false;
    assert_eq!(
        config_message(&config),
        "at least one of source.enabled or sink.enabled must be true"
    );

    let mut config = Config::default_config();
    config.source.group_id.clear();
    assert_eq!(
        config_message(&config),
        "source.group_id cannot be empty when source.enabled is true"
    );

    let mut config = Config::default_config();
    config.source.topics.clear();
    assert_eq!(
        config_message(&config),
        "source.topics cannot be empty when source.enabled is true"
    );

    let mut config = Config::default_config();
    config.source.jrow_topic_template.clear();
    assert_eq!(
        config_message(&config),
        "source.jrow_topic_template cannot be empty when source.enabled is true"
    );

    let mut config = Config::default_config();
    config.source.jrow_topic_template = "kafka.static".to_string();
    assert_eq!(
        config_message(&config),
        "source.jrow_topic_template must contain the '{topic}' placeholder"
    );

    let mut config = Config::default_config();
    config.sink.subscription_id.clear();
    assert_eq!(
        config_message(&config),
        "sink.subscription_id cannot be empty when sink.enabled is true"
    );

    let mut config = Config::default_config();
    config.sink.jrow_topic.clear();
    assert_eq!(
        config_message(&config),
        "sink.jrow_topic cannot be empty when sink.enabled is true"
    );

    let mut config = Config::default_config();
    config.sink.kafka_topic_template.clear();
    assert_eq!(
        config_message(&config),
        "sink.kafka_topic_template cannot be empty when sink.enabled is true"
    );

    let mut config = Config::default_config();
    config.sink.kafka_topic_template = "{topic".to_string();
    assert_eq!(
        config_message(&config),
        "sink.kafka_topic_template must contain the '{topic}' placeholder"
    );

    let mut config = Config::default_config();
    config.health.enabled = true;
    config.health.bind_address.clear();
    assert_eq!(
        config_message(&config),
        "health.bind_address cannot be empty when health.enabled is true"
    );
}

#[test]
fn disabled_directions_are_not_checked() {
    let mut config = Config::default_config();
    config.source.enabled = false;
    config.source.topics.clear();
    config.source.jrow_topic_template = "static".to_string();
    assert!(config.validate().is_ok());

    let mut config = Config::default_config();
    config.sink.enabled = false;
    config.sink.jrow_topic.clear();
    assert!(config.validate().is_ok());

    let mut config = Config::default_config();
    config.health.bind_address.clear();
    assert!(config.validate().is_ok());
}

#[test]
fn env_substitution_keeps_unset_variables() {
    let env = vec![("SET_VAR".to_string(), "v".to_string())];
    let out = substitute_env_vars("a=${UNSET_VAR} b=${SET_VAR} c=${SET_VAR}", &env);
    assert_eq!(out, "a=${UNSET_VAR} b=v c=v");

    let out = substitute_env_vars("no references, $NOT {this}", &env);
    assert_eq!(out, "no references, $NOT {this}");

    let out = substitute_env_vars("${1BAD} ${A-B}", &vec![("1BAD".to_string(), "x".to_string())]);
    assert_eq!(out, "${1BAD} ${A-B}");
}

#[test]
fn env_substitution_applies_references_in_turn() {
    let refs = vec![
        ("${A}".to_string(), "A".to_string()),
        ("${B}".to_string(), "B".to_string()),
    ];
    let env = vec![
        ("A".to_string(), "${B}".to_string()),
        ("B".to_string(), "b".to_string()),
        ("A".to_string(), "ignored".to_string()),
    ];
    assert_eq!(apply_env_substitutions("x ${A} y", &refs, &env), "x b y");
    assert_eq!(apply_env_substitutions("x ${A} y", &vec![], &env), "x ${A} y");
}

#[test]
fn env_substitution_single_reference() {
    let env = vec![("KAFKA_BROKERS".to_string(), "b1:9092,b2:9092".to_string())];
    assert_eq!(
        substitute_env_vars("bootstrap_servers = \"${KAFKA_BROKERS}\"\n", &env),
        "bootstrap_servers = \"b1:9092,b2:9092\"\n"
    );
    assert_eq!(substitute_env_vars("x = \"$${_a1}}\"", &vec![("_a1".to_string(), "v".to_string())]), "x = \"$v}\"");
}

#[test]
fn env_substitution_replaces_references_in_turn() {
    // The references are those of the original text; each is then replaced
    // everywhere in the text as it stands, one after another.
    let env = vec![
        ("A".to_string(), "$".to_string()),
        ("B".to_string(), "x".to_string()),
    ];
    assert_eq!(substitute_env_vars("${A}{B} ${B}", &env), "x x");
}

#[test]
fn env_substitution_of_several_references() {
    let env = vec![
        ("HOST".to_string(), "kafka".to_string()),
        ("PORT".to_string(), "9092".to_string()),
    ];
    assert_eq!(
        substitute_env_vars("a = \"${HOST}:${PORT}\"\nb = \"${HOST}-${UNSET}\"", &env),
        "a = \"kafka:9092\"\nb = \"kafka-${UNSET}\""
    );
}

#[test]
fn env_substitution_can_form_new_references() {
    // `${` followed by a value and `}` forms a reference that a later step
    // replaces: values free of `$`, `{` and `}` are not enough to exclude it.
    let env = vec![
        ("A".to_string(), "x".to_string()),
        ("x".to_string(), "Y".to_string()),
    ];
    assert_eq!(substitute_env_vars("${${A}} ${x}", &env), "Y Y");
}
