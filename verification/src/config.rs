//! Configuration of the gateway: its shape, defaults and validation rules.

use vstd::prelude::*;
use vstd::string::*;

use crate::error::{GatewayError, Result};
use crate::text::{
    contains, contains_text, lemma_absent_extension, lemma_replace_absent,
    lemma_replace_first_occurrence, occurs_at, replace_all, replace_text,
};
use crate::topic_map::{lemma_placeholder_const, placeholder, PLACEHOLDER};

verus! {

/// Main configuration structure
#[derive(Debug, Clone)]
pub struct Config {
    pub jrow: JrowConfig,
    pub kafka: KafkaConfig,
    pub source: SourceConfig,
    pub sink: SinkConfig,
    pub health: HealthConfig,
}

/// jrow embedded server / client configuration
#[derive(Debug, Clone)]
pub struct JrowConfig {
    /// Address the embedded jrow-server binds to (e.g. "127.0.0.1:9950")
    pub bind_address: String,
    /// Path to the sled database used for persistent subscriptions/messages
    pub persistent_storage_path: String,
    /// WebSocket URL the sink side connects to. Defaults to `ws://{bind_address}`
    /// (the gateway's own embedded server) if not set.
    pub client_url: Option<String>,
}

/// The URL the sink's client connects to: the configured `client_url`, or
/// `ws://` followed by the bind address.
pub open spec fn resolved_client_url_of(j: JrowConfig) -> Seq<char> {
    match j.client_url {
        Some(u) => u@,
        None => "ws://"@ + j.bind_address@,
    }
}

/// The sink connects to the configured `client_url` where there is one, and
/// otherwise to `ws://` followed by the embedded server's bind address.
pub proof fn law_resolved_client_url(j: JrowConfig)
    ensures
        j.client_url matches Some(u) ==> resolved_client_url_of(j) == u@,
        j.client_url is None ==> resolved_client_url_of(j) == seq!['w', 's', ':', '/', '/']
            + j.bind_address@,
{
    reveal_strlit("ws://");
}

impl JrowConfig {
    /// Resolve the URL the sink's JrowClient should connect to
    pub fn resolved_client_url(&self) -> (url: String)
        ensures
            url@ == resolved_client_url_of(*self),
    {
        match &self.client_url {
            Some(u) => u.clone(),
            None => String::from_str("ws://").concat(self.bind_address.as_str()),
        }
    }
}

/// Kafka connection configuration shared by the source and sink
#[derive(Debug, Clone)]
pub struct KafkaConfig {
    /// Comma-separated list of Kafka bootstrap brokers (e.g. "localhost:9092")
    pub bootstrap_servers: String,
    /// Additional passthrough Kafka client options (key, value), each key once
    pub options: Vec<(String, String)>,
}

/// Kafka -> jrow configuration ("source" direction)
#[derive(Debug, Clone)]
pub struct SourceConfig {
    /// Enable the Kafka -> jrow direction
    pub enabled: bool,
    /// Kafka consumer group id
    pub group_id: String,
    /// Kafka topics to consume from
    pub topics: Vec<String>,
    /// Template used to derive the jrow topic from a Kafka topic name.
    /// The literal placeholder `{topic}` is replaced with the Kafka topic name.
    pub jrow_topic_template: String,
    /// Kafka `auto.offset.reset` policy ("earliest" or "latest")
    pub auto_offset_reset: String,
}

impl Default for SourceConfig {
    fn default() -> (c: Self)
        ensures
            !c.enabled,
            c.group_id@ == "jrow-kafka-gateway"@,
            c.topics@.len() == 0,
            c.jrow_topic_template@ == "kafka.{topic}"@,
            c.auto_offset_reset@ == "earliest"@,
    {
        SourceConfig {
            enabled: false,
            group_id: default_group_id(),
            topics: Vec::new(),
            jrow_topic_template: default_jrow_topic_template(),
            auto_offset_reset: default_auto_offset_reset(),
        }
    }
}

/// Default Kafka consumer group id
pub fn default_group_id() -> (s: String)
    ensures
        s@ == "jrow-kafka-gateway"@,
{
    String::from_str("jrow-kafka-gateway")
}

/// Default template of the jrow topic derived from a Kafka topic
pub fn default_jrow_topic_template() -> (s: String)
    ensures
        s@ == "kafka.{topic}"@,
{
    String::from_str("kafka.{topic}")
}

/// Default `auto.offset.reset` policy
pub fn default_auto_offset_reset() -> (s: String)
    ensures
        s@ == "earliest"@,
{
    String::from_str("earliest")
}

/// jrow -> Kafka configuration ("sink" direction)
#[derive(Debug, Clone)]
pub struct SinkConfig {
    /// Enable the jrow -> Kafka direction
    pub enabled: bool,
    /// Unique persistent subscription id for this sink
    pub subscription_id: String,
    /// jrow topic or pattern to subscribe to (e.g. "events.>" )
    pub jrow_topic: String,
    /// Template used to derive the Kafka topic from the delivered jrow topic.
    /// The literal placeholder `{topic}` is replaced with the jrow topic name.
    pub kafka_topic_template: String,
}

impl Default for SinkConfig {
    fn default() -> (c: Self)
        ensures
            !c.enabled,
            c.subscription_id@ == "jrow-kafka-gateway-sink"@,
            c.jrow_topic@.len() == 0,
            c.kafka_topic_template@ == "jrow.{topic}"@,
    {
        SinkConfig {
            enabled: false,
            subscription_id: default_subscription_id(),
            jrow_topic: String::new(),
            kafka_topic_template: default_kafka_topic_template(),
        }
    }
}

/// Default persistent subscription id of the sink
pub fn default_subscription_id() -> (s: String)
    ensures
        s@ == "jrow-kafka-gateway-sink"@,
{
    String::from_str("jrow-kafka-gateway-sink")
}

/// Default template of the Kafka topic derived from a jrow topic
pub fn default_kafka_topic_template() -> (s: String)
    ensures
        s@ == "jrow.{topic}"@,
{
    String::from_str("jrow.{topic}")
}

/// Health/stats HTTP endpoint configuration
#[derive(Debug, Clone)]
pub struct HealthConfig {
    pub enabled: bool,
    pub bind_address: String,
}

impl Default for HealthConfig {
    fn default() -> (c: Self)
        ensures
            !c.enabled,
            c.bind_address@ == "127.0.0.1:8090"@,
    {
        HealthConfig { enabled: false, bind_address: default_health_bind_address() }
    }
}

/// Default bind address of the health endpoint
pub fn default_health_bind_address() -> (s: String)
    ensures
        s@ == "127.0.0.1:8090"@,
{
    String::from_str("127.0.0.1:8090")
}

/// The first rule that `c` breaks, as the message that reports it, or `None`
/// when `c` is valid. The rules are checked in this order.
pub open spec fn config_problem(c: Config) -> Option<Seq<char>> {
    if c.jrow.bind_address@.len() == 0 {
        Some("jrow.bind_address cannot be empty"@)
    } else if c.jrow.persistent_storage_path@.len() == 0 {
        Some("jrow.persistent_storage_path cannot be empty"@)
    } else if c.kafka.bootstrap_servers@.len() == 0 {
        Some("kafka.bootstrap_servers cannot be empty"@)
    } else if !c.source.enabled && !c.sink.enabled {
        Some("at least one of source.enabled or sink.enabled must be true"@)
    } else if c.source.enabled && c.source.group_id@.len() == 0 {
        Some("source.group_id cannot be empty when source.enabled is true"@)
    } else if c.source.enabled && c.source.topics@.len() == 0 {
        Some("source.topics cannot be empty when source.enabled is true"@)
    } else if c.source.enabled && c.source.jrow_topic_template@.len() == 0 {
        Some("source.jrow_topic_template cannot be empty when source.enabled is true"@)
    } else if c.source.enabled && !contains_text(c.source.jrow_topic_template@, placeholder()) {
        Some("source.jrow_topic_template must contain the '{topic}' placeholder"@)
    } else if c.sink.enabled && c.sink.subscription_id@.len() == 0 {
        Some("sink.subscription_id cannot be empty when sink.enabled is true"@)
    } else if c.sink.enabled && c.sink.jrow_topic@.len() == 0 {
        Some("sink.jrow_topic cannot be empty when sink.enabled is true"@)
    } else if c.sink.enabled && c.sink.kafka_topic_template@.len() == 0 {
        Some("sink.kafka_topic_template cannot be empty when sink.enabled is true"@)
    } else if c.sink.enabled && !contains_text(c.sink.kafka_topic_template@, placeholder()) {
        Some("sink.kafka_topic_template must contain the '{topic}' placeholder"@)
    } else if c.health.enabled && c.health.bind_address@.len() == 0 {
        Some("health.bind_address cannot be empty when health.enabled is true"@)
    } else {
        None
    }
}

fn configuration_error(msg: &str) -> (e: GatewayError)
    ensures
        e matches GatewayError::Configuration(m) && m@ == msg@,
{
    GatewayError::Configuration(String::from_str(msg))
}

/// Every enabled part of a valid configuration has what it needs to start:
/// at least one direction is enabled, an enabled source has a consumer group
/// and topics, an enabled sink has a subscription and a topic pattern, and the
/// template of each enabled direction holds the `{topic}` placeholder, so that
/// `TopicTemplate::new` accepts it.
pub proof fn law_valid_config_is_runnable(c: Config)
    requires
        config_problem(c) is None,
    ensures
        c.source.enabled || c.sink.enabled,
        c.jrow.bind_address@.len() > 0,
        c.kafka.bootstrap_servers@.len() > 0,
        c.source.enabled ==> c.source.group_id@.len() > 0 && c.source.topics@.len() > 0
            && contains_text(c.source.jrow_topic_template@, placeholder()),
        c.sink.enabled ==> c.sink.subscription_id@.len() > 0 && c.sink.jrow_topic@.len() > 0
            && contains_text(c.sink.kafka_topic_template@, placeholder()),
        c.health.enabled ==> c.health.bind_address@.len() > 0,
{
}

/// Conversely, every configuration whose parts have what they need is
/// valid: non-empty bind address, storage path and brokers, a direction
/// enabled, an enabled source with a group id, at least one topic (any number
/// of them) and a template holding `{topic}`, an enabled sink with a
/// subscription id, a topic pattern and a template holding `{topic}`, and an
/// enabled health endpoint with a bind address.
pub proof fn law_runnable_config_is_valid(c: Config)
    requires
        c.jrow.bind_address@.len() > 0,
        c.jrow.persistent_storage_path@.len() > 0,
        c.kafka.bootstrap_servers@.len() > 0,
        c.source.enabled || c.sink.enabled,
        c.source.enabled ==> c.source.group_id@.len() > 0 && c.source.topics@.len() > 0
            && contains_text(c.source.jrow_topic_template@, placeholder()),
        c.sink.enabled ==> c.sink.subscription_id@.len() > 0 && c.sink.jrow_topic@.len() > 0
            && contains_text(c.sink.kafka_topic_template@, placeholder()),
        c.health.enabled ==> c.health.bind_address@.len() > 0,
    ensures
        config_problem(c) is None,
{
    if c.source.enabled {
        let w = choose|i: int| occurs_at(c.source.jrow_topic_template@, placeholder(), i);
        assert(occurs_at(c.source.jrow_topic_template@, placeholder(), w));
    }
    if c.sink.enabled {
        let w = choose|i: int| occurs_at(c.sink.kafka_topic_template@, placeholder(), i);
        assert(occurs_at(c.sink.kafka_topic_template@, placeholder(), w));
    }
}

impl Config {
    /// Create a default configuration (useful for testing)
    pub fn default_config() -> (c: Config)
        ensures
            c.jrow.bind_address@ == "127.0.0.1:9950"@,
            c.jrow.persistent_storage_path@ == "./data/kafka-gateway.db"@,
            c.jrow.client_url is None,
            c.kafka.bootstrap_servers@ == "localhost:9092"@,
            c.kafka.options@.len() == 0,
            c.source.enabled,
            c.source.group_id@ == "jrow-kafka-gateway"@,
            c.source.topics@.len() == 1,
            c.source.topics@[0]@ == "orders"@,
            c.source.jrow_topic_template@ == "kafka.{topic}"@,
            c.source.auto_offset_reset@ == "earliest"@,
            c.sink.enabled,
            c.sink.subscription_id@ == "jrow-kafka-gateway-sink"@,
            c.sink.jrow_topic@ == "events.>"@,
            c.sink.kafka_topic_template@ == "jrow.{topic}"@,
            !c.health.enabled,
            c.health.bind_address@ == "127.0.0.1:8090"@,
            config_problem(c) is None,
    {
        let c = Config {
            jrow: JrowConfig {
                bind_address: String::from_str("127.0.0.1:9950"),
                persistent_storage_path: String::from_str("./data/kafka-gateway.db"),
                client_url: None,
            },
            kafka: KafkaConfig {
                bootstrap_servers: String::from_str("localhost:9092"),
                options: Vec::new(),
            },
            source: SourceConfig {
                enabled: true,
                group_id: default_group_id(),
                topics: vec![String::from_str("orders")],
                jrow_topic_template: default_jrow_topic_template(),
                auto_offset_reset: default_auto_offset_reset(),
            },
            sink: SinkConfig {
                enabled: true,
                subscription_id: default_subscription_id(),
                jrow_topic: String::from_str("events.>"),
                kafka_topic_template: default_kafka_topic_template(),
            },
            health: HealthConfig::default(),
        };
        proof {
            reveal_strlit("127.0.0.1:9950");
            reveal_strlit("./data/kafka-gateway.db");
            reveal_strlit("localhost:9092");
            reveal_strlit("jrow-kafka-gateway");
            reveal_strlit("kafka.{topic}");
            reveal_strlit("jrow-kafka-gateway-sink");
            reveal_strlit("events.>");
            reveal_strlit("jrow.{topic}");
            assert(c.source.jrow_topic_template@.subrange(6, 13) =~= placeholder());
            assert(occurs_at(c.source.jrow_topic_template@, placeholder(), 6));
            assert(c.sink.kafka_topic_template@.subrange(5, 12) =~= placeholder());
            assert(occurs_at(c.sink.kafka_topic_template@, placeholder(), 5));
        }
        c
    }

    /// Validate configuration
    pub fn validate(&self) -> (r: Result<()>)
        ensures
            r is Ok <==> config_problem(*self) is None,
            r matches Err(e) ==> e matches GatewayError::Configuration(m) && Some(m@)
                == config_problem(*self),
    {
        proof {
            lemma_placeholder_const();
        }
        if self.jrow.bind_address.as_str().is_empty() {
            return Err(configuration_error("jrow.bind_address cannot be empty"));
        }
        if self.jrow.persistent_storage_path.as_str().is_empty() {
            return Err(configuration_error("jrow.persistent_storage_path cannot be empty"));
        }
        if self.kafka.bootstrap_servers.as_str().is_empty() {
            return Err(configuration_error("kafka.bootstrap_servers cannot be empty"));
        }
        if !self.source.enabled && !self.sink.enabled {
            return Err(
                configuration_error("at least one of source.enabled or sink.enabled must be true"),
            );
        }
        if self.source.enabled {
            if self.source.group_id.as_str().is_empty() {
                return Err(
                    configuration_error(
                        "source.group_id cannot be empty when source.enabled is true",
                    ),
                );
            }
            if self.source.topics.is_empty() {
                return Err(
                    configuration_error("source.topics cannot be empty when source.enabled is true"),
                );
            }
            if self.source.jrow_topic_template.as_str().is_empty() {
                return Err(
                    configuration_error(
                        "source.jrow_topic_template cannot be empty when source.enabled is true",
                    ),
                );
            }
            if !contains(self.source.jrow_topic_template.as_str(), PLACEHOLDER) {
                return Err(
                    configuration_error(
                        "source.jrow_topic_template must contain the '{topic}' placeholder",
                    ),
                );
            }
        }
        if self.sink.enabled {
            if self.sink.subscription_id.as_str().is_empty() {
                return Err(
                    configuration_error(
                        "sink.subscription_id cannot be empty when sink.enabled is true",
                    ),
                );
            }
            if self.sink.jrow_topic.as_str().is_empty() {
                return Err(
                    configuration_error("sink.jrow_topic cannot be empty when sink.enabled is true"),
                );
            }
            if self.sink.kafka_topic_template.as_str().is_empty() {
                return Err(
                    configuration_error(
                        "sink.kafka_topic_template cannot be empty when sink.enabled is true",
                    ),
                );
            }
            if !contains(self.sink.kafka_topic_template.as_str(), PLACEHOLDER) {
                return Err(
                    configuration_error(
                        "sink.kafka_topic_template must contain the '{topic}' placeholder",
                    ),
                );
            }
        }
        if self.health.enabled && self.health.bind_address.as_str().is_empty() {
            return Err(
                configuration_error(
                    "health.bind_address cannot be empty when health.enabled is true",
                ),
            );
        }
        Ok(())
    }
}


/// Pattern of a reference to an environment variable: `${NAME}`.
pub const ENV_VAR_PATTERN: &'static str = "\\$\\{([A-Za-z_][A-Za-z0-9_]*)\\}";

/// The views of a list of text pairs.
pub open spec fn pairs_view(v: Seq<(String, String)>) -> Seq<(Seq<char>, Seq<char>)> {
    v.map_values(|e: (String, String)| (e.0@, e.1@))
}

/// A character that may start a variable name: `[A-Za-z_]`.
pub open spec fn is_name_start(c: char) -> bool {
    c == '_' || ('A' <= c && c <= 'Z') || ('a' <= c && c <= 'z')
}

/// A character that may continue a variable name: `[A-Za-z0-9_]`.
pub open spec fn is_name_char(c: char) -> bool {
    is_name_start(c) || ('0' <= c && c <= '9')
}

/// The number of name characters in `s` from index `i` on, up to the first
/// other character.
pub open spec fn name_run(s: Seq<char>, i: int) -> nat
    decreases s.len() - i,
{
    if 0 <= i < s.len() && is_name_char(s[i]) {
        1 + name_run(s, i + 1)
    } else {
        0
    }
}

/// The length of the name of the reference `${NAME}` that starts at index
/// `i` of `s`, where one does.
pub open spec fn reference_at(s: Seq<char>, i: int) -> Option<nat> {
    if 0 <= i && i + 2 < s.len() && s[i] == '$' && s[i + 1] == '{' && is_name_start(s[i + 2]) {
        let n = name_run(s, i + 2);
        if i + 2 + n < s.len() && s[i + 2 + n] == '}' {
            Some(n)
        } else {
            None
        }
    } else {
        None
    }
}

/// The references `${NAME}` in `s` from index `i` on, leftmost first and not
/// overlapping, each as the reference's text and its name.
pub open spec fn references_from(s: Seq<char>, i: int) -> Seq<(Seq<char>, Seq<char>)>
    decreases s.len() - i,
{
    if i < 0 || i >= s.len() {
        Seq::empty()
    } else {
        match reference_at(s, i) {
            Some(n) => seq![(s.subrange(i, i + 3 + n), s.subrange(i + 2, i + 2 + n))]
                + references_from(s, i + 3 + n),
            None => references_from(s, i + 1),
        }
    }
}

/// The references `${NAME}` in `s`, leftmost first and not overlapping: the
/// matches of the pattern `\$\{([A-Za-z_][A-Za-z0-9_]*)\}`.
pub open spec fn env_var_references(s: Seq<char>) -> Seq<(Seq<char>, Seq<char>)> {
    references_from(s, 0)
}

/// Compiles `pattern` with `regex::Regex::new` and collects, over
/// `Regex::captures_iter(haystack)`, the texts of groups 0 and 1 of each match.
/// The pattern is the variable-reference pattern, which compiles and always has
/// group 1, so the call does not panic. Claimed: `captures_iter` yields the
/// leftmost-first, non-overlapping matches (the regex crate's documented
/// semantics); for this pattern a match starts where `${`, a name start
/// character, the longest run of name characters and `}` follow, group 0 is
/// the whole match and group 1 the name.
#[verifier::external_body]
fn captures_of(pattern: &str, haystack: &str) -> (caps: Vec<(String, String)>)
    requires
        pattern@ == ENV_VAR_PATTERN@,
    ensures
        pairs_view(caps@) == env_var_references(haystack@),
{
    let re = regex::Regex::new(pattern).unwrap();
    re.captures_iter(haystack).map(|c| (c[0].to_string(), c[1].to_string())).collect()
}

/// The value of the first entry named `name` in `env`.
pub open spec fn env_lookup(env: Seq<(Seq<char>, Seq<char>)>, name: Seq<char>) -> Option<
    Seq<char>,
>
    decreases env.len(),
{
    if env.len() == 0 {
        None
    } else if env[0].0 == name {
        Some(env[0].1)
    } else {
        env_lookup(env.drop_first(), name)
    }
}

/// `text` after, for each reference `(full, name)` in turn, every occurrence of
/// `full` has been replaced by the value of `name`, where `name` is set.
pub open spec fn substituted(
    text: Seq<char>,
    refs: Seq<(Seq<char>, Seq<char>)>,
    env: Seq<(Seq<char>, Seq<char>)>,
) -> Seq<char>
    decreases refs.len(),
{
    if refs.len() == 0 {
        text
    } else {
        let next = match env_lookup(env, refs[0].1) {
            Some(v) => replace_all(text, refs[0].0, v),
            None => text,
        };
        substituted(next, refs.drop_first(), env)
    }
}

/// A variable's value is that of the first entry whose name is exactly the
/// variable's name; a variable is unset exactly when no entry has its name.
pub proof fn law_env_lookup_takes_exact_name(env: Seq<(Seq<char>, Seq<char>)>, name: Seq<char>)
    ensures
        env_lookup(env, name) matches Some(v) ==> exists|k: int|
            0 <= k < env.len() && env[k].0 == name && env[k].1 == v && forall|j: int|
                0 <= j < k ==> #[trigger] env[j].0 != name,
        env_lookup(env, name) is None <==> forall|k: int| 0 <= k < env.len() ==> #[trigger] env[k].0 != name,
    decreases env.len(),
{
    if env.len() > 0 {
        law_env_lookup_takes_exact_name(env.drop_first(), name);
        if env[0].0 == name {
            assert(!(forall|k: int| 0 <= k < env.len() ==> #[trigger] env[k].0 != name));
        } else {
            if env_lookup(env, name) is Some {
                let v = env_lookup(env, name)->0;
                let k = choose|k: int|
                    0 <= k < env.drop_first().len() && env.drop_first()[k].0 == name
                        && env.drop_first()[k].1 == v && forall|j: int|
                        0 <= j < k ==> #[trigger] env.drop_first()[j].0 != name;
                assert(env[k + 1] == env.drop_first()[k]);
                assert forall|j: int| 0 <= j < k + 1 implies #[trigger] env[j].0 != name by {
                    if j > 0 {
                        assert(env[j] == env.drop_first()[j - 1]);
                    }
                }
            }
            assert((forall|k: int| 0 <= k < env.len() ==> #[trigger] env[k].0 != name) <==> (
            forall|k: int| 0 <= k < env.drop_first().len() ==> #[trigger] env.drop_first()[k].0
                != name)) by {
                assert forall|k: int| 0 <= k < env.drop_first().len() implies env.drop_first()[k]
                    == env[k + 1] by {}
                assert forall|k: int| 1 <= k < env.len() implies env[k] == env.drop_first()[k
                    - 1] by {}
            }
        }
    }
}

/// The value of the variable `name` in `env`, if it is set there.
fn lookup_var(env: &Vec<(String, String)>, name: &String) -> (v: Option<String>)
    ensures
        v matches Some(x) ==> env_lookup(pairs_view(env@), name@) == Some(x@),
        v is None ==> env_lookup(pairs_view(env@), name@) is None,
{
    let ghost ev = pairs_view(env@);
    let mut i: usize = 0;
    assert(ev.skip(0) =~= ev);
    while i < env.len()
        invariant
            ev == pairs_view(env@),
            i <= env.len(),
            env_lookup(ev, name@) == env_lookup(ev.skip(i as int), name@),
        decreases env.len() - i,
    {
        assert(ev.skip(i as int).drop_first() =~= ev.skip(i + 1));
        if env[i].0 == *name {
            return Some(env[i].1.clone());
        }
        i = i + 1;
    }
    assert(ev.skip(i as int) =~= Seq::<(Seq<char>, Seq<char>)>::empty());
    None
}

/// Replaces, for each reference `(full, name)` of `refs` in turn, every
/// occurrence of `full` in the text by the value of `name` in `env`; a
/// reference to a variable that is not set is left as it is.
pub fn apply_env_substitutions(
    content: &str,
    refs: &Vec<(String, String)>,
    env: &Vec<(String, String)>,
) -> (res: String)
    ensures
        res@ == substituted(content@, pairs_view(refs@), pairs_view(env@)),
{
    let ghost rv = pairs_view(refs@);
    let ghost ev = pairs_view(env@);
    let mut result = String::from_str(content);
    let mut k: usize = 0;
    assert(rv.skip(0) =~= rv);
    while k < refs.len()
        invariant
            rv == pairs_view(refs@),
            ev == pairs_view(env@),
            k <= refs.len(),
            substituted(result@, rv.skip(k as int), ev) == substituted(content@, rv, ev),
        decreases refs.len() - k,
    {
        assert(rv.skip(k as int).drop_first() =~= rv.skip(k + 1));
        assert(rv.skip(k as int)[0] == rv[k as int]);
        let value = lookup_var(env, &refs[k].1);
        match value {
            Some(v) => {
                result = replace_text(result.as_str(), refs[k].0.as_str(), v.as_str());
            },
            None => {},
        }
        k = k + 1;
    }
    result
}

/// Substitute environment variables in the form ${VAR_NAME}, taking their
/// values from `env`, a list of (name, value) pairs.
pub fn substitute_env_vars(content: &str, env: &Vec<(String, String)>) -> (res: String)
    ensures
        res@ == substituted(
            content@,
            env_var_references(content@),
            pairs_view(env@),
        ),
{
    let refs = captures_of(ENV_VAR_PATTERN, content);
    apply_env_substitutions(content, &refs, env)
}

/// References to variables that are not set leave the text as it is.
pub proof fn law_unset_variables_are_kept(
    text: Seq<char>,
    refs: Seq<(Seq<char>, Seq<char>)>,
    env: Seq<(Seq<char>, Seq<char>)>,
)
    requires
        forall|k: int| 0 <= k < refs.len() ==> env_lookup(env, #[trigger] refs[k].1) is None,
    ensures
        substituted(text, refs, env) == text,
    decreases refs.len(),
{
    if refs.len() > 0 {
        assert(env_lookup(env, refs[0].1) is None);
        assert forall|k: int| 0 <= k < refs.drop_first().len() implies env_lookup(
            env,
            #[trigger] refs.drop_first()[k].1,
        ) is None by {
            assert(refs.drop_first()[k] == refs[k + 1]);
        }
        law_unset_variables_are_kept(text, refs.drop_first(), env);
    }
}


/// The opening of a variable reference: `${`.
pub open spec fn reference_opener() -> Seq<char> {
    seq!['$', '{']
}

/// The reference `${NAME}` to the variable `name`.
pub open spec fn reference_to(name: Seq<char>) -> Seq<char> {
    reference_opener() + name + seq!['}']
}

/// A variable name: a name start character followed by name characters.
pub open spec fn is_name(name: Seq<char>) -> bool {
    &&& name.len() > 0
    &&& is_name_start(name[0])
    &&& forall|k: int| 0 <= k < name.len() ==> #[trigger] is_name_char(name[k])
}

proof fn lemma_name_run(s: Seq<char>, start: int, n: int, k: int)
    requires
        0 <= start,
        0 <= k <= n,
        start + n < s.len(),
        forall|j: int| start <= j < start + n ==> #[trigger] is_name_char(s[j]),
        s[start + n] == '}',
    ensures
        name_run(s, start + k) == n - k,
    decreases n - k,
{
    if k < n {
        lemma_name_run(s, start, n, k + 1);
        assert(is_name_char(s[start + k]));
    }
}

proof fn lemma_no_references_from(s: Seq<char>, i: int, from: int)
    requires
        0 <= from <= i,
        !contains_text(s.skip(from), reference_opener()),
    ensures
        references_from(s, i) == Seq::<(Seq<char>, Seq<char>)>::empty(),
    decreases s.len() - i,
{
    if i < s.len() {
        if i + 2 < s.len() && s[i] == '$' && s[i + 1] == '{' {
            assert(s.skip(from).subrange(i - from, i - from + 2) =~= reference_opener());
            assert(occurs_at(s.skip(from), reference_opener(), i - from));
        }
        lemma_no_references_from(s, i + 1, from);
    }
}

proof fn lemma_references_skip_prefix(s: Seq<char>, prefix: Seq<char>, i: int)
    requires
        0 <= i <= prefix.len(),
        prefix.len() + 1 < s.len(),
        s.subrange(0, prefix.len() as int) == prefix,
        s[prefix.len() as int] == '$',
        s[prefix.len() as int + 1] == '{',
        !contains_text(prefix, reference_opener()),
    ensures
        references_from(s, i) == references_from(s, prefix.len() as int),
    decreases prefix.len() - i,
{
    if i < prefix.len() {
        if s[i] == '$' && s[i + 1] == '{' {
            if i + 1 < prefix.len() {
                assert(prefix[i] == s[i]);
                assert(prefix[i + 1] == s[i + 1]);
                assert(prefix.subrange(i, i + 2) =~= reference_opener());
                assert(occurs_at(prefix, reference_opener(), i));
            }
        }
        lemma_references_skip_prefix(s, prefix, i + 1);
    }
}

/// A text in which `${` does not occur holds no reference and is kept as it is.
pub proof fn law_text_without_references_is_kept(text: Seq<char>, env: Seq<(Seq<char>, Seq<char>)>)
    requires
        !contains_text(text, reference_opener()),
    ensures
        env_var_references(text).len() == 0,
        substituted(text, env_var_references(text), env) == text,
{
    assert(text.skip(0) =~= text);
    lemma_no_references_from(text, 0, 0);
}

/// A text with one reference `${NAME}`, and no other `${` before or after it,
/// gets the value of `NAME` in place of the reference where `NAME` is set, and
/// is left as it is where it is not.
pub proof fn law_single_reference_is_substituted(
    prefix: Seq<char>,
    name: Seq<char>,
    suffix: Seq<char>,
    env: Seq<(Seq<char>, Seq<char>)>,
)
    requires
        is_name(name),
        !contains_text(prefix, reference_opener()),
        !contains_text(suffix, reference_opener()),
    ensures
        ({
            let text = prefix + reference_to(name) + suffix;
            substituted(text, env_var_references(text), env) == match env_lookup(env, name) {
                Some(v) => prefix + v + suffix,
                None => text,
            }
        }),
{
    let r = reference_to(name);
    let text = prefix + r + suffix;
    let p = prefix.len() as int;
    let n = name.len() as int;
    // The one reference starts right after the prefix.
    assert(text.subrange(0, p) =~= prefix);
    assert(text[p] == '$');
    assert(text[p + 1] == '{');
    lemma_references_skip_prefix(text, prefix, 0);
    assert forall|j: int| p + 2 <= j < p + 2 + n implies #[trigger] is_name_char(text[j]) by {
        assert(text[j] == name[j - p - 2]);
    }
    assert(text[p + 2 + n] == '}');
    lemma_name_run(text, p + 2, n, 0);
    assert(text[p + 2] == name[0]);
    assert(reference_at(text, p) == Some(n as nat));
    assert(text.subrange(p, p + 3 + n) =~= r);
    assert(text.subrange(p + 2, p + 2 + n) =~= name);
    assert(text.skip(p + 3 + n) =~= suffix);
    lemma_no_references_from(text, p + 3 + n, p + 3 + n);
    let refs = env_var_references(text);
    assert(refs =~= seq![(r, name)]);
    assert(refs.drop_first() =~= Seq::<(Seq<char>, Seq<char>)>::empty());
    reveal_with_fuel(substituted, 2);
    match env_lookup(env, name) {
        Some(v) => {
            assert(r.subrange(0, 2) =~= reference_opener());
            lemma_absent_extension(prefix, reference_opener(), r);
            lemma_absent_extension(suffix, reference_opener(), r);
            assert forall|k: int| 0 < k < r.len() implies #[trigger] r[k] != r[0] by {
                if 2 <= k < 2 + n {
                    assert(r[k] == name[k - 2]);
                    assert(is_name_char(name[k - 2]));
                }
            }
            lemma_replace_first_occurrence(prefix, r, suffix, v);
            lemma_replace_absent(suffix, r, v);
        },
        None => {},
    }
}

} // verus!
