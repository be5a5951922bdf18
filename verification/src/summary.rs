//! The human-readable summary of a configuration, line by line.

use vstd::prelude::*;
use vstd::string::*;

use crate::config::{resolved_client_url_of, Config};
use crate::text::{join, joined};

verus! {

/// The topics of the source, joined with `, `.
pub open spec fn topics_text(c: Config) -> Seq<char> {
    joined(c.source.topics@.map_values(|s: String| s@), ", "@)
}

/// The lines of the configuration summary, in order.
pub open spec fn summary_lines(c: Config) -> Seq<Seq<char>> {
    seq![
        "\n📋 Configuration Summary:"@,
        "  ├─ jrow Bind Address:  "@ + c.jrow.bind_address@,
        "  ├─ jrow Storage Path:  "@ + c.jrow.persistent_storage_path@,
        "  ├─ jrow Client URL:    "@ + resolved_client_url_of(c.jrow),
        "  ├─ Kafka Brokers:      "@ + c.kafka.bootstrap_servers@,
    ] + (if c.source.enabled {
        seq![
            "  ├─ Source (Kafka->jrow): enabled"@,
            "  │  ├─ Topics:          "@ + topics_text(c),
            "  │  ├─ Group ID:        "@ + c.source.group_id@,
            "  │  └─ jrow Template:   "@ + c.source.jrow_topic_template@,
        ]
    } else {
        seq!["  ├─ Source (Kafka->jrow): disabled"@]
    }) + (if c.sink.enabled {
        seq![
            "  ├─ Sink (jrow->Kafka):   enabled"@,
            "  │  ├─ Subscription ID: "@ + c.sink.subscription_id@,
            "  │  ├─ jrow Topic:      "@ + c.sink.jrow_topic@,
            "  │  └─ Kafka Template:  "@ + c.sink.kafka_topic_template@,
        ]
    } else {
        seq!["  ├─ Sink (jrow->Kafka):   disabled"@]
    }) + (if c.health.enabled {
        seq!["  └─ Health Endpoint:    "@ + c.health.bind_address@]
    } else {
        seq!["  └─ Health Endpoint:    disabled"@]
    })
}

/// `line` ends with `value`.
pub open spec fn shows_at_end(line: Seq<char>, value: Seq<char>) -> bool {
    value.len() <= line.len() && line.skip(line.len() - value.len()) == value
}

proof fn lemma_label_then_value(label: Seq<char>, value: Seq<char>)
    ensures
        shows_at_end(label + value, value),
{
    assert((label + value).skip(label.len() as int) =~= value);
}

/// The summary shows each setting the gateway runs with at the end of a line
/// of its own: the jrow addresses, storage and client URL, the brokers, then
/// the topics, group and template of an enabled source, the subscription,
/// topic and template of an enabled sink, and the address of an enabled health
/// endpoint, last.
pub proof fn law_summary_shows_config(c: Config)
    ensures
        ({
            let l = summary_lines(c);
            let s: int = if c.source.enabled { 4 } else { 1 };
            let k: int = if c.sink.enabled { 4 } else { 1 };
            &&& l.len() == 5 + s + k + 1
            &&& shows_at_end(l[1], c.jrow.bind_address@)
            &&& shows_at_end(l[2], c.jrow.persistent_storage_path@)
            &&& shows_at_end(l[3], resolved_client_url_of(c.jrow))
            &&& shows_at_end(l[4], c.kafka.bootstrap_servers@)
            &&& c.source.enabled ==> shows_at_end(l[6], topics_text(c)) && shows_at_end(
                l[7],
                c.source.group_id@,
            ) && shows_at_end(l[8], c.source.jrow_topic_template@)
            &&& c.sink.enabled ==> shows_at_end(l[5 + s + 1], c.sink.subscription_id@)
                && shows_at_end(l[5 + s + 2], c.sink.jrow_topic@) && shows_at_end(
                l[5 + s + 3],
                c.sink.kafka_topic_template@,
            )
            &&& c.health.enabled ==> shows_at_end(l[5 + s + k], c.health.bind_address@)
        }),
{
    let l = summary_lines(c);
    lemma_label_then_value("  ├─ jrow Bind Address:  "@, c.jrow.bind_address@);
    lemma_label_then_value("  ├─ jrow Storage Path:  "@, c.jrow.persistent_storage_path@);
    lemma_label_then_value("  ├─ jrow Client URL:    "@, resolved_client_url_of(c.jrow));
    lemma_label_then_value("  ├─ Kafka Brokers:      "@, c.kafka.bootstrap_servers@);
    lemma_label_then_value("  │  ├─ Topics:          "@, topics_text(c));
    lemma_label_then_value("  │  ├─ Group ID:        "@, c.source.group_id@);
    lemma_label_then_value("  │  └─ jrow Template:   "@, c.source.jrow_topic_template@);
    lemma_label_then_value("  │  ├─ Subscription ID: "@, c.sink.subscription_id@);
    lemma_label_then_value("  │  ├─ jrow Topic:      "@, c.sink.jrow_topic@);
    lemma_label_then_value("  │  └─ Kafka Template:  "@, c.sink.kafka_topic_template@);
    lemma_label_then_value("  └─ Health Endpoint:    "@, c.health.bind_address@);
}

fn line(label: &str, value: &str) -> (s: String)
    ensures
        s@ == label@ + value@,
{
    String::from_str(label).concat(value)
}

/// The lines of the configuration summary printed before a connectivity test.
pub fn config_summary_lines(config: &Config) -> (lines: Vec<String>)
    ensures
        lines@.map_values(|s: String| s@) == summary_lines(*config),
{
    let mut lines: Vec<String> = Vec::new();
    lines.push(String::from_str("\n📋 Configuration Summary:"));
    lines.push(line("  ├─ jrow Bind Address:  ", config.jrow.bind_address.as_str()));
    lines.push(line("  ├─ jrow Storage Path:  ", config.jrow.persistent_storage_path.as_str()));
    let url = config.jrow.resolved_client_url();
    lines.push(line("  ├─ jrow Client URL:    ", url.as_str()));
    lines.push(line("  ├─ Kafka Brokers:      ", config.kafka.bootstrap_servers.as_str()));
    if config.source.enabled {
        lines.push(String::from_str("  ├─ Source (Kafka->jrow): enabled"));
        let topics = join(&config.source.topics, ", ");
        lines.push(line("  │  ├─ Topics:          ", topics.as_str()));
        lines.push(line("  │  ├─ Group ID:        ", config.source.group_id.as_str()));
        lines.push(line("  │  └─ jrow Template:   ", config.source.jrow_topic_template.as_str()));
    } else {
        lines.push(String::from_str("  ├─ Source (Kafka->jrow): disabled"));
    }
    if config.sink.enabled {
        lines.push(String::from_str("  ├─ Sink (jrow->Kafka):   enabled"));
        lines.push(line("  │  ├─ Subscription ID: ", config.sink.subscription_id.as_str()));
        lines.push(line("  │  ├─ jrow Topic:      ", config.sink.jrow_topic.as_str()));
        lines.push(line("  │  └─ Kafka Template:  ", config.sink.kafka_topic_template.as_str()));
    } else {
        lines.push(String::from_str("  ├─ Sink (jrow->Kafka):   disabled"));
    }
    if config.health.enabled {
        lines.push(line("  └─ Health Endpoint:    ", config.health.bind_address.as_str()));
    } else {
        lines.push(String::from_str("  └─ Health Endpoint:    disabled"));
    }
    assert(lines@.map_values(|s: String| s@) =~= summary_lines(*config));
    lines
}

} // verus!
