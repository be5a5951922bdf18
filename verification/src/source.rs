//! Kafka -> jrow bridge: the decisions of the consume -> publish -> commit
//! cycle, the consumer's client settings and the JSON envelope of a message.

use vstd::arithmetic::div_mod::{lemma_add_mod_noop_right, lemma_mod_self_0, lemma_small_mod};
use vstd::prelude::*;
use vstd::slice::slice_to_vec;
use vstd::string::*;
use vstd::utf8::{decode_utf8, valid_utf8};

use crate::config::{pairs_view, KafkaConfig, SourceConfig};
use crate::error::{GatewayError, Result};
use crate::text::contains_text;
use crate::topic_map::{missing_placeholder_message, placeholder, rendered, TopicTemplate};

verus! {

/// The counter after one more event; it wraps around at `u64::MAX`.
pub open spec fn bump(x: u64) -> u64 {
    if x == u64::MAX {
        0
    } else {
        (x + 1) as u64
    }
}

/// One more event on a counter: wrapping addition of one.
pub fn bumped(x: u64) -> (y: u64)
    ensures
        y == bump(x),
{
    x.wrapping_add(1)
}

/// Snapshot of Kafka -> jrow bridge statistics
#[derive(Debug, Clone, Copy, PartialEq, Eq)]
pub struct SourceStats {
    pub messages_consumed: u64,
    pub messages_published: u64,
    pub publish_errors: u64,
}

/// Statistics before any message.
pub open spec fn zero_source_stats() -> SourceStats {
    SourceStats { messages_consumed: 0, messages_published: 0, publish_errors: 0 }
}

impl Default for SourceStats {
    fn default() -> (s: Self)
        ensures
            s == zero_source_stats(),
    {
        SourceStats { messages_consumed: 0, messages_published: 0, publish_errors: 0 }
    }
}

/// Statistics after a message was received from Kafka.
pub open spec fn after_consumed(s: SourceStats) -> SourceStats {
    SourceStats { messages_consumed: bump(s.messages_consumed), ..s }
}

/// Statistics after the publish of a received message into jrow succeeded
/// (`published`) or failed.
pub open spec fn after_publish(s: SourceStats, published: bool) -> SourceStats {
    if published {
        SourceStats { messages_published: bump(s.messages_published), ..s }
    } else {
        SourceStats { publish_errors: bump(s.publish_errors), ..s }
    }
}

/// What becomes of a message's Kafka offset once its publish into jrow is over.
#[derive(Debug, Clone, Copy, PartialEq, Eq)]
pub enum OffsetDecision {
    /// The message is durably in jrow: commit its offset.
    Commit,
    /// The publish failed: leave the offset uncommitted so Kafka redelivers it.
    Keep,
}

/// The number of values of a 64-bit counter.
pub open spec fn counter_modulus() -> int {
    0x1_0000_0000_0000_0000
}

/// One more event on a counter is adding one modulo the counter's range.
pub proof fn lemma_bump_is_modular(x: u64)
    ensures
        bump(x) as int == (x as int + 1) % counter_modulus(),
{
    if x == u64::MAX {
        lemma_mod_self_0(counter_modulus());
    } else {
        lemma_small_mod((x + 1) as nat, counter_modulus() as nat);
    }
}

/// Adding to a value taken modulo `counter_modulus()` and reducing again is
/// the same as adding first.
pub proof fn lemma_mod_absorbs(a: int, b: int)
    ensures
        ((a % counter_modulus()) + b) % counter_modulus() == (a + b) % counter_modulus(),
{
    lemma_add_mod_noop_right(b, a, counter_modulus());
}

/// The counters balance: every consumed message is published, failed, or
/// still being published (counting modulo the counters' range).
pub open spec fn source_balanced(s: SourceStats, in_flight: u64) -> bool {
    (s.messages_published + s.publish_errors + in_flight) % counter_modulus()
        == s.messages_consumed as int
}

/// The statistics together with the number of messages whose publish is not
/// over yet.
#[derive(Debug)]
struct SourceCounters {
    stats: SourceStats,
    in_flight: u64,
}

/// The decision state of the Kafka -> jrow direction: the template that maps
/// Kafka topics to jrow topics, and the statistics.
#[derive(Debug)]
pub struct SourceBridge {
    template: TopicTemplate,
    counters: SourceCounters,
}

impl SourceBridge {
    #[verifier::type_invariant]
    spec fn counters_balance(&self) -> bool {
        source_balanced(self.counters.stats, self.counters.in_flight)
    }

    /// The template that maps Kafka topics to jrow topics.
    pub closed spec fn template_text(&self) -> Seq<char> {
        self.template@
    }

    /// The current statistics.
    pub closed spec fn current_stats(&self) -> SourceStats {
        self.counters.stats
    }

    /// The number of received messages whose publish is not over yet.
    pub closed spec fn pending(&self) -> u64 {
        self.counters.in_flight
    }

    /// A bridge for the configured template, with all counters at zero.
    pub fn new(source: &SourceConfig) -> (r: Result<SourceBridge>)
        ensures
            r is Ok <==> contains_text(source.jrow_topic_template@, placeholder()),
            r matches Ok(b) ==> b.template_text() == source.jrow_topic_template@
                && b.current_stats() == zero_source_stats() && b.pending() == 0,
            r matches Err(e) ==> e matches GatewayError::TopicMapping(m) && m@
                == missing_placeholder_message(source.jrow_topic_template@),
    {
        let template = TopicTemplate::new(source.jrow_topic_template.as_str())?;
        proof {
            lemma_small_mod(0, counter_modulus() as nat);
        }
        Ok(
            SourceBridge {
                template,
                counters: SourceCounters { stats: SourceStats::default(), in_flight: 0 },
            },
        )
    }

    /// A message was received from the Kafka topic `kafka_topic`: count it and
    /// give the jrow topic to publish it to. Its publish is then pending.
    pub fn on_message(&mut self, kafka_topic: &str) -> (jrow_topic: String)
        ensures
            final(self).current_stats() == after_consumed(old(self).current_stats()),
            final(self).pending() == bump(old(self).pending()),
            final(self).template_text() == old(self).template_text(),
            jrow_topic@ == rendered(old(self).template_text(), kafka_topic@),
    {
        proof {
            use_type_invariant(&*self);
        }
        let old_stats = self.counters.stats;
        let old_in_flight = self.counters.in_flight;
        proof {
            lemma_bump_is_modular(old_stats.messages_consumed);
            lemma_bump_is_modular(old_in_flight);
            let base = old_stats.messages_published + old_stats.publish_errors;
            lemma_mod_absorbs(old_in_flight as int + 1, base);
            lemma_mod_absorbs(base + old_in_flight, 1);
        }
        self.counters = SourceCounters {
            stats: SourceStats {
                messages_consumed: bumped(old_stats.messages_consumed),
                ..old_stats
            },
            in_flight: bumped(old_in_flight),
        };
        self.template.render(kafka_topic)
    }

    /// The publish of a pending message into jrow is over: count its outcome
    /// and decide on the Kafka offset. The offset is committed only after a
    /// successful publish, so a failure leads to redelivery, not to loss.
    pub fn on_publish_result(&mut self, published: bool) -> (d: OffsetDecision)
        requires
            old(self).pending() > 0,
        ensures
            final(self).current_stats() == after_publish(old(self).current_stats(), published),
            final(self).pending() == old(self).pending() - 1,
            final(self).template_text() == old(self).template_text(),
            d == (if published {
                OffsetDecision::Commit
            } else {
                OffsetDecision::Keep
            }),
    {
        proof {
            use_type_invariant(&*self);
        }
        let old_stats = self.counters.stats;
        let in_flight = self.counters.in_flight - 1;
        if published {
            proof {
                lemma_bump_is_modular(old_stats.messages_published);
                lemma_mod_absorbs(
                    old_stats.messages_published + 1,
                    old_stats.publish_errors + in_flight,
                );
            }
            self.counters = SourceCounters {
                stats: SourceStats {
                    messages_published: bumped(old_stats.messages_published),
                    ..old_stats
                },
                in_flight,
            };
            OffsetDecision::Commit
        } else {
            proof {
                lemma_bump_is_modular(old_stats.publish_errors);
                lemma_mod_absorbs(
                    old_stats.publish_errors + 1,
                    old_stats.messages_published + in_flight,
                );
            }
            self.counters = SourceCounters {
                stats: SourceStats { publish_errors: bumped(old_stats.publish_errors), ..old_stats },
                in_flight,
            };
            OffsetDecision::Keep
        }
    }

    /// The number of received messages whose publish is not over yet.
    pub fn pending_publishes(&self) -> (n: u64)
        ensures
            n == self.pending(),
    {
        self.counters.in_flight
    }

    /// Current statistics snapshot. Every consumed message is published,
    /// failed or pending; so when no publish is pending (and the counters have
    /// not wrapped), the consumed messages are exactly the published ones and
    /// the failed ones.
    pub fn stats(&self) -> (s: SourceStats)
        ensures
            s == self.current_stats(),
            source_balanced(s, self.pending()),
            self.pending() == 0 && s.messages_published + s.publish_errors <= u64::MAX
                ==> s.messages_consumed == s.messages_published + s.publish_errors,
    {
        proof {
            use_type_invariant(self);
            if self.pending() == 0 && self.counters.stats.messages_published
                + self.counters.stats.publish_errors <= u64::MAX {
                lemma_small_mod(
                    (self.counters.stats.messages_published
                        + self.counters.stats.publish_errors) as nat,
                    counter_modulus() as nat,
                );
            }
        }
        self.counters.stats
    }

    /// The template that maps Kafka topics to jrow topics.
    pub fn template(&self) -> (t: &TopicTemplate)
        ensures
            t@ == self.template_text(),
    {
        &self.template
    }
}

/// Each consume-and-publish cycle counts one consumed message and exactly one
/// of a publish and a publish error; so, while the consumed counter does not
/// wrap, published messages and errors never outnumber consumed messages.
pub proof fn law_source_cycle_accounting(s: SourceStats, published: bool)
    requires
        s.messages_published + s.publish_errors <= s.messages_consumed,
        s.messages_consumed < u64::MAX,
    ensures
        ({
            let t = after_publish(after_consumed(s), published);
            &&& t.messages_consumed == s.messages_consumed + 1
            &&& t.messages_published + t.publish_errors == s.messages_published
                + s.publish_errors + 1
            &&& t.messages_published == s.messages_published + (if published {
                1int
            } else {
                0int
            })
            &&& t.messages_published + t.publish_errors <= t.messages_consumed
        }),
{
}

/// The client settings of the Kafka consumer: brokers, group, manual commits
/// and offset reset policy, followed by the passthrough options (which, set
/// later, take precedence).
pub open spec fn consumer_settings_of(kafka: KafkaConfig, source: SourceConfig) -> Seq<
    (Seq<char>, Seq<char>),
> {
    seq![
        ("bootstrap.servers"@, kafka.bootstrap_servers@),
        ("group.id"@, source.group_id@),
        ("enable.auto.commit"@, "false"@),
        ("auto.offset.reset"@, source.auto_offset_reset@),
    ] + pairs_view(kafka.options@)
}

fn setting(key: &str, value: &str) -> (p: (String, String))
    ensures
        p.0@ == key@,
        p.1@ == value@,
{
    (String::from_str(key), String::from_str(value))
}

/// The settings, in the order they are applied, to build the Kafka consumer of
/// the source direction.
pub fn consumer_settings(kafka: &KafkaConfig, source: &SourceConfig) -> (r: Vec<(String, String)>)
    ensures
        pairs_view(r@) == consumer_settings_of(*kafka, *source),
        r@.len() == 4 + kafka.options@.len(),
        r@[0].0@ == "bootstrap.servers"@ && r@[0].1@ == kafka.bootstrap_servers@,
        r@[1].0@ == "group.id"@ && r@[1].1@ == source.group_id@,
        r@[2].0@ == "enable.auto.commit"@ && r@[2].1@ == "false"@,
        r@[3].0@ == "auto.offset.reset"@ && r@[3].1@ == source.auto_offset_reset@,
        forall|i: int|
            0 <= i < kafka.options@.len() ==> r@[4 + i].0@ == kafka.options@[i].0@ && r@[4
                + i].1@ == kafka.options@[i].1@,
{
    let mut r: Vec<(String, String)> = Vec::new();
    r.push(setting("bootstrap.servers", kafka.bootstrap_servers.as_str()));
    r.push(setting("group.id", source.group_id.as_str()));
    r.push(setting("enable.auto.commit", "false"));
    r.push(setting("auto.offset.reset", source.auto_offset_reset.as_str()));
    append_settings(&mut r, &kafka.options);
    proof {
        law_consumer_settings_carry_config(*kafka, *source);
        let pv = pairs_view(r@);
        assert(pv.len() == r@.len());
        assert forall|i: int| 0 <= i < r@.len() implies (#[trigger] r@[i]).0@ == pv[i].0
            && r@[i].1@ == pv[i].1 by {}
        assert(r@[0].0@ == pv[0].0 && r@[1].0@ == pv[1].0 && r@[2].0@ == pv[2].0 && r@[3].0@
            == pv[3].0);
        assert forall|i: int| 0 <= i < kafka.options@.len() implies r@[4 + i].0@
            == kafka.options@[i].0@ && r@[4 + i].1@ == kafka.options@[i].1@ by {
            assert(r@[4 + i].0@ == pv[4 + i].0);
        }
    }
    r
}

/// The consumer is configured from the configuration it is given: the brokers
/// first, then the group id, manual commits, and the configured offset reset
/// policy, then each passthrough option in order.
pub proof fn law_consumer_settings_carry_config(kafka: KafkaConfig, source: SourceConfig)
    ensures
        ({
            let p = consumer_settings_of(kafka, source);
            &&& p.len() == 4 + kafka.options@.len()
            &&& p[0] == ("bootstrap.servers"@, kafka.bootstrap_servers@)
            &&& p[1] == ("group.id"@, source.group_id@)
            &&& p[2] == ("enable.auto.commit"@, "false"@)
            &&& p[3] == ("auto.offset.reset"@, source.auto_offset_reset@)
            &&& forall|i: int|
                0 <= i < kafka.options@.len() ==> p[4 + i] == (
                    kafka.options@[i].0@,
                    kafka.options@[i].1@,
                )
        }),
{
}

/// Appends copies of `extra` to `r`.
pub fn append_settings(r: &mut Vec<(String, String)>, extra: &Vec<(String, String)>)
    ensures
        pairs_view(final(r)@) == pairs_view(old(r)@) + pairs_view(extra@),
{
    let ghost start = pairs_view(r@);
    let mut i: usize = 0;
    while i < extra.len()
        invariant
            i <= extra.len(),
            pairs_view(r@) == start + pairs_view(extra@).take(i as int),
        decreases extra.len() - i,
    {
        let p = setting(extra[i].0.as_str(), extra[i].1.as_str());
        let ghost before = r@;
        let ghost item = (p.0@, p.1@);
        r.push(p);
        assert(pairs_view(r@) =~= pairs_view(before) + seq![item]);
        assert(pairs_view(extra@).take(i + 1) =~= pairs_view(extra@).take(i as int) + seq![item]);
        i = i + 1;
    }
    assert(pairs_view(extra@).take(i as int) =~= pairs_view(extra@));
}


/// The text `String::from_utf8_lossy` makes of `bytes`.
pub uninterp spec fn lossy_utf8(bytes: Seq<u8>) -> Seq<char>;

/// Whether `serde_json::from_slice::<serde_json::Value>` accepts `bytes` as a
/// JSON document.
pub uninterp spec fn is_json_document(bytes: Seq<u8>) -> bool;

/// Decodes `bytes` with `String::from_utf8_lossy`. Claimed: the result is
/// `lossy_utf8` of the bytes, and valid UTF-8 is decoded unchanged, as the
/// function's documentation says.
#[verifier::external_body]
fn utf8_lossy(bytes: &[u8]) -> (s: String)
    ensures
        s@ == lossy_utf8(bytes@),
        valid_utf8(bytes@) ==> s@ == decode_utf8(bytes@),
{
    String::from_utf8_lossy(bytes).into_owned()
}

/// Whether `serde_json::from_slice::<serde_json::Value>` parses `bytes`.
/// Claimed: the answer is `is_json_document` of the bytes.
#[verifier::external_body]
fn parses_as_json(bytes: &[u8]) -> (b: bool)
    ensures
        b == is_json_document(bytes@),
{
    serde_json::from_slice::<serde_json::Value>(bytes).is_ok()
}

/// The `value` field of the envelope of a Kafka message.
#[derive(Debug, Clone, PartialEq, Eq)]
pub enum EnvelopeValue {
    /// The payload is a JSON document: these are its bytes.
    Json(Vec<u8>),
    /// The payload is not JSON: its text, decoded as UTF-8 with replacement.
    Text(String),
    /// The message has no payload.
    Null,
}

/// The jrow-friendly JSON envelope of a Kafka message, field by field.
#[derive(Debug, Clone, PartialEq, Eq)]
pub struct KafkaEnvelope {
    pub kafka_topic: String,
    pub kafka_partition: i32,
    pub kafka_offset: i64,
    /// The message timestamp in milliseconds, where Kafka has one.
    pub kafka_timestamp: Option<i64>,
    /// The message key, decoded as UTF-8 with replacement.
    pub key: Option<String>,
    pub value: EnvelopeValue,
}

/// The envelope `value` for a payload: the JSON document where the payload
/// parses as JSON, else its text, or null without a payload.
pub open spec fn envelope_value_matches(v: EnvelopeValue, payload: Option<Seq<u8>>) -> bool {
    match payload {
        None => v is Null,
        Some(b) => if is_json_document(b) {
            v matches EnvelopeValue::Json(j) && j@ == b
        } else {
            v matches EnvelopeValue::Text(t) && t@ == lossy_utf8(b)
        },
    }
}

/// Every payload that parses as a JSON document is carried as that document,
/// whatever its first byte; every other payload as its text; a missing
/// payload as null. No other value matches a payload.
pub proof fn law_envelope_value(v: EnvelopeValue, payload: Option<Seq<u8>>)
    requires
        envelope_value_matches(v, payload),
    ensures
        payload is None <==> v is Null,
        payload is Some && is_json_document(payload->0) ==> v is Json && v->Json_0@
            == payload->0,
        payload is Some && !is_json_document(payload->0) ==> v is Text && v->Text_0@
            == lossy_utf8(payload->0),
{
}

/// Convert a Kafka message into a jrow-friendly envelope: its topic,
/// partition, offset and timestamp, its key as text, and its payload as JSON
/// when it parses, else as text.
pub fn message_to_envelope(
    topic: &str,
    partition: i32,
    offset: i64,
    timestamp: Option<i64>,
    key: Option<&[u8]>,
    payload: Option<&[u8]>,
) -> (e: KafkaEnvelope)
    ensures
        e.kafka_topic@ == topic@,
        e.kafka_partition == partition,
        e.kafka_offset == offset,
        e.kafka_timestamp == timestamp,
        key is None ==> e.key is None,
        key matches Some(k) ==> e.key matches Some(t) && t@ == lossy_utf8(k@),
        envelope_value_matches(
            e.value,
            match payload {
                Some(b) => Some(b@),
                None => None,
            },
        ),
        payload is None ==> e.value is Null,
        payload is Some && is_json_document(payload->0@) ==> e.value is Json
            && e.value->Json_0@ == payload->0@,
        payload is Some && !is_json_document(payload->0@) ==> e.value is Text
            && e.value->Text_0@ == lossy_utf8(payload->0@),
{
    let key_text = match key {
        Some(k) => Some(utf8_lossy(k)),
        None => None,
    };
    let value = match payload {
        Some(bytes) => {
            if parses_as_json(bytes) {
                EnvelopeValue::Json(slice_to_vec(bytes))
            } else {
                EnvelopeValue::Text(utf8_lossy(bytes))
            }
        },
        None => EnvelopeValue::Null,
    };
    KafkaEnvelope {
        kafka_topic: String::from_str(topic),
        kafka_partition: partition,
        kafka_offset: offset,
        kafka_timestamp: timestamp,
        key: key_text,
        value,
    }
}

} // verus!
