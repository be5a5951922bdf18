//! jrow -> Kafka bridge: the decisions made for each delivered jrow message
//! (which Kafka topic it goes to, when it is acknowledged) and the producer's
//! client settings.

use vstd::arithmetic::div_mod::lemma_small_mod;
use vstd::prelude::*;
use vstd::string::*;

use crate::config::{pairs_view, KafkaConfig, SinkConfig};
use crate::error::{GatewayError, Result};
use crate::source::{
    append_settings, bump, bumped, counter_modulus, lemma_bump_is_modular, lemma_mod_absorbs,
};
use crate::text::contains_text;
use crate::topic_map::{missing_placeholder_message, placeholder, rendered, TopicTemplate};

verus! {

/// Snapshot of jrow -> Kafka bridge statistics
#[derive(Debug, Clone, Copy, PartialEq, Eq)]
pub struct SinkStats {
    pub messages_received: u64,
    pub messages_produced: u64,
    pub messages_acknowledged: u64,
    pub produce_errors: u64,
}

/// Statistics before any delivery.
pub open spec fn zero_sink_stats() -> SinkStats {
    SinkStats {
        messages_received: 0,
        messages_produced: 0,
        messages_acknowledged: 0,
        produce_errors: 0,
    }
}

impl Default for SinkStats {
    fn default() -> (s: Self)
        ensures
            s == zero_sink_stats(),
    {
        SinkStats {
            messages_received: 0,
            messages_produced: 0,
            messages_acknowledged: 0,
            produce_errors: 0,
        }
    }
}

/// Statistics after a message was delivered by the jrow subscription.
pub open spec fn after_received(s: SinkStats) -> SinkStats {
    SinkStats { messages_received: bump(s.messages_received), ..s }
}

/// Statistics after a delivered message could not be turned into a payload.
pub open spec fn after_encode_failure(s: SinkStats) -> SinkStats {
    SinkStats { produce_errors: bump(s.produce_errors), ..s }
}

/// Statistics after Kafka confirmed (`produced`) or refused a produce.
pub open spec fn after_produce(s: SinkStats, produced: bool) -> SinkStats {
    if produced {
        SinkStats {
            messages_produced: bump(s.messages_produced),
            messages_acknowledged: bump(s.messages_acknowledged),
            ..s
        }
    } else {
        SinkStats { produce_errors: bump(s.produce_errors), ..s }
    }
}

/// Where a delivered jrow message goes.
#[derive(Debug, Clone, PartialEq, Eq)]
pub struct Delivery {
    /// The sequence id to acknowledge the message by.
    pub sequence_id: u64,
    /// The jrow topic the message was published on.
    pub jrow_topic: String,
    /// The Kafka topic to produce it to.
    pub kafka_topic: String,
}

/// An acknowledgement to send back to jrow for a persistent subscription.
#[derive(Debug, Clone, PartialEq, Eq)]
pub struct AckRequest {
    pub subscription_id: String,
    pub sequence_id: u64,
}

/// The counters balance: every received message is produced, failed, or
/// still being handled (counting modulo the counters' range), and exactly the
/// produced messages are acknowledged.
pub open spec fn sink_balanced(s: SinkStats, in_flight: u64) -> bool {
    &&& s.messages_acknowledged == s.messages_produced
    &&& (s.messages_produced + s.produce_errors + in_flight) % counter_modulus()
        == s.messages_received as int
}

/// The statistics together with the number of delivered messages still being
/// handled.
#[derive(Debug)]
struct SinkCounters {
    stats: SinkStats,
    in_flight: u64,
}

/// The decision state of the jrow -> Kafka direction.
#[derive(Debug)]
pub struct SinkBridge {
    subscription_id: String,
    jrow_topic: String,
    template: TopicTemplate,
    counters: SinkCounters,
}

impl SinkBridge {
    #[verifier::type_invariant]
    spec fn counters_balance(&self) -> bool {
        sink_balanced(self.counters.stats, self.counters.in_flight)
    }

    /// The persistent subscription id.
    pub closed spec fn subscription(&self) -> Seq<char> {
        self.subscription_id@
    }

    /// The jrow topic or pattern subscribed to.
    pub closed spec fn pattern(&self) -> Seq<char> {
        self.jrow_topic@
    }

    /// The template that maps jrow topics to Kafka topics.
    pub closed spec fn template_text(&self) -> Seq<char> {
        self.template@
    }

    /// The current statistics.
    pub closed spec fn current_stats(&self) -> SinkStats {
        self.counters.stats
    }

    /// The number of delivered messages still being handled.
    pub closed spec fn pending(&self) -> u64 {
        self.counters.in_flight
    }

    /// Subscription, pattern and template are those of `other`.
    pub open spec fn same_setup(&self, other: &SinkBridge) -> bool {
        &&& self.subscription() == other.subscription()
        &&& self.pattern() == other.pattern()
        &&& self.template_text() == other.template_text()
    }

    /// A bridge for the configured subscription, pattern and template, with all
    /// counters at zero.
    pub fn new(sink: &SinkConfig) -> (r: Result<SinkBridge>)
        ensures
            r is Ok <==> contains_text(sink.kafka_topic_template@, placeholder()),
            r matches Ok(b) ==> b.template_text() == sink.kafka_topic_template@
                && b.subscription() == sink.subscription_id@ && b.pattern() == sink.jrow_topic@
                && b.current_stats() == zero_sink_stats() && b.pending() == 0,
            r matches Err(e) ==> e matches GatewayError::TopicMapping(m) && m@
                == missing_placeholder_message(sink.kafka_topic_template@),
    {
        let template = TopicTemplate::new(sink.kafka_topic_template.as_str())?;
        proof {
            lemma_small_mod(0, counter_modulus() as nat);
        }
        Ok(
            SinkBridge {
                subscription_id: sink.subscription_id.clone(),
                jrow_topic: sink.jrow_topic.clone(),
                template,
                counters: SinkCounters { stats: SinkStats::default(), in_flight: 0 },
            },
        )
    }

    /// A message was delivered with the given `sequence_id` and `topic` fields
    /// (each where present): count it and decide where it goes. A missing
    /// sequence id is taken as 0, a missing topic as the subscribed pattern.
    /// The message is then being handled until its produce is over.
    pub fn on_delivery(&mut self, sequence_id: Option<u64>, topic: Option<String>) -> (d:
        Delivery)
        ensures
            final(self).current_stats() == after_received(old(self).current_stats()),
            final(self).pending() == bump(old(self).pending()),
            final(self).same_setup(old(self)),
            d.sequence_id == match sequence_id {
                Some(n) => n,
                None => 0u64,
            },
            d.jrow_topic@ == match topic {
                Some(t) => t@,
                None => old(self).pattern(),
            },
            d.kafka_topic@ == rendered(old(self).template_text(), d.jrow_topic@),
    {
        proof {
            use_type_invariant(&*self);
        }
        let old_stats = self.counters.stats;
        let old_in_flight = self.counters.in_flight;
        proof {
            lemma_bump_is_modular(old_stats.messages_received);
            lemma_bump_is_modular(old_in_flight);
            let base = old_stats.messages_produced + old_stats.produce_errors;
            lemma_mod_absorbs(old_in_flight as int + 1, base);
            lemma_mod_absorbs(base + old_in_flight, 1);
        }
        self.counters = SinkCounters {
            stats: SinkStats { messages_received: bumped(old_stats.messages_received), ..old_stats },
            in_flight: bumped(old_in_flight),
        };
        let sequence_id = match sequence_id {
            Some(n) => n,
            None => 0,
        };
        let jrow_topic = match topic {
            Some(t) => t,
            None => self.jrow_topic.clone(),
        };
        let kafka_topic = self.template.render(jrow_topic.as_str());
        Delivery { sequence_id, jrow_topic, kafka_topic }
    }

    /// A message being handled could not be turned into a Kafka payload.
    pub fn on_encode_failure(&mut self)
        requires
            old(self).pending() > 0,
        ensures
            final(self).current_stats() == after_encode_failure(old(self).current_stats()),
            final(self).pending() == old(self).pending() - 1,
            final(self).same_setup(old(self)),
    {
        proof {
            use_type_invariant(&*self);
        }
        let old_stats = self.counters.stats;
        let in_flight = self.counters.in_flight - 1;
        proof {
            lemma_bump_is_modular(old_stats.produce_errors);
            lemma_mod_absorbs(old_stats.produce_errors + 1, old_stats.messages_produced + in_flight);
        }
        self.counters = SinkCounters {
            stats: SinkStats { produce_errors: bumped(old_stats.produce_errors), ..old_stats },
            in_flight,
        };
    }

    /// Kafka confirmed (`produced`) or refused the produce of the message with
    /// `sequence_id`, one being handled. Only a confirmed produce is
    /// acknowledged back to jrow; an unacknowledged message is redelivered.
    pub fn on_produce_result(&mut self, sequence_id: u64, produced: bool) -> (ack: Option<
        AckRequest,
    >)
        requires
            old(self).pending() > 0,
        ensures
            final(self).current_stats() == after_produce(old(self).current_stats(), produced),
            final(self).pending() == old(self).pending() - 1,
            final(self).same_setup(old(self)),
            ack is Some <==> produced,
            ack matches Some(a) ==> a.subscription_id@ == old(self).subscription()
                && a.sequence_id == sequence_id,
    {
        proof {
            use_type_invariant(&*self);
        }
        let old_stats = self.counters.stats;
        let in_flight = self.counters.in_flight - 1;
        if produced {
            proof {
                lemma_bump_is_modular(old_stats.messages_produced);
                lemma_mod_absorbs(
                    old_stats.messages_produced + 1,
                    old_stats.produce_errors + in_flight,
                );
            }
            self.counters = SinkCounters {
                stats: SinkStats {
                    messages_produced: bumped(old_stats.messages_produced),
                    messages_acknowledged: bumped(old_stats.messages_acknowledged),
                    ..old_stats
                },
                in_flight,
            };
            Some(AckRequest { subscription_id: self.subscription_id.clone(), sequence_id })
        } else {
            proof {
                lemma_bump_is_modular(old_stats.produce_errors);
                lemma_mod_absorbs(
                    old_stats.produce_errors + 1,
                    old_stats.messages_produced + in_flight,
                );
            }
            self.counters = SinkCounters {
                stats: SinkStats { produce_errors: bumped(old_stats.produce_errors), ..old_stats },
                in_flight,
            };
            None
        }
    }

    /// The number of delivered messages still being handled.
    pub fn pending_deliveries(&self) -> (n: u64)
        ensures
            n == self.pending(),
    {
        self.counters.in_flight
    }

    /// Current statistics snapshot. Exactly the produced messages are
    /// acknowledged; every received message is produced, failed or still being
    /// handled, so when none is being handled (and the counters have not
    /// wrapped) the received messages are exactly the produced and failed ones.
    pub fn stats(&self) -> (s: SinkStats)
        ensures
            s == self.current_stats(),
            sink_balanced(s, self.pending()),
            s.messages_acknowledged == s.messages_produced,
            self.pending() == 0 && s.messages_produced + s.produce_errors <= u64::MAX
                ==> s.messages_received == s.messages_produced + s.produce_errors,
    {
        proof {
            use_type_invariant(self);
            if self.pending() == 0 && self.counters.stats.messages_produced
                + self.counters.stats.produce_errors <= u64::MAX {
                lemma_small_mod(
                    (self.counters.stats.messages_produced
                        + self.counters.stats.produce_errors) as nat,
                    counter_modulus() as nat,
                );
            }
        }
        self.counters.stats
    }

    /// The persistent subscription id.
    pub fn subscription_id(&self) -> (s: &str)
        ensures
            s@ == self.subscription(),
    {
        self.subscription_id.as_str()
    }

    /// The jrow topic or pattern subscribed to.
    pub fn jrow_topic(&self) -> (s: &str)
        ensures
            s@ == self.pattern(),
    {
        self.jrow_topic.as_str()
    }
}

/// Every step of the sink keeps the number of acknowledged messages equal to
/// the number of messages Kafka confirmed: a message is acknowledged exactly
/// when, and right after, its produce is confirmed.
pub proof fn law_acknowledged_equals_produced(s: SinkStats, produced: bool)
    requires
        s.messages_acknowledged == s.messages_produced,
    ensures
        after_received(s).messages_acknowledged == after_received(s).messages_produced,
        after_encode_failure(s).messages_acknowledged == after_encode_failure(
            s,
        ).messages_produced,
        after_produce(s, produced).messages_acknowledged == after_produce(
            s,
            produced,
        ).messages_produced,
        zero_sink_stats().messages_acknowledged == zero_sink_stats().messages_produced,
{
}

/// Each delivery cycle counts one received message and exactly one of a
/// confirmed produce and a produce error; so, while the received counter does
/// not wrap, produced messages and errors never outnumber received messages.
pub proof fn law_sink_cycle_accounting(s: SinkStats, encoded: bool, produced: bool)
    requires
        s.messages_produced + s.produce_errors <= s.messages_received,
        s.messages_received < u64::MAX,
    ensures
        ({
            let r = after_received(s);
            let t = if encoded {
                after_produce(r, produced)
            } else {
                after_encode_failure(r)
            };
            &&& t.messages_received == s.messages_received + 1
            &&& t.messages_produced + t.produce_errors == s.messages_produced + s.produce_errors
                + 1
            &&& t.messages_produced + t.produce_errors <= t.messages_received
        }),
{
}

/// The client settings of the Kafka producer: the brokers, followed by the
/// passthrough options.
pub open spec fn producer_settings_of(kafka: KafkaConfig) -> Seq<(Seq<char>, Seq<char>)> {
    seq![("bootstrap.servers"@, kafka.bootstrap_servers@)] + pairs_view(kafka.options@)
}

/// The settings, in the order they are applied, to build the Kafka producer of
/// the sink direction.
pub fn producer_settings(kafka: &KafkaConfig) -> (r: Vec<(String, String)>)
    ensures
        pairs_view(r@) == producer_settings_of(*kafka),
        r@.len() == 1 + kafka.options@.len(),
        r@[0].0@ == "bootstrap.servers"@ && r@[0].1@ == kafka.bootstrap_servers@,
        forall|i: int|
            0 <= i < kafka.options@.len() ==> r@[1 + i].0@ == kafka.options@[i].0@ && r@[1
                + i].1@ == kafka.options@[i].1@,
{
    let mut r: Vec<(String, String)> = Vec::new();
    r.push((String::from_str("bootstrap.servers"), kafka.bootstrap_servers.clone()));
    append_settings(&mut r, &kafka.options);
    proof {
        law_producer_settings_carry_config(*kafka);
        let pv = pairs_view(r@);
        assert(pv.len() == r@.len());
        assert(r@[0].0@ == pv[0].0 && r@[0].1@ == pv[0].1);
        assert forall|i: int| 0 <= i < kafka.options@.len() implies r@[1 + i].0@
            == kafka.options@[i].0@ && r@[1 + i].1@ == kafka.options@[i].1@ by {
            assert(r@[1 + i].0@ == pv[1 + i].0 && r@[1 + i].1@ == pv[1 + i].1);
        }
    }
    r
}

/// The producer is configured from the configuration it is given: the brokers
/// first, then each passthrough option in order.
pub proof fn law_producer_settings_carry_config(kafka: KafkaConfig)
    ensures
        ({
            let p = producer_settings_of(kafka);
            &&& p.len() == 1 + kafka.options@.len()
            &&& p[0] == ("bootstrap.servers"@, kafka.bootstrap_servers@)
            &&& forall|i: int|
                0 <= i < kafka.options@.len() ==> p[1 + i] == (
                    kafka.options@[i].0@,
                    kafka.options@[i].1@,
                )
        }),
{
}

} // verus!
