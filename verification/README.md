# jrow_kafka_gateway

A bidirectional gateway between Kafka topics and jrow persistent pub/sub.
The library in `src/` holds the gateway's rules, verified with Verus:

- `config`: the configuration, its defaults, validation and `${VAR}` substitution;
- `substitution`: what substitution does to a whole text, as a law;
- `topic_map`: `{topic}` templates and their rendering, with laws about it;
- `source`, `sink`: the decisions of each bridge direction (target topic,
  statistics, committing Kafka offsets only after a successful publish,
  acknowledging jrow messages only after a confirmed produce), the Kafka client
  settings and the envelope of a Kafka message;
- `gateway`: the start-up, connectivity-test and shutdown order;
- `summary`: the configuration summary shown in test mode;
- `text`: the character-level operations these rely on.

`app/` is the program around it: command line, TOML decoding, the Kafka
consumer and producer, the jrow server and client, and the health endpoint.
