//! Kafka records and the configuration of the Kafka sink.
use vstd::prelude::*;

use vstd::string::StringExecFns;

verus! {

/// A single record as received by or sent to Kafka.
#[derive(Clone, Debug)]
pub struct KafkaRecord {
    pub topic: String,
    pub partition: Option<i32>,
    pub payload: Vec<u8>,
    pub key: Option<Vec<u8>>,
    pub timestamp: Option<i64>,
}

impl KafkaRecord {
    /// A record for `topic` carrying `payload`, with no partition, key or
    /// timestamp.
    pub fn new(topic: String, payload: Vec<u8>) -> (r: KafkaRecord)
        ensures
            r.topic == topic,
            r.payload == payload,
            r.partition is None,
            r.key is None,
            r.timestamp is None,
    {
        KafkaRecord { topic, partition: None, payload, key: None, timestamp: None }
    }

    /// The record for a message read from Kafka. Messages without payload
    /// yield no record.
    pub fn from_parts(
        topic: String,
        partition: i32,
        payload: Option<Vec<u8>>,
        key: Option<Vec<u8>>,
        timestamp: Option<i64>,
    ) -> (r: Option<KafkaRecord>)
        ensures
            payload is None ==> r is None,
            payload is Some ==> r == Some(
                KafkaRecord {
                    topic,
                    partition: Some(partition),
                    payload: payload->0,
                    key,
                    timestamp,
                },
            ),
    {
        match payload {
            Some(p) => Some(KafkaRecord { topic, partition: Some(partition), payload: p, key, timestamp }),
            None => None,
        }
    }
}

/// `parts` joined with `sep` between each two of them.
pub open spec fn joined(parts: Seq<Seq<char>>, sep: Seq<char>) -> Seq<char>
    decreases parts.len(),
{
    if parts.len() == 0 {
        Seq::empty()
    } else if parts.len() == 1 {
        parts[0]
    } else {
        joined(parts.drop_last(), sep) + sep + parts.last()
    }
}

/// The string views of a list of strings.
pub open spec fn views(v: Seq<String>) -> Seq<Seq<char>> {
    v.map_values(|s: String| s@)
}

/// Join `parts` with `sep` between each two of them.
pub fn join(parts: &Vec<String>, sep: &str) -> (r: String)
    ensures
        r@ == joined(views(parts@), sep@),
{
    let mut r = String::new();
    let mut i: usize = 0;
    while i < parts.len()
        invariant
            i <= parts@.len(),
            r@ == joined(views(parts@.take(i as int)), sep@),
        decreases parts.len() - i,
    {
        let ghost before = parts@.take(i as int);
        if i > 0 {
            r.append(sep);
        }
        r.append(parts[i].as_str());
        proof {
            let after = parts@.take(i + 1);
            assert(views(after).drop_last() =~= views(before));
            assert(after.last() == parts@[i as int]);
            if i == 0 {
                assert(views(after).len() == 1);
                assert(views(after)[0] == parts@[0]@);
            }
        }
        i = i + 1;
    }
    assert(parts@.take(parts@.len() as int) =~= parts@);
    r
}

/// The configuration a sequence of settings leaves behind: a later setting of
/// a key replaces an earlier one.
pub open spec fn effective_config(entries: Seq<(Seq<char>, Seq<char>)>) -> Map<Seq<char>, Seq<char>>
    decreases entries.len(),
{
    if entries.len() == 0 {
        Map::empty()
    } else {
        effective_config(entries.drop_last()).insert(entries.last().0, entries.last().1)
    }
}

/// The string views of a list of settings.
pub open spec fn entry_views(v: Seq<(String, String)>) -> Seq<(Seq<char>, Seq<char>)> {
    v.map_values(|e: (String, String)| (e.0@, e.1@))
}

/// Why a Kafka sink configuration can not be built.
#[derive(Debug, PartialEq, Eq, Structural)]
pub enum KafkaConfigError {
    /// No broker was given.
    MissingBroker,
    /// No consumer group id was given.
    MissingGroupId,
}

/// Settings of the Kafka producer of a sink, in the order they are applied.
#[derive(Debug)]
pub struct KafkaSinkConfig {
    pub entries: Vec<(String, String)>,
}

/// Builder of a Kafka sink.
pub struct KafkaSinkBuilder {
    kafka_config: Vec<(String, String)>,
    brokers: Vec<String>,
    group_id: Option<String>,
}

impl KafkaSinkBuilder {
    /// Additional settings given with `conf`, in order.
    pub closed spec fn conf_entries(&self) -> Seq<(Seq<char>, Seq<char>)> {
        entry_views(self.kafka_config@)
    }

    /// The brokers given, in order.
    pub closed spec fn broker_list(&self) -> Seq<Seq<char>> {
        views(self.brokers@)
    }

    /// The consumer group id, once given.
    pub closed spec fn group(&self) -> Option<Seq<char>> {
        match self.group_id {
            Some(g) => Some(g@),
            None => None,
        }
    }

    /// A builder without settings, brokers or group id.
    pub fn new() -> (r: KafkaSinkBuilder)
        ensures
            r.conf_entries() == Seq::<(Seq<char>, Seq<char>)>::empty(),
            r.broker_list() == Seq::<Seq<char>>::empty(),
            r.group() is None,
    {
        KafkaSinkBuilder { kafka_config: Vec::new(), brokers: Vec::new(), group_id: None }
    }

    /// Provide an additional config for the Kafka producer.
    /// Note that `bootstrap.servers`, `group.id` configs are
    /// ignored. Use the respective builder methods to supply these.
    pub fn conf(self, key: &str, value: &str) -> (r: KafkaSinkBuilder)
        ensures
            r.conf_entries() == self.conf_entries().push((key@, value@)),
            r.broker_list() == self.broker_list(),
            r.group() == self.group(),
    {
        let mut b = self;
        let ghost before = b.kafka_config@;
        b.kafka_config.push((String::from_str(key), String::from_str(value)));
        assert(entry_views(b.kafka_config@) =~= entry_views(before).push((key@, value@)));
        b
    }

    /// Add a broker URL to produce records to.
    pub fn broker(self, url: &str) -> (r: KafkaSinkBuilder)
        ensures
            r.conf_entries() == self.conf_entries(),
            r.broker_list() == self.broker_list().push(url@),
            r.group() == self.group(),
    {
        let mut b = self;
        let ghost before = b.brokers@;
        b.brokers.push(String::from_str(url));
        assert(views(b.brokers@) =~= views(before).push(url@));
        b
    }

    /// Set the consumer group id.
    pub fn group_id(self, id: &str) -> (r: KafkaSinkBuilder)
        ensures
            r.conf_entries() == self.conf_entries(),
            r.broker_list() == self.broker_list(),
            r.group() == Some(id@),
    {
        let mut b = self;
        b.group_id = Some(String::from_str(id));
        b
    }

    /// The producer settings: the additional settings, then the group id,
    /// then the brokers joined by commas as bootstrap servers. At least one
    /// broker and a group id are needed.
    pub fn build(self) -> (r: Result<KafkaSinkConfig, KafkaConfigError>)
        ensures
            self.broker_list().len() == 0 ==> r == Err::<KafkaSinkConfig, _>(
                KafkaConfigError::MissingBroker,
            ),
            self.broker_list().len() > 0 && self.group() is None ==> r == Err::<KafkaSinkConfig, _>(
                KafkaConfigError::MissingGroupId,
            ),
            self.broker_list().len() > 0 && self.group() is Some ==> (r matches Ok(c) && entry_views(c.entries@)
                == self.conf_entries().push(("group.id"@, self.group()->0)).push(
                ("bootstrap.servers"@, joined(self.broker_list(), ","@)),
            )),
    {
        if self.brokers.len() == 0 {
            return Err(KafkaConfigError::MissingBroker);
        }
        match self.group_id {
            None => Err(KafkaConfigError::MissingGroupId),
            Some(g) => {
                let servers = join(&self.brokers, ",");
                let mut entries = self.kafka_config;
                let ghost before = entries@;
                entries.push((String::from_str("group.id"), g));
                entries.push((String::from_str("bootstrap.servers"), servers));
                assert(entry_views(entries@) =~= entry_views(before).push(("group.id"@, self.group()->0)).push(
                    ("bootstrap.servers"@, joined(self.broker_list(), ","@)),
                ));
                Ok(KafkaSinkConfig { entries })
            },
        }
    }
}

/// Law: `group.id` and `bootstrap.servers` given through `conf` are ignored:
/// in the effective producer configuration they are the group id and the
/// joined brokers of the builder, whatever the additional settings say.
pub proof fn builder_settings_override_conf(
    conf: Seq<(Seq<char>, Seq<char>)>,
    group: Seq<char>,
    servers: Seq<char>,
)
    ensures
        effective_config(conf.push(("group.id"@, group)).push(("bootstrap.servers"@, servers)))["group.id"@]
            == group,
        effective_config(conf.push(("group.id"@, group)).push(("bootstrap.servers"@, servers)))["bootstrap.servers"@]
            == servers,
{
    reveal_strlit("group.id");
    reveal_strlit("bootstrap.servers");
    assert("group.id"@[0] != "bootstrap.servers"@[0]);
    let e1 = conf.push(("group.id"@, group));
    let e2 = e1.push(("bootstrap.servers"@, servers));
    assert(e2.drop_last() == e1);
    assert(e1.drop_last() == conf);
    assert("group.id"@ != "bootstrap.servers"@);
    assert(effective_config(e1) == effective_config(conf).insert("group.id"@, group));
    assert(effective_config(e2) == effective_config(e1).insert("bootstrap.servers"@, servers));
}

} // verus!
