use malstrom::kafka::{join, KafkaConfigError, KafkaRecord, KafkaSinkBuilder};

#[test]
fn test_sink_builder() {
    let config = KafkaSinkBuilder::new()
        .broker("foo.com")
        .group_id("mygroup")
        .conf("log_level", "3")
        .build()
        .unwrap();
    assert_eq!(
        config.entries,
        vec![
            ("log_level".to_string(), "3".to_string()),
            ("group.id".to_string(), "mygroup".to_string()),
            ("bootstrap.servers".to_string(), "foo.com".to_string()),
        ]
    );
}

#[test]
fn builder_needs_broker_and_group() {
    assert_eq!(KafkaSinkBuilder::new().group_id("g").build().unwrap_err(), KafkaConfigError::MissingBroker);
    assert_eq!(KafkaSinkBuilder::new().broker("b").build().unwrap_err(), KafkaConfigError::MissingGroupId);
}

#[test]
fn brokers_are_joined() {
    let config = KafkaSinkBuilder::new().broker("a:1").broker("b:2").group_id("g").build().unwrap();
    assert_eq!(config.entries[1].1, "a:1,b:2");
    assert_eq!(join(&vec![], ","), "");
}

#[test]
fn records_need_a_payload() {
    assert!(KafkaRecord::from_parts("t".to_string(), 0, None, None, None).is_none());
    let r = KafkaRecord::from_parts("t".to_string(), 2, Some(vec![1]), Some(vec![9]), Some(5)).unwrap();
    assert_eq!(r.partition, Some(2));
    assert_eq!(r.payload, vec![1]);
    let r = KafkaRecord::new("t".to_string(), vec![3]);
    assert!(r.key.is_none());
}
