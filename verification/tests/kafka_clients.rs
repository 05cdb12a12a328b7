use shotover::connection::{
    KafkaConnectionBuilder, KafkaConsumer, KafkaDriver, KafkaProducer, ProducerKind, SaslMechanism,
    TransactionOp,
};
use shotover::consumer_config::ConsumerConfig;

#[test]
fn only_the_cpp_driver_is_cpp() {
    assert!(KafkaDriver::Cpp.is_cpp());
    assert!(!KafkaDriver::Java.is_cpp());
}

#[test]
fn new_builder_connects_without_tls_or_sasl() {
    let builder = KafkaConnectionBuilder::new(KafkaDriver::Java, "127.0.0.1:9192");
    assert_eq!(builder.driver(), KafkaDriver::Java);
    assert_eq!(builder.settings().address, "127.0.0.1:9192");
    assert!(builder.settings().tls_certs.is_none());
    assert!(builder.settings().sasl.is_none());
    let cpp = KafkaConnectionBuilder::new(KafkaDriver::Cpp, "127.0.0.1:9192");
    assert!(matches!(cpp, KafkaConnectionBuilder::Cpp(_)));
}

#[test]
fn builder_steps_keep_driver_and_address() {
    let builder = KafkaConnectionBuilder::new(KafkaDriver::Java, "localhost:9092")
        .use_tls("tests/certs")
        .use_sasl_scram("user", "password");
    assert_eq!(builder.driver(), KafkaDriver::Java);
    let settings = builder.settings();
    assert_eq!(settings.address, "localhost:9092");
    assert_eq!(settings.tls_certs.as_deref(), Some("tests/certs"));
    let sasl = settings.sasl.as_ref().unwrap();
    assert_eq!(sasl.mechanism, SaslMechanism::Scram);
    assert_eq!(sasl.user, "user");
    assert_eq!(sasl.pass, "password");
}

#[test]
fn later_sasl_credentials_replace_earlier_ones() {
    let builder = KafkaConnectionBuilder::new(KafkaDriver::Cpp, "localhost:9092")
        .use_sasl_scram("a", "b")
        .use_sasl_plain("c", "d");
    assert_eq!(builder.driver(), KafkaDriver::Cpp);
    let sasl = builder.settings().sasl.as_ref().unwrap();
    assert_eq!(sasl.mechanism, SaslMechanism::Plain);
    assert_eq!(sasl.user, "c");
    assert_eq!(sasl.pass, "d");
    assert!(builder.settings().tls_certs.is_none());
}

#[test]
fn clients_use_the_builder_driver_and_settings() {
    let builder = KafkaConnectionBuilder::new(KafkaDriver::Java, "localhost:9092").use_sasl_plain("u", "p");
    let producer = builder.connect_producer("all", 5);
    assert!(matches!(producer, KafkaProducer::Java(_)));
    assert_eq!(producer.settings().connection.address, "localhost:9092");
    match &producer.settings().kind {
        ProducerKind::Plain { acks, linger_ms } => {
            assert_eq!(acks, "all");
            assert_eq!(*linger_ms, 5);
        }
        ProducerKind::Transactional { .. } => panic!("expected a plain producer"),
    }
    let transactional = builder.connect_producer_with_transactions("some_transaction_id".to_string());
    match &transactional.settings().kind {
        ProducerKind::Transactional { transaction_id } => assert_eq!(transaction_id, "some_transaction_id"),
        ProducerKind::Plain { .. } => panic!("expected a transactional producer"),
    }
    let consumer = builder.connect_consumer(ConsumerConfig::consume_from_topic("topic".to_string()));
    assert!(matches!(consumer, KafkaConsumer::Java(_)));
    assert_eq!(consumer.settings().config.topic_name(), "topic");
    assert_eq!(consumer.settings().connection.sasl.as_ref().unwrap().user, "u");
    let admin = builder.connect_admin();
    assert_eq!(admin.driver(), KafkaDriver::Java);
    assert_eq!(admin.settings().address, "localhost:9092");
}

#[test]
fn transaction_calls_go_to_the_producer_driver() {
    let builder = KafkaConnectionBuilder::new(KafkaDriver::Cpp, "localhost:9092");
    let producer = builder.connect_producer_with_transactions("id".to_string());
    let consumer = builder.connect_consumer(ConsumerConfig::consume_from_topic("t".to_string()).with_group("g1"));
    let begin = producer.begin_transaction();
    assert_eq!(begin.driver, KafkaDriver::Cpp);
    assert!(matches!(begin.op, TransactionOp::Begin));
    let commit = producer.commit_transaction();
    assert_eq!(commit.driver, KafkaDriver::Cpp);
    assert!(matches!(commit.op, TransactionOp::Commit));
    let send = producer.send_offsets_to_transaction(&consumer);
    assert_eq!(send.driver, KafkaDriver::Cpp);
    match &send.op {
        TransactionOp::SendOffsets(sent) => {
            assert_eq!(sent.config.topic_name(), "t");
            assert_eq!(sent.config.group(), "g1");
            assert_eq!(sent.connection.address, "localhost:9092");
        }
        _ => panic!("expected offsets to be sent"),
    }
}

#[test]
fn sending_offsets_names_the_given_consumer() {
    let builder = KafkaConnectionBuilder::new(KafkaDriver::Java, "localhost:9092");
    let producer = builder.connect_producer_with_transactions("id".to_string());
    let first = builder.connect_consumer(ConsumerConfig::consume_from_topic("a".to_string()).with_group("g1"));
    let second = builder.connect_consumer(ConsumerConfig::consume_from_topic("b".to_string()).with_group("g2"));
    let groups: Vec<String> = [&first, &second]
        .iter()
        .map(|c| match producer.send_offsets_to_transaction(c).op {
            TransactionOp::SendOffsets(sent) => format!("{}/{}", sent.config.topic_name(), sent.config.group()),
            _ => panic!("expected offsets to be sent"),
        })
        .collect();
    assert_eq!(groups, vec!["a/g1".to_string(), "b/g2".to_string()]);
}

#[test]
fn consume_from_topic_defaults() {
    let config = ConsumerConfig::consume_from_topic("my_topic".to_string());
    assert_eq!(config.topic_name(), "my_topic");
    assert_eq!(config.group(), "default_group");
    assert_eq!(config.fetch_min_bytes(), 1);
    assert_eq!(config.fetch_max_wait_ms(), 500);
}

#[test]
fn consumer_config_builders_change_one_setting_each() {
    let config = ConsumerConfig::consume_from_topic("my_topic".to_string())
        .with_group("group_b")
        .with_fetch_min_bytes(1024)
        .with_fetch_max_wait_ms(10);
    assert_eq!(config.topic_name(), "my_topic");
    assert_eq!(config.group(), "group_b");
    assert_eq!(config.fetch_min_bytes(), 1024);
    assert_eq!(config.fetch_max_wait_ms(), 10);
    let copy = config.duplicate();
    assert_eq!(copy.group(), "group_b");
}

#[test]
fn default_consumer_config_is_empty() {
    let config = ConsumerConfig::default();
    assert_eq!(config.topic_name(), "");
    assert_eq!(config.group(), "");
    assert_eq!(config.fetch_min_bytes(), 0);
    assert_eq!(config.fetch_max_wait_ms(), 0);
}
