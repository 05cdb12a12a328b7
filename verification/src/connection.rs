use vstd::prelude::*;

use crate::consumer_config::{ConsumerConfig, ConsumerConfigView};

verus! {

/// The client library a test talks to Kafka through.
#[derive(Debug, Clone, Copy, PartialEq, Eq, Structural)]
pub enum KafkaDriver {
    Cpp,
    Java,
}

impl KafkaDriver {
    pub fn is_cpp(&self) -> (r: bool)
        ensures
            r == (*self == KafkaDriver::Cpp),
    {
        match self {
            KafkaDriver::Cpp => true,
            KafkaDriver::Java => false,
        }
    }
}

/// The SASL mechanism a connection authenticates with.
#[derive(Debug, Clone, Copy, PartialEq, Eq, Structural)]
pub enum SaslMechanism {
    Scram,
    Plain,
}

/// SASL credentials of a connection.
pub struct SaslCredentials {
    pub mechanism: SaslMechanism,
    pub user: String,
    pub pass: String,
}

/// How a client connects to Kafka: the bootstrap address, the certificates to trust over
/// TLS and the SASL credentials, where any are configured.
pub struct KafkaConnectionSettings {
    pub address: String,
    pub tls_certs: Option<String>,
    pub sasl: Option<SaslCredentials>,
}

/// The connection settings, by value.
pub struct ConnectionView {
    pub address: Seq<char>,
    pub tls_certs: Option<Seq<char>>,
    pub sasl: Option<(SaslMechanism, Seq<char>, Seq<char>)>,
}

impl View for KafkaConnectionSettings {
    type V = ConnectionView;

    open spec fn view(&self) -> ConnectionView {
        ConnectionView {
            address: self.address@,
            tls_certs: match self.tls_certs {
                Some(c) => Some(c@),
                None => None,
            },
            sasl: match self.sasl {
                Some(s) => Some((s.mechanism, s.user@, s.pass@)),
                None => None,
            },
        }
    }
}

impl KafkaConnectionSettings {
    /// A copy of these settings.
    pub fn duplicate(&self) -> (r: Self)
        ensures
            r@ == self@,
    {
        KafkaConnectionSettings {
            address: self.address.clone(),
            tls_certs: match &self.tls_certs {
                Some(c) => Some(c.clone()),
                None => None,
            },
            sasl: match &self.sasl {
                Some(s) => Some(
                    SaslCredentials {
                        mechanism: s.mechanism,
                        user: s.user.clone(),
                        pass: s.pass.clone(),
                    },
                ),
                None => None,
            },
        }
    }
}

/// Builds connections to Kafka through one of the drivers.
pub enum KafkaConnectionBuilder {
    Cpp(KafkaConnectionSettings),
    Java(KafkaConnectionSettings),
}

/// A connection builder, by value: its driver and its settings.
pub struct BuilderView {
    pub driver: KafkaDriver,
    pub settings: ConnectionView,
}

impl View for KafkaConnectionBuilder {
    type V = BuilderView;

    open spec fn view(&self) -> BuilderView {
        match self {
            KafkaConnectionBuilder::Cpp(s) => BuilderView { driver: KafkaDriver::Cpp, settings: s@ },
            KafkaConnectionBuilder::Java(s) => BuilderView { driver: KafkaDriver::Java, settings: s@ },
        }
    }
}

impl KafkaConnectionBuilder {
    fn with_settings(driver: KafkaDriver, settings: KafkaConnectionSettings) -> (b: Self)
        ensures
            b@ == (BuilderView { driver, settings: settings@ }),
    {
        match driver {
            KafkaDriver::Cpp => KafkaConnectionBuilder::Cpp(settings),
            KafkaDriver::Java => KafkaConnectionBuilder::Java(settings),
        }
    }

    fn into_parts(self) -> (r: (KafkaDriver, KafkaConnectionSettings))
        ensures
            r.0 == self@.driver,
            r.1@ == self@.settings,
    {
        match self {
            KafkaConnectionBuilder::Cpp(s) => (KafkaDriver::Cpp, s),
            KafkaConnectionBuilder::Java(s) => (KafkaDriver::Java, s),
        }
    }

    /// The driver the connections are made through.
    pub fn driver(&self) -> (d: KafkaDriver)
        ensures
            d == self@.driver,
    {
        match self {
            KafkaConnectionBuilder::Cpp(_) => KafkaDriver::Cpp,
            KafkaConnectionBuilder::Java(_) => KafkaDriver::Java,
        }
    }

    /// The settings the connections are made with.
    pub fn settings(&self) -> (s: &KafkaConnectionSettings)
        ensures
            s@ == self@.settings,
    {
        match self {
            KafkaConnectionBuilder::Cpp(s) => s,
            KafkaConnectionBuilder::Java(s) => s,
        }
    }

    /// Connections through `driver` to the broker at `address`, without TLS or SASL.
    pub fn new(driver: KafkaDriver, address: &str) -> (b: Self)
        ensures
            b@ == (BuilderView {
                driver,
                settings: ConnectionView { address: address@, tls_certs: None, sasl: None },
            }),
    {
        Self::with_settings(
            driver,
            KafkaConnectionSettings { address: address.to_owned(), tls_certs: None, sasl: None },
        )
    }

    /// The same connections over TLS, trusting the certificates at `certs`. Only the Java
    /// driver supports TLS.
    pub fn use_tls(self, certs: &str) -> (b: Self)
        requires
            self@.driver == KafkaDriver::Java,
        ensures
            b@ == (BuilderView {
                settings: ConnectionView { tls_certs: Some(certs@), ..self@.settings },
                ..self@
            }),
    {
        let (driver, settings) = self.into_parts();
        Self::with_settings(driver, KafkaConnectionSettings { tls_certs: Some(certs.to_owned()), ..settings })
    }

    fn use_sasl(self, mechanism: SaslMechanism, user: &str, pass: &str) -> (b: Self)
        ensures
            b@ == (BuilderView {
                settings: ConnectionView {
                    sasl: Some((mechanism, user@, pass@)),
                    ..self@.settings
                },
                ..self@
            }),
    {
        let (driver, settings) = self.into_parts();
        let sasl = SaslCredentials { mechanism, user: user.to_owned(), pass: pass.to_owned() };
        Self::with_settings(driver, KafkaConnectionSettings { sasl: Some(sasl), ..settings })
    }

    /// The same connections, authenticating with SASL SCRAM as `user`.
    pub fn use_sasl_scram(self, user: &str, pass: &str) -> (b: Self)
        ensures
            b@ == (BuilderView {
                settings: ConnectionView {
                    sasl: Some((SaslMechanism::Scram, user@, pass@)),
                    ..self@.settings
                },
                ..self@
            }),
    {
        self.use_sasl(SaslMechanism::Scram, user, pass)
    }

    /// The same connections, authenticating with SASL PLAIN as `user`.
    pub fn use_sasl_plain(self, user: &str, pass: &str) -> (b: Self)
        ensures
            b@ == (BuilderView {
                settings: ConnectionView {
                    sasl: Some((SaslMechanism::Plain, user@, pass@)),
                    ..self@.settings
                },
                ..self@
            }),
    {
        self.use_sasl(SaslMechanism::Plain, user, pass)
    }
}


/// What a producer is connected for.
pub enum ProducerKind {
    /// Plain producing, with the given acknowledgement setting and linger time.
    Plain { acks: String, linger_ms: u32 },
    /// Producing in transactions under the given transactional id.
    Transactional { transaction_id: String },
}

pub enum ProducerKindView {
    Plain { acks: Seq<char>, linger_ms: u32 },
    Transactional { transaction_id: Seq<char> },
}

/// How a producer is connected.
pub struct ProducerSettings {
    pub connection: KafkaConnectionSettings,
    pub kind: ProducerKind,
}

/// A producer, connected through one of the drivers.
pub enum KafkaProducer {
    Cpp(ProducerSettings),
    Java(ProducerSettings),
}

/// A producer, by value.
pub struct ProducerView {
    pub driver: KafkaDriver,
    pub connection: ConnectionView,
    pub kind: ProducerKindView,
}

impl View for ProducerSettings {
    type V = (ConnectionView, ProducerKindView);

    open spec fn view(&self) -> (ConnectionView, ProducerKindView) {
        (
            self.connection@,
            match self.kind {
                ProducerKind::Plain { acks, linger_ms } => ProducerKindView::Plain {
                    acks: acks@,
                    linger_ms,
                },
                ProducerKind::Transactional { transaction_id } => ProducerKindView::Transactional {
                    transaction_id: transaction_id@,
                },
            },
        )
    }
}

impl View for KafkaProducer {
    type V = ProducerView;

    open spec fn view(&self) -> ProducerView {
        match self {
            KafkaProducer::Cpp(s) => ProducerView {
                driver: KafkaDriver::Cpp,
                connection: s@.0,
                kind: s@.1,
            },
            KafkaProducer::Java(s) => ProducerView {
                driver: KafkaDriver::Java,
                connection: s@.0,
                kind: s@.1,
            },
        }
    }
}

/// How a consumer is connected.
pub struct ConsumerSettings {
    pub connection: KafkaConnectionSettings,
    pub config: ConsumerConfig,
}

/// A consumer, connected through one of the drivers.
pub enum KafkaConsumer {
    Cpp(ConsumerSettings),
    Java(ConsumerSettings),
}

/// A consumer, by value.
pub struct ConsumerView {
    pub driver: KafkaDriver,
    pub connection: ConnectionView,
    pub config: ConsumerConfigView,
}

impl View for KafkaConsumer {
    type V = ConsumerView;

    open spec fn view(&self) -> ConsumerView {
        match self {
            KafkaConsumer::Cpp(s) => ConsumerView {
                driver: KafkaDriver::Cpp,
                connection: s.connection@,
                config: s.config@,
            },
            KafkaConsumer::Java(s) => ConsumerView {
                driver: KafkaDriver::Java,
                connection: s.connection@,
                config: s.config@,
            },
        }
    }
}

/// An admin client, connected through one of the drivers.
pub enum KafkaAdmin {
    Cpp(KafkaConnectionSettings),
    Java(KafkaConnectionSettings),
}

impl View for KafkaAdmin {
    type V = BuilderView;

    open spec fn view(&self) -> BuilderView {
        match self {
            KafkaAdmin::Cpp(s) => BuilderView { driver: KafkaDriver::Cpp, settings: s@ },
            KafkaAdmin::Java(s) => BuilderView { driver: KafkaDriver::Java, settings: s@ },
        }
    }
}

/// A step of a transaction.
pub enum TransactionOp {
    Begin,
    Commit,
    /// Adds the offsets of the consumer with these settings to the transaction.
    SendOffsets(ConsumerSettings),
}

/// A transaction step, by value.
pub enum TransactionOpView {
    Begin,
    Commit,
    SendOffsets { connection: ConnectionView, config: ConsumerConfigView },
}

/// A transaction step and the driver that carries it out.
pub struct TransactionCall {
    pub driver: KafkaDriver,
    pub op: TransactionOp,
}

/// A transaction call, by value.
pub struct TransactionCallView {
    pub driver: KafkaDriver,
    pub op: TransactionOpView,
}

impl View for TransactionCall {
    type V = TransactionCallView;

    open spec fn view(&self) -> TransactionCallView {
        TransactionCallView {
            driver: self.driver,
            op: match self.op {
                TransactionOp::Begin => TransactionOpView::Begin,
                TransactionOp::Commit => TransactionOpView::Commit,
                TransactionOp::SendOffsets(c) => TransactionOpView::SendOffsets {
                    connection: c.connection@,
                    config: c.config@,
                },
            },
        }
    }
}

impl ConsumerSettings {
    /// A copy of these settings.
    pub fn duplicate(&self) -> (r: Self)
        ensures
            r.connection@ == self.connection@,
            r.config@ == self.config@,
    {
        ConsumerSettings { connection: self.connection.duplicate(), config: self.config.duplicate() }
    }
}

impl KafkaConnectionBuilder {
    /// A producer that waits for `acks` acknowledgements and lingers `linger_ms` before
    /// sending a batch, connected through this builder's driver with its settings.
    pub fn connect_producer(&self, acks: &str, linger_ms: u32) -> (p: KafkaProducer)
        ensures
            p@ == (ProducerView {
                driver: self@.driver,
                connection: self@.settings,
                kind: ProducerKindView::Plain { acks: acks@, linger_ms },
            }),
    {
        let settings = ProducerSettings {
            connection: self.settings().duplicate(),
            kind: ProducerKind::Plain { acks: acks.to_owned(), linger_ms },
        };
        match self {
            KafkaConnectionBuilder::Cpp(_) => KafkaProducer::Cpp(settings),
            KafkaConnectionBuilder::Java(_) => KafkaProducer::Java(settings),
        }
    }

    /// A transactional producer with the given transactional id, connected through this
    /// builder's driver with its settings.
    pub fn connect_producer_with_transactions(&self, transaction_id: String) -> (p: KafkaProducer)
        ensures
            p@ == (ProducerView {
                driver: self@.driver,
                connection: self@.settings,
                kind: ProducerKindView::Transactional { transaction_id: transaction_id@ },
            }),
    {
        let settings = ProducerSettings {
            connection: self.settings().duplicate(),
            kind: ProducerKind::Transactional { transaction_id },
        };
        match self {
            KafkaConnectionBuilder::Cpp(_) => KafkaProducer::Cpp(settings),
            KafkaConnectionBuilder::Java(_) => KafkaProducer::Java(settings),
        }
    }

    /// A consumer with the given settings, connected through this builder's driver.
    pub fn connect_consumer(&self, config: ConsumerConfig) -> (c: KafkaConsumer)
        ensures
            c@ == (ConsumerView {
                driver: self@.driver,
                connection: self@.settings,
                config: config@,
            }),
    {
        let settings = ConsumerSettings { connection: self.settings().duplicate(), config };
        match self {
            KafkaConnectionBuilder::Cpp(_) => KafkaConsumer::Cpp(settings),
            KafkaConnectionBuilder::Java(_) => KafkaConsumer::Java(settings),
        }
    }

    /// An admin client, connected through this builder's driver with its settings.
    pub fn connect_admin(&self) -> (a: KafkaAdmin)
        ensures
            a@ == self@,
    {
        let settings = self.settings().duplicate();
        match self {
            KafkaConnectionBuilder::Cpp(_) => KafkaAdmin::Cpp(settings),
            KafkaConnectionBuilder::Java(_) => KafkaAdmin::Java(settings),
        }
    }
}

impl KafkaProducer {
    pub fn driver(&self) -> (d: KafkaDriver)
        ensures
            d == self@.driver,
    {
        match self {
            KafkaProducer::Cpp(_) => KafkaDriver::Cpp,
            KafkaProducer::Java(_) => KafkaDriver::Java,
        }
    }

    pub fn settings(&self) -> (s: &ProducerSettings)
        ensures
            s@.0 == self@.connection,
            s@.1 == self@.kind,
    {
        match self {
            KafkaProducer::Cpp(s) => s,
            KafkaProducer::Java(s) => s,
        }
    }

    /// Begins a transaction: the call this producer's driver carries out.
    pub fn begin_transaction(&self) -> (c: TransactionCall)
        ensures
            c@ == (TransactionCallView { driver: self@.driver, op: TransactionOpView::Begin }),
    {
        TransactionCall { driver: self.driver(), op: TransactionOp::Begin }
    }

    /// Commits the transaction: the call this producer's driver carries out.
    pub fn commit_transaction(&self) -> (c: TransactionCall)
        ensures
            c@ == (TransactionCallView { driver: self@.driver, op: TransactionOpView::Commit }),
    {
        TransactionCall { driver: self.driver(), op: TransactionOp::Commit }
    }

    /// Adds the offsets of `consumer` to the transaction: the call, naming that consumer,
    /// which this producer's driver carries out. A transaction cannot span the two drivers, so the consumer must be
    /// connected through the same driver as the producer.
    pub fn send_offsets_to_transaction(&self, consumer: &KafkaConsumer) -> (c: TransactionCall)
        requires
            self@.driver == consumer@.driver,
        ensures
            c@ == (TransactionCallView {
                driver: self@.driver,
                op: TransactionOpView::SendOffsets {
                    connection: consumer@.connection,
                    config: consumer@.config,
                },
            }),
    {
        TransactionCall {
            driver: self.driver(),
            op: TransactionOp::SendOffsets(consumer.settings().duplicate()),
        }
    }
}

impl KafkaConsumer {
    pub fn driver(&self) -> (d: KafkaDriver)
        ensures
            d == self@.driver,
    {
        match self {
            KafkaConsumer::Cpp(_) => KafkaDriver::Cpp,
            KafkaConsumer::Java(_) => KafkaDriver::Java,
        }
    }

    pub fn settings(&self) -> (s: &ConsumerSettings)
        ensures
            s.connection@ == self@.connection,
            s.config@ == self@.config,
    {
        match self {
            KafkaConsumer::Cpp(s) => s,
            KafkaConsumer::Java(s) => s,
        }
    }
}

impl KafkaAdmin {
    pub fn driver(&self) -> (d: KafkaDriver)
        ensures
            d == self@.driver,
    {
        match self {
            KafkaAdmin::Cpp(_) => KafkaDriver::Cpp,
            KafkaAdmin::Java(_) => KafkaDriver::Java,
        }
    }

    pub fn settings(&self) -> (s: &KafkaConnectionSettings)
        ensures
            s@ == self@.settings,
    {
        match self {
            KafkaAdmin::Cpp(s) => s,
            KafkaAdmin::Java(s) => s,
        }
    }
}

} // verus!
