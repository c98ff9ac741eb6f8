use vstd::prelude::*;

use crate::ports::{
    CommandRecognizer, ProgressNotifier, PropertiesSource, QueryRangeEstimator, RecordFinder,
    TopicsFinder,
};

verus! {

/// The command-line side of the application: recognizes commands.
pub trait CliModule {
    type Recognizer: CommandRecognizer;

    fn command_recognizer(&self) -> &Self::Recognizer;
}

/// The broker side: finds topics, estimates ranges and pulls records.
pub trait KafkaModule {
    type Topics: TopicsFinder;
    type Estimator: QueryRangeEstimator;
    type Records: RecordFinder;

    fn topics_finder(&self) -> &Self::Topics;

    fn query_range_estimator(&self) -> &Self::Estimator;

    fn record_finder(&self) -> &Self::Records;
}

/// The console side: progress reporting.
pub trait ConsoleModule {
    type Notifier: ProgressNotifier;

    fn progress_notifier(&self) -> &Self::Notifier;
}

/// The configuration side: loads properties.
pub trait PropertiesModule {
    type Source: PropertiesSource;

    fn properties_source(&self) -> &Self::Source;
}

/// The assembled application: each interchangeable backend bound exactly
/// once, at construction, and reached through an explicit boundary — never
/// through a runtime service locator.
pub trait Module {
    type Cli: CliModule;
    type Kafka: KafkaModule;
    type Console: ConsoleModule;
    type Properties: PropertiesModule;

    fn cli_module(&self) -> &Self::Cli;

    fn kafka_module(&self) -> &Self::Kafka;

    fn console_module(&self) -> &Self::Console;

    fn properties_module(&self) -> &Self::Properties;
}

/// The four backends of one application run, held together by value.
#[derive(Debug)]
pub struct DomainModule<C, K, Co, P> {
    pub cli: C,
    pub kafka: K,
    pub console: Co,
    pub properties: P,
}

impl<C: CliModule, K: KafkaModule, Co: ConsoleModule, P: PropertiesModule> Module for DomainModule<
    C,
    K,
    Co,
    P,
> {
    type Cli = C;

    type Kafka = K;

    type Console = Co;

    type Properties = P;

    fn cli_module(&self) -> (r: &C)
        ensures
            *r == self.cli,
    {
        &self.cli
    }

    fn kafka_module(&self) -> (r: &K)
        ensures
            *r == self.kafka,
    {
        &self.kafka
    }

    fn console_module(&self) -> (r: &Co)
        ensures
            *r == self.console,
    {
        &self.console
    }

    fn properties_module(&self) -> (r: &P)
        ensures
            *r == self.properties,
    {
        &self.properties
    }
}

/// Binds the interchangeable backends once; each part is carried unchanged
/// into the assembled module.
pub fn module<C: CliModule, K: KafkaModule, Co: ConsoleModule, P: PropertiesModule>(
    cli_module: C,
    kafka_module: K,
    console_module: Co,
    properties_module: P,
) -> (m: DomainModule<C, K, Co, P>)
    ensures
        m.cli == cli_module,
        m.kafka == kafka_module,
        m.console == console_module,
        m.properties == properties_module,
{
    DomainModule {
        cli: cli_module,
        kafka: kafka_module,
        console: console_module,
        properties: properties_module,
    }
}

} // verus!
