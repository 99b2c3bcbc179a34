//! Results that are held against their schema and then dropped.

use super::{
    check_result_json, get_schema, schema_fault, schema_of, ExtractCodeError, ResultsProducer,
};
use vstd::prelude::*;

verus! {

/// Takes every result that fits the schema and drops it.
pub struct DummyResultsProducer {
    schema: sentry_kafka_schemas::Schema,
}

impl DummyResultsProducer {
    /// The schema that results have to fit.
    pub closed spec fn fits(self) -> sentry_kafka_schemas::Schema {
        self.schema
    }

    /// A producer for the topic of results, whatever topic is asked for.
    pub fn new(_topic_name: &str) -> (r: DummyResultsProducer)
        requires
            schema_of("uptime-results"@) is Ok,
        ensures
            schema_of("uptime-results"@) == Ok::<sentry_kafka_schemas::Schema, Seq<char>>(r.fits()),
    {
        let schema = get_schema("uptime-results").unwrap();
        DummyResultsProducer { schema }
    }

    /// A producer for the topic of results, if that has a schema.
    pub fn find(topic_name: &str) -> (r: Result<DummyResultsProducer, ExtractCodeError>)
        ensures
            match schema_of("uptime-results"@) {
                Ok(schema) => r matches Ok(p) && p.fits() == schema,
                Err(e) => r matches Err(ExtractCodeError::Schema(x)) && x@ == e,
            },
    {
        match get_schema("uptime-results") {
            Ok(_) => Ok(DummyResultsProducer::new(topic_name)),
            Err(e) => Err(ExtractCodeError::Schema(e)),
        }
    }
}

impl ResultsProducer for DummyResultsProducer {
    open spec fn takes(&self, json: Seq<u8>) -> bool {
        schema_fault(self.fits(), json) is None
    }

    fn produce_checker_result(&self, json: &Vec<u8>) -> (r: Result<(), ExtractCodeError>)
        ensures
            match schema_fault(self.fits(), json@) {
                None => r is Ok,
                Some(e) => r matches Err(ExtractCodeError::Schema(x)) && x@ == e,
            },
    {
        check_result_json(&self.schema, json)
    }
}

} // verus!
