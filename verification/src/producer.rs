//! Where results go.

pub mod dummy_producer;
pub mod noop_producer;
pub mod vector_producer;

use crate::checker::reqwest_checker::{status_line, status_text};
use vstd::prelude::*;

verus! {

/// Why a result was not produced.
#[derive(Debug)]
pub enum ExtractCodeError {
    /// It could not be written as JSON.
    Serialization(String),
    /// The producer did not take it.
    Producer(String),
    /// It does not fit the schema of the topic.
    Schema(String),
    /// The request to vector failed.
    VectorRequestError(String),
    /// Vector answered with this status.
    VectorRequestStatusError(u16),
    /// Vector did not take it.
    VectorError,
}

impl ExtractCodeError {
    /// The status is one that a response can have.
    pub open spec fn wf(self) -> bool {
        self matches ExtractCodeError::VectorRequestStatusError(status) ==> 100 <= status < 1000
    }

    /// The error as a sentence.
    pub open spec fn sentence(self) -> Seq<char> {
        match self {
            ExtractCodeError::Serialization(s) => s@,
            ExtractCodeError::Producer(s) => s@,
            ExtractCodeError::Schema(s) => s@,
            ExtractCodeError::VectorRequestError(s) => s@,
            ExtractCodeError::VectorRequestStatusError(status) =>
            "Vector request failed with status: "@ + status_line(status),
            ExtractCodeError::VectorError => "Vector request failed"@,
        }
    }

    /// The error as a sentence.
    pub fn message(&self) -> (r: String)
        requires
            self.wf(),
        ensures
            r@ == self.sentence(),
    {
        match self {
            ExtractCodeError::Serialization(s) => s.clone(),
            ExtractCodeError::Producer(s) => s.clone(),
            ExtractCodeError::Schema(s) => s.clone(),
            ExtractCodeError::VectorRequestError(s) => s.clone(),
            ExtractCodeError::VectorRequestStatusError(status) =>
            "Vector request failed with status: ".to_owned().concat(status_text(*status).as_str()),
            ExtractCodeError::VectorError => "Vector request failed".to_owned(),
        }
    }
}

/// The schema of a topic.
#[verifier::external_type_specification]
#[verifier::external_body]
pub struct ExSchema(sentry_kafka_schemas::Schema);

/// The latest schema of a topic, or what the error says.
pub uninterp spec fn schema_of(topic: Seq<char>) -> Result<sentry_kafka_schemas::Schema, Seq<char>>;

/// `sentry_kafka_schemas::get_schema`, for the latest version. Which topics have a
/// schema is named, not spelled out.
#[verifier::external_body]
pub(crate) fn get_schema(topic: &str) -> (r: Result<sentry_kafka_schemas::Schema, String>)
    ensures
        match r {
            Ok(schema) => schema_of(topic@) == Ok::<sentry_kafka_schemas::Schema, Seq<char>>(
                schema,
            ),
            Err(e) => schema_of(topic@) == Err::<sentry_kafka_schemas::Schema, Seq<char>>(e@),
        },
{
    sentry_kafka_schemas::get_schema(topic, None).map_err(|e| e.to_string())
}

/// Why JSON does not fit a schema, if it does not.
pub uninterp spec fn schema_fault(schema: sentry_kafka_schemas::Schema, json: Seq<u8>) -> Option<
    Seq<char>,
>;

/// `sentry_kafka_schemas::Schema::validate_json`: whether JSON fits the schema. What fits
/// is named, not spelled out.
#[verifier::external_body]
pub(crate) fn validate_json(schema: &sentry_kafka_schemas::Schema, json: &[u8]) -> (r: Result<
    (),
    String,
>)
    ensures
        match r {
            Ok(_) => schema_fault(*schema, json@) is None,
            Err(e) => schema_fault(*schema, json@) == Some(e@),
        },
{
    schema.validate_json(json).map(|_| ()).map_err(|e| e.to_string())
}

/// Holds a result, written as JSON, against the schema of its topic.
pub fn check_result_json(schema: &sentry_kafka_schemas::Schema, json: &Vec<u8>) -> (r: Result<
    (),
    ExtractCodeError,
>)
    ensures
        match schema_fault(*schema, json@) {
            None => r is Ok,
            Some(e) => r matches Err(ExtractCodeError::Schema(x)) && x@ == e,
        },
{
    match validate_json(schema, json.as_slice()) {
        Ok(_) => Ok(()),
        Err(e) => Err(ExtractCodeError::Schema(e)),
    }
}

/// Takes results, written as JSON.
pub trait ResultsProducer {
    /// A result is taken.
    spec fn takes(&self, json: Seq<u8>) -> bool;

    /// Takes a result, or says why not.
    fn produce_checker_result(&self, json: &Vec<u8>) -> (r: Result<(), ExtractCodeError>)
        ensures
            r is Ok <==> self.takes(json@),
    ;
}

} // verus!
