//! Results that go nowhere.

use super::{ExtractCodeError, ResultsProducer};
use vstd::prelude::*;

verus! {

/// Takes every result and does nothing with it, for callers that await the result
/// themselves.
#[derive(Debug)]
pub struct NoopResultsProducer {}

impl NoopResultsProducer {
    /// A producer that does nothing.
    pub fn new() -> (r: NoopResultsProducer)
        ensures
            forall|json: Seq<u8>| r.takes(json),
    {
        NoopResultsProducer {  }
    }
}

impl ResultsProducer for NoopResultsProducer {
    open spec fn takes(&self, json: Seq<u8>) -> bool {
        true
    }

    fn produce_checker_result(&self, json: &Vec<u8>) -> (r: Result<(), ExtractCodeError>) {
        Ok(())
    }
}

} // verus!
