//! Assertions about the status and the headers of a response, with regular
//! expressions.

pub mod compiled;

use vstd::prelude::*;

verus! {

/// An assertion: one operation, most often a combination of others.
#[derive(Debug)]
pub struct Assertion {
    pub root: Op,
}

/// How a status is held against a value.
#[derive(Clone, Copy, Debug, PartialEq, Eq, Structural)]
pub enum Comparison {
    LessThan,
    GreaterThan,
    Equal,
    NotEqual,
}

/// What a header's name or value is compared with.
#[derive(Debug)]
#[allow(inconsistent_fields)]
pub enum HeaderOperand {
    Literal { value: String },
    Regex { value: String },
}

/// What is asked of a header's name or value.
#[derive(Debug)]
#[allow(inconsistent_fields)]
pub enum HeaderComparison {
    Always,
    Never,
    Equals { test_value: HeaderOperand },
    NotEquals { test_value: HeaderOperand },
    LessThan { test_value: String },
    GreaterThan { test_value: String },
}

/// One operation of an assertion.
#[derive(Debug)]
#[allow(inconsistent_fields)]
pub enum Op {
    And { children: Vec<Op> },
    Or { children: Vec<Op> },
    Not { operand: Box<Op> },
    StatusCodeCheck { value: u16, operator: Comparison },
    HeaderCheck { key: HeaderComparison, value: HeaderComparison },
}

} // verus!
