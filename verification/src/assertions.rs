//! Assertions about a response, as they are written in a check's configuration.

pub mod cache;
pub mod comparisons;
pub mod compiled;
pub mod laws;
pub mod path_text;
pub mod queries;

use vstd::prelude::*;

verus! {

/// An assertion: one operation, most often a combination of others.
#[derive(Debug, Eq, Hash)]
pub struct Assertion {
    pub root: Op,
}

/// How a value of the response is held against the operand.
#[derive(Clone, Copy, Debug, PartialEq, Eq, Hash, Structural)]
pub enum Comparison {
    Always,
    Never,
    LessThan,
    GreaterThan,
    Equals,
    NotEqual,
}

/// A glob, as text.
#[derive(Debug, PartialEq, Eq, Hash)]
pub struct GlobPattern {
    pub value: String,
}

/// What a header's name or value is compared with.
#[derive(Debug, PartialEq, Eq, Hash)]
pub enum HeaderOperand {
    Nothing,
    Literal { value: String },
    Glob { pattern: GlobPattern },
}

/// What the results of a JSONPath query are compared with.
#[derive(Debug, PartialEq, Eq, Hash)]
pub enum JSONPathOperand {
    Nothing,
    Literal { value: String },
    Glob { pattern: GlobPattern },
}

/// One operation of an assertion.
#[derive(Debug, Eq, Hash)]
#[allow(inconsistent_fields)]
pub enum Op {
    And { children: Vec<Op> },
    Or { children: Vec<Op> },
    Not { operand: Box<Op> },
    StatusCodeCheck { value: u16, operator: Comparison },
    JsonPath { value: String, operator: Comparison, operand: JSONPathOperand },
    HeaderCheck {
        key_op: Comparison,
        key_operand: HeaderOperand,
        value_op: Comparison,
        value_operand: HeaderOperand,
    },
}

impl Default for Comparison {
    /// A query without a comparison only asks for a result.
    fn default() -> (r: Self)
        ensures
            r == Comparison::Always,
    {
        Comparison::Always
    }
}

impl Default for JSONPathOperand {
    /// A query without an operand compares with nothing.
    fn default() -> (r: Self)
        ensures
            r is Nothing,
    {
        JSONPathOperand::Nothing
    }
}

/// Two header operands that say the same.
pub open spec fn same_header_operand(a: HeaderOperand, b: HeaderOperand) -> bool {
    match (a, b) {
        (HeaderOperand::Nothing, HeaderOperand::Nothing) => true,
        (HeaderOperand::Literal { value: x }, HeaderOperand::Literal { value: y }) => x@ == y@,
        (HeaderOperand::Glob { pattern: x }, HeaderOperand::Glob { pattern: y }) => x.value@
            == y.value@,
        _ => false,
    }
}

/// Two query operands that say the same.
pub open spec fn same_json_operand(a: JSONPathOperand, b: JSONPathOperand) -> bool {
    match (a, b) {
        (JSONPathOperand::Nothing, JSONPathOperand::Nothing) => true,
        (JSONPathOperand::Literal { value: x }, JSONPathOperand::Literal { value: y }) => x@ == y@,
        (JSONPathOperand::Glob { pattern: x }, JSONPathOperand::Glob { pattern: y }) => x.value@
            == y.value@,
        _ => false,
    }
}

/// Two operations that say the same, down to their leaves.
pub open spec fn same_op(a: Op, b: Op) -> bool
    decreases a, 0int,
{
    match (a, b) {
        (Op::And { children: x }, Op::And { children: y }) => x@.len() == y@.len() && same_ops(
            x@,
            y@,
            0,
        ),
        (Op::Or { children: x }, Op::Or { children: y }) => x@.len() == y@.len() && same_ops(
            x@,
            y@,
            0,
        ),
        (Op::Not { operand: x }, Op::Not { operand: y }) => same_op(*x, *y),
        (
            Op::StatusCodeCheck { value: x, operator: p },
            Op::StatusCodeCheck { value: y, operator: q },
        ) => x == y && p == q,
        (
            Op::JsonPath { value: x, operator: p, operand: m },
            Op::JsonPath { value: y, operator: q, operand: n },
        ) => x@ == y@ && p == q && same_json_operand(m, n),
        (
            Op::HeaderCheck { key_op: a1, key_operand: a2, value_op: a3, value_operand: a4 },
            Op::HeaderCheck { key_op: b1, key_operand: b2, value_op: b3, value_operand: b4 },
        ) => a1 == b1 && same_header_operand(a2, b2) && a3 == b3 && same_header_operand(a4, b4),
        _ => false,
    }
}

/// From position `from` on, the two lists say the same pairwise.
pub open spec fn same_ops(a: Seq<Op>, b: Seq<Op>, from: int) -> bool
    decreases a, a.len() - from,
{
    if 0 <= from < a.len() && from < b.len() {
        same_op(a[from], b[from]) && same_ops(a, b, from + 1)
    } else {
        true
    }
}

/// The list says the same pairwise iff it does at every position.
pub proof fn lemma_same_ops(a: Seq<Op>, b: Seq<Op>, from: int)
    requires
        0 <= from <= a.len(),
        a.len() == b.len(),
    ensures
        same_ops(a, b, from) <==> forall|i: int| from <= i < a.len() ==> same_op(#[trigger] a[i], b[i]),
    decreases a.len() - from,
{
    if from < a.len() {
        lemma_same_ops(a, b, from + 1);
    }
}

fn header_operands_equal(a: &HeaderOperand, b: &HeaderOperand) -> (r: bool)
    ensures
        r == same_header_operand(*a, *b),
{
    match (a, b) {
        (HeaderOperand::Nothing, HeaderOperand::Nothing) => true,
        (HeaderOperand::Literal { value: x }, HeaderOperand::Literal { value: y }) => *x == *y,
        (HeaderOperand::Glob { pattern: x }, HeaderOperand::Glob { pattern: y }) => x.value
            == y.value,
        _ => false,
    }
}

fn json_operands_equal(a: &JSONPathOperand, b: &JSONPathOperand) -> (r: bool)
    ensures
        r == same_json_operand(*a, *b),
{
    match (a, b) {
        (JSONPathOperand::Nothing, JSONPathOperand::Nothing) => true,
        (JSONPathOperand::Literal { value: x }, JSONPathOperand::Literal { value: y }) => *x == *y,
        (JSONPathOperand::Glob { pattern: x }, JSONPathOperand::Glob { pattern: y }) => x.value
            == y.value,
        _ => false,
    }
}

fn ops_equal(a: &Op, b: &Op) -> (r: bool)
    ensures
        r == same_op(*a, *b),
    decreases a,
{
    match (a, b) {
        (Op::And { children: x }, Op::And { children: y }) => lists_equal(x, y),
        (Op::Or { children: x }, Op::Or { children: y }) => lists_equal(x, y),
        (Op::Not { operand: x }, Op::Not { operand: y }) => ops_equal(x, y),
        (
            Op::StatusCodeCheck { value: x, operator: p },
            Op::StatusCodeCheck { value: y, operator: q },
        ) => *x == *y && *p == *q,
        (
            Op::JsonPath { value: x, operator: p, operand: m },
            Op::JsonPath { value: y, operator: q, operand: n },
        ) => *x == *y && *p == *q && json_operands_equal(m, n),
        (
            Op::HeaderCheck { key_op: a1, key_operand: a2, value_op: a3, value_operand: a4 },
            Op::HeaderCheck { key_op: b1, key_operand: b2, value_op: b3, value_operand: b4 },
        ) => *a1 == *b1 && header_operands_equal(a2, b2) && *a3 == *b3 && header_operands_equal(
            a4,
            b4,
        ),
        _ => false,
    }
}

fn lists_equal(a: &Vec<Op>, b: &Vec<Op>) -> (r: bool)
    ensures
        r == (a@.len() == b@.len() && same_ops(a@, b@, 0)),
    decreases a,
{
    if a.len() != b.len() {
        return false;
    }
    let mut i: usize = 0;
    while i < a.len()
        invariant
            i <= a@.len(),
            a@.len() == b@.len(),
            same_ops(a@, b@, 0) == same_ops(a@, b@, i as int),
        decreases a.len() - i,
    {
        if !ops_equal(&a[i], &b[i]) {
            return false;
        }
        i = i + 1;
    }
    true
}

impl PartialEq for Op {
    fn eq(&self, other: &Op) -> (r: bool) {
        ops_equal(self, other)
    }
}

impl vstd::std_specs::cmp::PartialEqSpecImpl for Op {
    open spec fn obeys_eq_spec() -> bool {
        true
    }

    open spec fn eq_spec(&self, other: &Op) -> bool {
        same_op(*self, *other)
    }
}

impl PartialEq for Assertion {
    fn eq(&self, other: &Assertion) -> (r: bool) {
        ops_equal(&self.root, &other.root)
    }
}

impl vstd::std_specs::cmp::PartialEqSpecImpl for Assertion {
    open spec fn obeys_eq_spec() -> bool {
        true
    }

    open spec fn eq_spec(&self, other: &Assertion) -> bool {
        same_op(self.root, other.root)
    }
}

impl Clone for GlobPattern {
    fn clone(&self) -> (r: Self)
        ensures
            r.value@ == self.value@,
    {
        GlobPattern { value: self.value.clone() }
    }
}

impl Clone for HeaderOperand {
    fn clone(&self) -> (r: Self)
        ensures
            same_header_operand(*self, r),
    {
        match self {
            HeaderOperand::Nothing => HeaderOperand::Nothing,
            HeaderOperand::Literal { value } => HeaderOperand::Literal { value: value.clone() },
            HeaderOperand::Glob { pattern } => HeaderOperand::Glob { pattern: pattern.clone() },
        }
    }
}

impl Clone for JSONPathOperand {
    fn clone(&self) -> (r: Self)
        ensures
            same_json_operand(*self, r),
    {
        match self {
            JSONPathOperand::Nothing => JSONPathOperand::Nothing,
            JSONPathOperand::Literal { value } => JSONPathOperand::Literal { value: value.clone() },
            JSONPathOperand::Glob { pattern } => JSONPathOperand::Glob { pattern: pattern.clone() },
        }
    }
}

impl Clone for Op {
    fn clone(&self) -> (r: Self)
        ensures
            same_op(*self, r),
        decreases self,
    {
        match self {
            Op::And { children } => {
                let copies = clone_ops(children);
                Op::And { children: copies }
            },
            Op::Or { children } => {
                let copies = clone_ops(children);
                Op::Or { children: copies }
            },
            Op::Not { operand } => {
                let inner: &Op = operand;
                Op::Not { operand: Box::new(inner.clone()) }
            },
            Op::StatusCodeCheck { value, operator } => Op::StatusCodeCheck {
                value: *value,
                operator: *operator,
            },
            Op::JsonPath { value, operator, operand } => Op::JsonPath {
                value: value.clone(),
                operator: *operator,
                operand: operand.clone(),
            },
            Op::HeaderCheck { key_op, key_operand, value_op, value_operand } => Op::HeaderCheck {
                key_op: *key_op,
                key_operand: key_operand.clone(),
                value_op: *value_op,
                value_operand: value_operand.clone(),
            },
        }
    }
}

fn clone_ops(ops: &Vec<Op>) -> (r: Vec<Op>)
    ensures
        r@.len() == ops@.len(),
        same_ops(ops@, r@, 0),
    decreases ops,
{
    let mut copies: Vec<Op> = Vec::new();
    let mut i: usize = 0;
    while i < ops.len()
        invariant
            i <= ops.len(),
            copies@.len() == i,
            forall|j: int| 0 <= j < i ==> same_op(#[trigger] ops@[j], copies@[j]),
        decreases ops.len() - i,
    {
        let copy = ops[i].clone();
        copies.push(copy);
        i = i + 1;
    }
    proof {
        lemma_same_ops(ops@, copies@, 0);
    }
    copies
}

impl Clone for Assertion {
    fn clone(&self) -> (r: Self)
        ensures
            same_op(self.root, r.root),
    {
        Assertion { root: self.root.clone() }
    }
}

/// Whether a JSONPath query stands anywhere in the operation.
pub open spec fn queries_body(op: Op) -> bool
    decreases op, 0int,
{
    match op {
        Op::And { children } => any_queries_body(children@, 0),
        Op::Or { children } => any_queries_body(children@, 0),
        Op::Not { operand } => queries_body(*operand),
        Op::JsonPath { .. } => true,
        _ => false,
    }
}

/// Whether a JSONPath query stands in the list, from position `from` on.
pub open spec fn any_queries_body(ops: Seq<Op>, from: int) -> bool
    decreases ops, ops.len() - from,
{
    if 0 <= from < ops.len() {
        queries_body(ops[from]) || any_queries_body(ops, from + 1)
    } else {
        false
    }
}

impl Assertion {
    fn requires_body_impl(op: &Op) -> (r: bool)
        ensures
            r == queries_body(*op),
        decreases op,
    {
        match op {
            Op::And { children } => Assertion::any_requires_body(children),
            Op::Or { children } => Assertion::any_requires_body(children),
            Op::Not { operand } => Assertion::requires_body_impl(operand),
            Op::StatusCodeCheck { .. } => false,
            Op::JsonPath { .. } => true,
            Op::HeaderCheck { .. } => false,
        }
    }

    fn any_requires_body(ops: &Vec<Op>) -> (r: bool)
        ensures
            r == any_queries_body(ops@, 0),
        decreases ops,
    {
        let mut i: usize = 0;
        while i < ops.len()
            invariant
                i <= ops.len(),
                any_queries_body(ops@, 0) == any_queries_body(ops@, i as int),
            decreases ops.len() - i,
        {
            if Assertion::requires_body_impl(&ops[i]) {
                return true;
            }
            i = i + 1;
        }
        false
    }

    /// Whether the assertion can be decided only with the response's body.
    pub fn requires_body(&self) -> (r: bool)
        ensures
            r == queries_body(self.root),
    {
        Assertion::requires_body_impl(&self.root)
    }
}

/// The body is read for queries, wherever in an assertion they stand, and for nothing else.
pub proof fn law_bodies_are_read_for_queries(op: Op)
    ensures
        op matches Op::And { children } ==> (queries_body(op) <==> exists|i: int|
            0 <= i < children@.len() && queries_body(#[trigger] children@[i])),
        op matches Op::Or { children } ==> (queries_body(op) <==> exists|i: int|
            0 <= i < children@.len() && queries_body(#[trigger] children@[i])),
        op matches Op::Not { operand } ==> queries_body(op) == queries_body(*operand),
        op is JsonPath ==> queries_body(op),
        op is StatusCodeCheck || op is HeaderCheck ==> !queries_body(op),
{
    match op {
        Op::And { children } => lemma_any_queries_body(children@, 0),
        Op::Or { children } => lemma_any_queries_body(children@, 0),
        _ => {},
    }
}

proof fn lemma_any_queries_body(ops: Seq<Op>, from: int)
    requires
        0 <= from,
    ensures
        any_queries_body(ops, from) <==> exists|i: int|
            from <= i < ops.len() && queries_body(#[trigger] ops[i]),
    decreases ops.len() - from,
{
    if from < ops.len() {
        lemma_any_queries_body(ops, from + 1);
        if any_queries_body(ops, from + 1) {
            let i = choose|i: int| from + 1 <= i < ops.len() && queries_body(#[trigger] ops[i]);
            assert(from <= i < ops.len() && queries_body(ops[i]));
        }
        if queries_body(ops[from]) {
            assert(from <= from < ops.len() && queries_body(ops[from]));
        }
    }
}

} // verus!
