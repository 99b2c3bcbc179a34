//! Compiled assertions, and what a response makes of them.

use crate::assertions::compiled::{
    ascii_text, compile_value, header_text, integers_relate, is_visible, numbers_relate, reads_as,
    texts_relate, Header, LiteralValue, Relation,
};
use crate::number;
use crate::number::{is_nan, law_patterns_compare_by_value, number_in, value_of};
use crate::text;
use crate::text::{i64_in, law_texts_are_ordered_by_bytes};
use crate::types::assertion;
use crate::types::assertion::Comparison;
use vstd::prelude::*;
use vstd::utf8::encode_utf8;

verus! {

/// How large a compiled regular expression may be, in bytes. Even plain looking
/// classes are large, because of the many characters of Unicode.
pub const REGEX_SIZE_LIMIT: usize = 65536;

/// Why an assertion does not compile.
#[derive(Debug)]
pub enum Error {
    InvalidRegex(String),
    RegexTooBig(usize),
}

/// Why an assertion does not compile, with texts by their characters.
pub enum ErrorView {
    InvalidRegex(Seq<char>),
    RegexTooBig(usize),
}

impl View for Error {
    type V = ErrorView;

    open spec fn view(&self) -> ErrorView {
        match self {
            Error::InvalidRegex(s) => ErrorView::InvalidRegex(s@),
            Error::RegexTooBig(n) => ErrorView::RegexTooBig(*n),
        }
    }
}

impl Error {
    /// The error as a sentence.
    pub fn message(&self) -> (r: String)
        ensures
            r@ == (match self {
                Error::InvalidRegex(_) => "Invalid regex syntax"@,
                Error::RegexTooBig(_) => "Regex is too complicated"@,
            }),
    {
        match self {
            Error::InvalidRegex(_) => "Invalid regex syntax".to_owned(),
            Error::RegexTooBig(_) => "Regex is too complicated".to_owned(),
        }
    }
}

/// A compiled regular expression.
#[verifier::external_type_specification]
#[verifier::external_body]
pub struct ExRegex(regex::Regex);

/// The regular expression that a pattern denotes within a size, or why it denotes none.
pub uninterp spec fn regex_in(pattern: Seq<char>, size_limit: usize) -> Result<
    regex::Regex,
    ErrorView,
>;

/// `regex::RegexBuilder::build`, with a size limit and otherwise as it comes. Which
/// patterns denote a regular expression is named, not spelled out; an error tells bad
/// syntax from too large a size.
#[verifier::external_body]
fn build_regex(pattern: &str, size_limit: usize) -> (r: Result<regex::Regex, Error>)
    ensures
        match r {
            Ok(compiled) => regex_in(pattern@, size_limit) == Ok::<regex::Regex, ErrorView>(
                compiled,
            ),
            Err(e) => regex_in(pattern@, size_limit) == Err::<regex::Regex, ErrorView>(e@),
        },
{
    regex::RegexBuilder::new(pattern).size_limit(size_limit).build().map_err(
        |e| match e {
            regex::Error::CompiledTooBig(n) => Error::RegexTooBig(n),
            regex::Error::Syntax(s) => Error::InvalidRegex(s),
            other => Error::InvalidRegex(other.to_string()),
        },
    )
}

/// A regular expression matches somewhere in a text.
pub uninterp spec fn matched_by(compiled: regex::Regex, subject: Seq<char>) -> bool;

/// `regex::Regex::is_match`: whether there is a match anywhere in a text. What matches
/// is named, not spelled out.
#[verifier::external_body]
fn is_match(compiled: &regex::Regex, subject: &str) -> (r: bool)
    ensures
        r == matched_by(*compiled, subject@),
{
    compiled.is_match(subject)
}

/// What a header's name or value is compared with.
#[derive(Debug)]
#[allow(inconsistent_fields)]
pub enum HeaderOperand {
    Literal { value: LiteralValue },
    Regex { value: regex::Regex },
}

/// What is asked of a header's name or value.
#[derive(Debug)]
#[allow(inconsistent_fields)]
pub enum HeaderComparison {
    Always,
    Never,
    Equals { test_value: HeaderOperand },
    NotEquals { test_value: HeaderOperand },
    LessThan { test_value: LiteralValue },
    GreaterThan { test_value: LiteralValue },
}

/// One operation of a compiled assertion.
#[derive(Debug)]
#[allow(inconsistent_fields)]
pub enum Op {
    And { children: Vec<Op> },
    Or { children: Vec<Op> },
    Not { operand: Box<Op> },
    StatusCodeCheck { value: u16, operator: Comparison },
    HeaderCheck { key: HeaderComparison, value: HeaderComparison },
}

/// A compiled assertion.
#[derive(Debug)]
pub struct Assertion {
    pub root: Op,
}

/// A text is read as the sort of a literal and stands in a relation to it. A text that
/// cannot be read so stands in none.
pub open spec fn literal_relates(
    relation: Relation,
    subject: Seq<char>,
    literal: LiteralValue,
) -> bool {
    match literal {
        LiteralValue::I64(b) => i64_in(subject) matches Some(a) && integers_relate(
            relation,
            a,
            b as int,
        ),
        LiteralValue::F64(b) => number_in(subject) matches Ok(a) && numbers_relate(relation, a, b),
        LiteralValue::Text(b) => texts_relate(relation, subject, b@),
    }
}

fn relate(relation: Relation, subject: &str, literal: &LiteralValue) -> (r: bool)
    ensures
        r == literal_relates(relation, subject@, *literal),
{
    match literal {
        LiteralValue::I64(b) => match text::parse_i64(subject) {
            Ok(a) => match relation {
                Relation::Equal => a == *b,
                Relation::Less => a < *b,
                Relation::Greater => a > *b,
            },
            Err(_) => false,
        },
        LiteralValue::F64(b) => match number::parse_number(subject) {
            Ok(a) => match relation {
                Relation::Equal => number::equals(a, *b),
                Relation::Less => number::less(a, *b),
                Relation::Greater => number::less(*b, a),
            },
            Err(_) => false,
        },
        LiteralValue::Text(b) => match relation {
            Relation::Equal => text::text_eq(subject, b.as_str()),
            Relation::Less => text::text_lt(subject, b.as_str()),
            Relation::Greater => text::text_lt(b.as_str(), subject),
        },
    }
}

/// A text equals an operand.
pub open spec fn operand_equals(subject: Seq<char>, operand: HeaderOperand) -> bool {
    match operand {
        HeaderOperand::Literal { value } => literal_relates(Relation::Equal, subject, value),
        HeaderOperand::Regex { value } => matched_by(value, subject),
    }
}

fn equals_operand(subject: &str, operand: &HeaderOperand) -> (r: bool)
    ensures
        r == operand_equals(subject@, *operand),
{
    match operand {
        HeaderOperand::Literal { value } => relate(Relation::Equal, subject, value),
        HeaderOperand::Regex { value } => is_match(value, subject),
    }
}

impl HeaderComparison {
    /// A text passes.
    pub open spec fn passes(self, subject: Seq<char>) -> bool {
        match self {
            HeaderComparison::Always => true,
            HeaderComparison::Never => false,
            HeaderComparison::Equals { test_value } => operand_equals(subject, test_value),
            HeaderComparison::NotEquals { test_value } => !operand_equals(subject, test_value),
            HeaderComparison::LessThan { test_value } => literal_relates(
                Relation::Less,
                subject,
                test_value,
            ),
            HeaderComparison::GreaterThan { test_value } => literal_relates(
                Relation::Greater,
                subject,
                test_value,
            ),
        }
    }

    /// Whether a text passes.
    pub fn eval(&self, header_value: &str) -> (r: bool)
        ensures
            r == self.passes(header_value@),
    {
        match self {
            HeaderComparison::Always => true,
            HeaderComparison::Never => false,
            HeaderComparison::Equals { test_value } => equals_operand(header_value, test_value),
            HeaderComparison::NotEquals { test_value } => !equals_operand(header_value, test_value),
            HeaderComparison::LessThan { test_value } => relate(
                Relation::Less,
                header_value,
                test_value,
            ),
            HeaderComparison::GreaterThan { test_value } => relate(
                Relation::Greater,
                header_value,
                test_value,
            ),
        }
    }
}

/// A status passes.
pub open spec fn status_passes(status_code: u16, operator: Comparison, value: u16) -> bool {
    match operator {
        Comparison::LessThan => status_code < value,
        Comparison::GreaterThan => status_code > value,
        Comparison::Equal => status_code == value,
        Comparison::NotEqual => status_code != value,
    }
}

/// Some header passes by its name and its value, looking from one header on. Nothing
/// is said where a value that is to be looked at is no text.
pub open spec fn headers_verdict(
    key: HeaderComparison,
    value: HeaderComparison,
    headers: Seq<Header>,
    from: int,
) -> Option<bool>
    decreases headers.len() - from,
{
    if from < 0 || from >= headers.len() {
        Some(false)
    } else if !key.passes(headers[from].name@) {
        headers_verdict(key, value, headers, from + 1)
    } else if !is_visible(headers[from].value@) {
        None
    } else if value.passes(ascii_text(headers[from].value@)) {
        Some(true)
    } else {
        headers_verdict(key, value, headers, from + 1)
    }
}

/// What an operation comes to. Nothing is said where a header's value that is to be
/// looked at is no text.
pub open spec fn verdict(op: Op, status_code: u16, headers: Seq<Header>) -> Option<bool>
    decreases op, 0int,
{
    match op {
        Op::And { children } => verdict_of_all(children@, 0, false, status_code, headers),
        Op::Or { children } => verdict_of_all(children@, 0, true, status_code, headers),
        Op::Not { operand } => match verdict(*operand, status_code, headers) {
            Some(b) => Some(!b),
            None => None,
        },
        Op::StatusCodeCheck { value, operator } => Some(
            status_passes(status_code, operator, value),
        ),
        Op::HeaderCheck { key, value } => headers_verdict(key, value, headers, 0),
    }
}

/// What the operations from one on come to: the first that comes to `decisive` decides.
pub open spec fn verdict_of_all(
    children: Seq<Op>,
    from: int,
    decisive: bool,
    status_code: u16,
    headers: Seq<Header>,
) -> Option<bool>
    decreases children, children.len() - from,
{
    if from < 0 || from >= children.len() {
        Some(!decisive)
    } else {
        match verdict(children[from], status_code, headers) {
            None => None,
            Some(b) => if b == decisive {
                Some(decisive)
            } else {
                verdict_of_all(children, from + 1, decisive, status_code, headers)
            },
        }
    }
}

fn eval_headers(key: &HeaderComparison, value: &HeaderComparison, headers: &Vec<Header>) -> (r:
    Option<bool>)
    ensures
        r == headers_verdict(*key, *value, headers@, 0),
{
    let mut i: usize = 0;
    while i < headers.len()
        invariant
            i <= headers@.len(),
            headers_verdict(*key, *value, headers@, 0) == headers_verdict(
                *key,
                *value,
                headers@,
                i as int,
            ),
        decreases headers.len() - i,
    {
        let header = &headers[i];
        if key.eval(header.name.as_str()) {
            match header_text(header.value.as_slice()) {
                None => return None,
                Some(s) => if value.eval(s.as_str()) {
                    return Some(true);
                },
            }
        }
        i = i + 1;
    }
    Some(false)
}

impl Op {
    fn eval(&self, status_code: u16, headers: &Vec<Header>) -> (r: Option<bool>)
        ensures
            r == verdict(*self, status_code, headers@),
        decreases self,
    {
        match self {
            Op::And { children } => Op::eval_all(children, false, status_code, headers),
            Op::Or { children } => Op::eval_all(children, true, status_code, headers),
            Op::Not { operand } => match operand.eval(status_code, headers) {
                Some(b) => Some(!b),
                None => None,
            },
            Op::StatusCodeCheck { value, operator } => Some(
                match operator {
                    Comparison::LessThan => status_code < *value,
                    Comparison::GreaterThan => status_code > *value,
                    Comparison::Equal => status_code == *value,
                    Comparison::NotEqual => status_code != *value,
                },
            ),
            Op::HeaderCheck { key, value } => eval_headers(key, value, headers),
        }
    }

    fn eval_all(children: &Vec<Op>, decisive: bool, status_code: u16, headers: &Vec<Header>) -> (r:
        Option<bool>)
        ensures
            r == verdict_of_all(children@, 0, decisive, status_code, headers@),
        decreases children,
    {
        let mut i: usize = 0;
        while i < children.len()
            invariant
                i <= children@.len(),
                verdict_of_all(children@, 0, decisive, status_code, headers@) == verdict_of_all(
                    children@,
                    i as int,
                    decisive,
                    status_code,
                    headers@,
                ),
            decreases children.len() - i,
        {
            match children[i].eval(status_code, headers) {
                None => return None,
                Some(b) => if b == decisive {
                    return Some(decisive);
                },
            }
            i = i + 1;
        }
        Some(!decisive)
    }
}

impl Assertion {
    /// Whether a response passes, if every header value that is looked at is text.
    pub fn try_eval(&self, status_code: u16, headers: &Vec<Header>) -> (r: Option<bool>)
        ensures
            r == verdict(self.root, status_code, headers@),
    {
        self.root.eval(status_code, headers)
    }

    /// Whether a response passes. The body is not looked at.
    pub fn eval(&self, status_code: u16, headers: &Vec<Header>, _body: &str) -> (r: bool)
        requires
            verdict(self.root, status_code, headers@) is Some,
        ensures
            verdict(self.root, status_code, headers@) == Some(r),
    {
        self.root.eval(status_code, headers).unwrap()
    }
}

/// Why an operand does not compile.
pub open spec fn operand_fault(operand: assertion::HeaderOperand) -> Option<ErrorView> {
    match operand {
        assertion::HeaderOperand::Literal { .. } => None,
        assertion::HeaderOperand::Regex { value } => match regex_in(value@, REGEX_SIZE_LIMIT) {
            Ok(_) => None,
            Err(e) => Some(e),
        },
    }
}

/// An operand compiles to another.
pub open spec fn operand_compiles_to(operand: assertion::HeaderOperand, r: HeaderOperand) -> bool {
    match operand {
        assertion::HeaderOperand::Literal { value } => r matches HeaderOperand::Literal {
            value: v,
        } && reads_as(value@, v),
        assertion::HeaderOperand::Regex { value } => r matches HeaderOperand::Regex { value: v }
            && regex_in(value@, REGEX_SIZE_LIMIT) == Ok::<regex::Regex, ErrorView>(v),
    }
}

fn compile_operand(operand: &assertion::HeaderOperand) -> (r: Result<HeaderOperand, Error>)
    ensures
        match operand_fault(*operand) {
            Some(e) => r matches Err(x) && x@ == e,
            None => r matches Ok(v) && operand_compiles_to(*operand, v),
        },
{
    match operand {
        assertion::HeaderOperand::Literal { value } => Ok(
            HeaderOperand::Literal { value: compile_value(value) },
        ),
        assertion::HeaderOperand::Regex { value } => match build_regex(
            value.as_str(),
            REGEX_SIZE_LIMIT,
        ) {
            Ok(value) => Ok(HeaderOperand::Regex { value }),
            Err(e) => Err(e),
        },
    }
}

/// Why a comparison does not compile.
pub open spec fn comparison_fault(comparison: assertion::HeaderComparison) -> Option<ErrorView> {
    match comparison {
        assertion::HeaderComparison::Equals { test_value } => operand_fault(test_value),
        assertion::HeaderComparison::NotEquals { test_value } => operand_fault(test_value),
        _ => None,
    }
}

/// A comparison compiles to another.
pub open spec fn comparison_compiles_to(
    comparison: assertion::HeaderComparison,
    r: HeaderComparison,
) -> bool {
    match comparison {
        assertion::HeaderComparison::Always => r is Always,
        assertion::HeaderComparison::Never => r is Never,
        assertion::HeaderComparison::Equals { test_value } => r matches HeaderComparison::Equals {
            test_value: v,
        } && operand_compiles_to(test_value, v),
        assertion::HeaderComparison::NotEquals { test_value } => {
            r matches HeaderComparison::NotEquals { test_value: v } && operand_compiles_to(
                test_value,
                v,
            )
        },
        assertion::HeaderComparison::LessThan { test_value } => {
            r matches HeaderComparison::LessThan { test_value: v } && reads_as(test_value@, v)
        },
        assertion::HeaderComparison::GreaterThan { test_value } => {
            r matches HeaderComparison::GreaterThan { test_value: v } && reads_as(test_value@, v)
        },
    }
}

fn compile_comparison(comparison: &assertion::HeaderComparison) -> (r: Result<
    HeaderComparison,
    Error,
>)
    ensures
        match comparison_fault(*comparison) {
            Some(e) => r matches Err(x) && x@ == e,
            None => r matches Ok(v) && comparison_compiles_to(*comparison, v),
        },
{
    Ok(
        match comparison {
            assertion::HeaderComparison::Always => HeaderComparison::Always,
            assertion::HeaderComparison::Never => HeaderComparison::Never,
            assertion::HeaderComparison::Equals { test_value } => match compile_operand(
                test_value,
            ) {
                Ok(test_value) => HeaderComparison::Equals { test_value },
                Err(e) => return Err(e),
            },
            assertion::HeaderComparison::NotEquals { test_value } => match compile_operand(
                test_value,
            ) {
                Ok(test_value) => HeaderComparison::NotEquals { test_value },
                Err(e) => return Err(e),
            },
            assertion::HeaderComparison::LessThan { test_value } => HeaderComparison::LessThan {
                test_value: compile_value(test_value),
            },
            assertion::HeaderComparison::GreaterThan { test_value } =>
            HeaderComparison::GreaterThan { test_value: compile_value(test_value) },
        },
    )
}

/// Why an operation does not compile: the first fault in it.
pub open spec fn fault(op: assertion::Op) -> Option<ErrorView>
    decreases op, 0int,
{
    match op {
        assertion::Op::And { children } => fault_of_all(children@, 0),
        assertion::Op::Or { children } => fault_of_all(children@, 0),
        assertion::Op::Not { operand } => fault(*operand),
        assertion::Op::StatusCodeCheck { .. } => None,
        assertion::Op::HeaderCheck { key, value } => match comparison_fault(key) {
            Some(e) => Some(e),
            None => comparison_fault(value),
        },
    }
}

/// Why the operations from one on do not compile: the first fault in them.
pub open spec fn fault_of_all(children: Seq<assertion::Op>, from: int) -> Option<ErrorView>
    decreases children, children.len() - from,
{
    if from < 0 || from >= children.len() {
        None
    } else {
        match fault(children[from]) {
            Some(e) => Some(e),
            None => fault_of_all(children, from + 1),
        }
    }
}

/// An operation compiles to another.
pub open spec fn compiles_to(op: assertion::Op, r: Op) -> bool
    decreases op, 0int,
{
    match op {
        assertion::Op::And { children } => r matches Op::And { children: rs } && children@.len()
            == rs@.len() && all_compile_to(children@, rs@, 0),
        assertion::Op::Or { children } => r matches Op::Or { children: rs } && children@.len()
            == rs@.len() && all_compile_to(children@, rs@, 0),
        assertion::Op::Not { operand } => r matches Op::Not { operand: x } && compiles_to(
            *operand,
            *x,
        ),
        assertion::Op::StatusCodeCheck { value, operator } => r == (Op::StatusCodeCheck {
            value,
            operator,
        }),
        assertion::Op::HeaderCheck { key, value } => r matches Op::HeaderCheck { key: k, value: v }
            && comparison_compiles_to(key, k) && comparison_compiles_to(value, v),
    }
}

/// Each operation from one on compiles to its counterpart.
pub open spec fn all_compile_to(ops: Seq<assertion::Op>, r: Seq<Op>, from: int) -> bool
    decreases ops, ops.len() - from,
{
    if from < 0 || from >= ops.len() {
        true
    } else {
        compiles_to(ops[from], r[from]) && all_compile_to(ops, r, from + 1)
    }
}

proof fn lemma_all_compile_to(ops: Seq<assertion::Op>, r: Seq<Op>, from: int)
    requires
        0 <= from <= ops.len(),
        forall|i: int| from <= i < ops.len() ==> compiles_to(ops[i], #[trigger] r[i]),
    ensures
        all_compile_to(ops, r, from),
    decreases ops.len() - from,
{
    if from < ops.len() {
        assert(compiles_to(ops[from], r[from]));
        lemma_all_compile_to(ops, r, from + 1);
    }
}

fn compile_op(op: &assertion::Op) -> (r: Result<Op, Error>)
    ensures
        match fault(*op) {
            Some(e) => r matches Err(x) && x@ == e,
            None => r matches Ok(v) && compiles_to(*op, v),
        },
    decreases op,
{
    Ok(
        match op {
            assertion::Op::And { children } => match compile_children(children) {
                Ok(children) => Op::And { children },
                Err(e) => return Err(e),
            },
            assertion::Op::Or { children } => match compile_children(children) {
                Ok(children) => Op::Or { children },
                Err(e) => return Err(e),
            },
            assertion::Op::Not { operand } => match compile_op(operand) {
                Ok(operand) => Op::Not { operand: Box::new(operand) },
                Err(e) => return Err(e),
            },
            assertion::Op::StatusCodeCheck { value, operator } => Op::StatusCodeCheck {
                value: *value,
                operator: *operator,
            },
            assertion::Op::HeaderCheck { key, value } => {
                let key = match compile_comparison(key) {
                    Ok(key) => key,
                    Err(e) => return Err(e),
                };
                match compile_comparison(value) {
                    Ok(value) => Op::HeaderCheck { key, value },
                    Err(e) => return Err(e),
                }
            },
        },
    )
}

fn compile_children(children: &Vec<assertion::Op>) -> (r: Result<Vec<Op>, Error>)
    ensures
        match fault_of_all(children@, 0) {
            Some(e) => r matches Err(x) && x@ == e,
            None => r matches Ok(v) && v@.len() == children@.len() && all_compile_to(
                children@,
                v@,
                0,
            ),
        },
    decreases children,
{
    let mut compiled: Vec<Op> = Vec::new();
    let mut i: usize = 0;
    while i < children.len()
        invariant
            i <= children@.len(),
            compiled@.len() == i,
            fault_of_all(children@, 0) == fault_of_all(children@, i as int),
            forall|j: int| 0 <= j < i ==> compiles_to(children@[j], #[trigger] compiled@[j]),
        decreases children.len() - i,
    {
        match compile_op(&children[i]) {
            Ok(op) => compiled.push(op),
            Err(e) => return Err(e),
        }
        i = i + 1;
    }
    proof {
        lemma_all_compile_to(children@, compiled@, 0);
    }
    Ok(compiled)
}

/// Compiles an assertion.
pub fn compile(assertion: &assertion::Assertion) -> (r: Result<Assertion, Error>)
    ensures
        match fault(assertion.root) {
            Some(e) => r matches Err(x) && x@ == e,
            None => r matches Ok(v) && compiles_to(assertion.root, v.root),
        },
{
    match compile_op(&assertion.root) {
        Ok(root) => Ok(Assertion { root }),
        Err(e) => Err(e),
    }
}

/// Where every header value is text, every assertion comes to something.
pub proof fn law_readable_headers_decide(op: Op, status_code: u16, headers: Seq<Header>)
    requires
        forall|i: int| 0 <= i < headers.len() ==> is_visible((#[trigger] headers[i]).value@),
    ensures
        verdict(op, status_code, headers) is Some,
    decreases op, 0int,
{
    match op {
        Op::And { children } => {
            lemma_readable_headers_decide_all(children@, 0, false, status_code, headers);
        },
        Op::Or { children } => {
            lemma_readable_headers_decide_all(children@, 0, true, status_code, headers);
        },
        Op::Not { operand } => {
            law_readable_headers_decide(*operand, status_code, headers);
        },
        Op::StatusCodeCheck { .. } => {},
        Op::HeaderCheck { key, value } => {
            lemma_readable_headers(key, value, headers, 0);
        },
    }
}

proof fn lemma_readable_headers_decide_all(
    children: Seq<Op>,
    from: int,
    decisive: bool,
    status_code: u16,
    headers: Seq<Header>,
)
    requires
        forall|i: int| 0 <= i < headers.len() ==> is_visible((#[trigger] headers[i]).value@),
    ensures
        verdict_of_all(children, from, decisive, status_code, headers) is Some,
    decreases children, children.len() - from,
{
    if 0 <= from < children.len() {
        law_readable_headers_decide(children[from], status_code, headers);
        lemma_readable_headers_decide_all(children, from + 1, decisive, status_code, headers);
    }
}

proof fn lemma_readable_headers(
    key: HeaderComparison,
    value: HeaderComparison,
    headers: Seq<Header>,
    from: int,
)
    requires
        forall|i: int| 0 <= i < headers.len() ==> is_visible((#[trigger] headers[i]).value@),
    ensures
        headers_verdict(key, value, headers, from) is Some,
    decreases headers.len() - from,
{
    if 0 <= from < headers.len() {
        lemma_readable_headers(key, value, headers, from + 1);
    }
}

/// Denying both sides turns all into some: a response fails a conjunction iff it
/// passes the disjunction of the negations.
pub proof fn law_negation_turns_all_into_some(
    children: Seq<Op>,
    negated: Seq<Op>,
    from: int,
    status_code: u16,
    headers: Seq<Header>,
)
    requires
        children.len() == negated.len(),
        0 <= from <= children.len(),
        forall|i: int|
            0 <= i < children.len() ==> (#[trigger] negated[i] matches Op::Not { operand }
                && *operand == children[i]),
    ensures
        verdict_of_all(negated, from, true, status_code, headers) == (match verdict_of_all(
            children,
            from,
            false,
            status_code,
            headers,
        ) {
            Some(b) => Some(!b),
            None => None,
        }),
    decreases children.len() - from,
{
    if from < children.len() {
        assert(negated[from] matches Op::Not { operand } && *operand == children[from]);
        reveal_with_fuel(verdict, 2);
        reveal_with_fuel(verdict_of_all, 2);
        law_negation_turns_all_into_some(children, negated, from + 1, status_code, headers);
    }
}

/// A header passes a written comparison with a literal as the two compare: by the numbers
/// where the literal is one, by the integers where it is only one of those, and else by
/// the order of texts. A header that does not read so is neither below, equal nor above.
pub proof fn law_headers_compare_as_literals_read(
    literal: String,
    subject: Seq<char>,
    below: HeaderComparison,
    above: HeaderComparison,
    equal: HeaderComparison,
    unequal: HeaderComparison,
)
    requires
        comparison_compiles_to(
            assertion::HeaderComparison::LessThan { test_value: literal },
            below,
        ),
        comparison_compiles_to(
            assertion::HeaderComparison::GreaterThan { test_value: literal },
            above,
        ),
        comparison_compiles_to(
            assertion::HeaderComparison::Equals {
                test_value: assertion::HeaderOperand::Literal { value: literal },
            },
            equal,
        ),
        comparison_compiles_to(
            assertion::HeaderComparison::NotEquals {
                test_value: assertion::HeaderOperand::Literal { value: literal },
            },
            unequal,
        ),
    ensures
        unequal.passes(subject) == !equal.passes(subject),
        number_in(literal@) matches Ok(b) ==> (number_in(subject) matches Ok(a) ==> !is_nan(a)
            && !is_nan(b) ==> {
            &&& below.passes(subject) <==> value_of(a) < value_of(b)
            &&& above.passes(subject) <==> value_of(a) > value_of(b)
            &&& equal.passes(subject) <==> value_of(a) == value_of(b)
        }),
        number_in(literal@) matches Ok(b) ==> (number_in(subject) is Err || is_nan(b) || is_nan(
            number_in(subject)->Ok_0,
        ) ==> !below.passes(subject) && !above.passes(subject) && !equal.passes(subject)),
        number_in(literal@) is Err && i64_in(literal@) is Some ==> (i64_in(subject) matches Some(a)
            ==> {
            &&& below.passes(subject) <==> a < i64_in(literal@)->0
            &&& above.passes(subject) <==> a > i64_in(literal@)->0
            &&& equal.passes(subject) <==> a == i64_in(literal@)->0
        }),
        number_in(literal@) is Err && i64_in(literal@) is Some && i64_in(subject) is None
            ==> !below.passes(subject) && !above.passes(subject) && !equal.passes(subject),
        number_in(literal@) is Err && i64_in(literal@) is None ==> {
            &&& below.passes(subject) <==> text::comes_before(
                encode_utf8(subject),
                encode_utf8(literal@),
            )
            &&& above.passes(subject) <==> text::comes_before(
                encode_utf8(literal@),
                encode_utf8(subject),
            )
            &&& equal.passes(subject) <==> subject == literal@
        },
{
    if let Ok(b) = number_in(literal@) {
        if let Ok(a) = number_in(subject) {
            if !is_nan(a) && !is_nan(b) {
                law_patterns_compare_by_value(a, b);
                law_patterns_compare_by_value(b, a);
            }
        }
    }
    law_texts_are_ordered_by_bytes(subject, literal@);
    law_texts_are_ordered_by_bytes(literal@, subject);
}

/// A header equals an expression that matches in it, and passes the comparisons that do
/// not look without being looked at.
pub proof fn law_headers_match_expressions(
    pattern: String,
    subject: Seq<char>,
    compiled: regex::Regex,
    equal: HeaderComparison,
    unequal: HeaderComparison,
    always: HeaderComparison,
    never: HeaderComparison,
)
    requires
        regex_in(pattern@, REGEX_SIZE_LIMIT) == Ok::<regex::Regex, ErrorView>(compiled),
        comparison_compiles_to(
            assertion::HeaderComparison::Equals {
                test_value: assertion::HeaderOperand::Regex { value: pattern },
            },
            equal,
        ),
        comparison_compiles_to(
            assertion::HeaderComparison::NotEquals {
                test_value: assertion::HeaderOperand::Regex { value: pattern },
            },
            unequal,
        ),
        comparison_compiles_to(assertion::HeaderComparison::Always, always),
        comparison_compiles_to(assertion::HeaderComparison::Never, never),
    ensures
        equal.passes(subject) <==> matched_by(compiled, subject),
        unequal.passes(subject) <==> !matched_by(compiled, subject),
        always.passes(subject),
        !never.passes(subject),
{
}

/// A status code is compared with the written one by the numbers.
pub proof fn law_status_codes_compare_as_numbers(
    value: u16,
    operator: Comparison,
    compiled: Op,
    status_code: u16,
    headers: Seq<Header>,
)
    requires
        compiles_to(assertion::Op::StatusCodeCheck { value, operator }, compiled),
    ensures
        operator is LessThan ==> verdict(compiled, status_code, headers) == Some(
            status_code < value,
        ),
        operator is GreaterThan ==> verdict(compiled, status_code, headers) == Some(
            status_code > value,
        ),
        operator is Equal ==> verdict(compiled, status_code, headers) == Some(status_code == value),
        operator is NotEqual ==> verdict(compiled, status_code, headers) == Some(
            status_code != value,
        ),
{
}

/// Where every header value is text, a header check passes iff there is a header that
/// passes by its name and its value.
pub proof fn law_header_checks_look_for_a_header(
    key: HeaderComparison,
    value: HeaderComparison,
    status_code: u16,
    headers: Seq<Header>,
)
    requires
        forall|i: int| 0 <= i < headers.len() ==> is_visible((#[trigger] headers[i]).value@),
    ensures
        verdict(Op::HeaderCheck { key, value }, status_code, headers) == Some(
            exists|i: int|
                0 <= i < headers.len() && key.passes((#[trigger] headers[i]).name@) && value.passes(
                    ascii_text(headers[i].value@),
                ),
        ),
{
    lemma_looks_for_a_header(key, value, headers, 0);
}

proof fn lemma_looks_for_a_header(
    key: HeaderComparison,
    value: HeaderComparison,
    headers: Seq<Header>,
    from: int,
)
    requires
        0 <= from,
        forall|i: int| 0 <= i < headers.len() ==> is_visible((#[trigger] headers[i]).value@),
    ensures
        headers_verdict(key, value, headers, from) == Some(
            exists|i: int|
                from <= i < headers.len() && key.passes((#[trigger] headers[i]).name@)
                    && value.passes(ascii_text(headers[i].value@)),
        ),
    decreases headers.len() - from,
{
    if from < headers.len() {
        lemma_looks_for_a_header(key, value, headers, from + 1);
        if key.passes(headers[from].name@) && value.passes(ascii_text(headers[from].value@)) {
            assert(headers_verdict(key, value, headers, from) == Some(true));
        }
    }
}

/// Where every operation of a conjunction or a disjunction comes to something, the one
/// passes iff all of them do and the other iff one does; a negation passes iff what it
/// negates does not.
pub proof fn law_combinations_follow_their_operations(
    children: Vec<Op>,
    operand: Op,
    status_code: u16,
    headers: Seq<Header>,
)
    requires
        forall|i: int|
            0 <= i < children@.len() ==> verdict(#[trigger] children@[i], status_code, headers)
                is Some,
        verdict(operand, status_code, headers) is Some,
    ensures
        verdict(Op::And { children }, status_code, headers) == Some(
            forall|i: int|
                0 <= i < children@.len() ==> verdict(#[trigger] children@[i], status_code, headers)
                    == Some(true),
        ),
        verdict(Op::Or { children }, status_code, headers) == Some(
            exists|i: int|
                0 <= i < children@.len() && verdict(#[trigger] children@[i], status_code, headers)
                    == Some(true),
        ),
        verdict(Op::Not { operand: Box::new(operand) }, status_code, headers) == Some(
            verdict(operand, status_code, headers) == Some(false),
        ),
{
    lemma_all_of(children@, 0, status_code, headers);
    lemma_one_of(children@, 0, status_code, headers);
}

proof fn lemma_all_of(children: Seq<Op>, from: int, status_code: u16, headers: Seq<Header>)
    requires
        0 <= from,
        forall|i: int|
            0 <= i < children.len() ==> verdict(#[trigger] children[i], status_code, headers)
                is Some,
    ensures
        verdict_of_all(children, from, false, status_code, headers) == Some(
            forall|i: int|
                from <= i < children.len() ==> verdict(#[trigger] children[i], status_code, headers)
                    == Some(true),
        ),
    decreases children.len() - from,
{
    if from < children.len() {
        lemma_all_of(children, from + 1, status_code, headers);
        assert(verdict(children[from], status_code, headers) is Some);
    }
}

proof fn lemma_one_of(children: Seq<Op>, from: int, status_code: u16, headers: Seq<Header>)
    requires
        0 <= from,
        forall|i: int|
            0 <= i < children.len() ==> verdict(#[trigger] children[i], status_code, headers)
                is Some,
    ensures
        verdict_of_all(children, from, true, status_code, headers) == Some(
            exists|i: int|
                from <= i < children.len() && verdict(#[trigger] children[i], status_code, headers)
                    == Some(true),
        ),
    decreases children.len() - from,
{
    if from < children.len() {
        lemma_one_of(children, from + 1, status_code, headers);
        assert(verdict(children[from], status_code, headers) is Some);
    }
}

} // verus!
