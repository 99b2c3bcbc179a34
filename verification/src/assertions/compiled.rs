//! Assertions made ready to run, and their evaluation against a response.
//!
//! Globs are decided elsewhere, queries are metered elsewhere, and those that call the
//! function `glob` are read and run elsewhere: an evaluation is handed the answers that
//! are known so far, and stops with a question where it needs one more. Answering and
//! evaluating again never changes what was already decided.

use crate::assertions;
use crate::assertions::path_text::{calls_glob, has_glob_call};
use crate::number;
use crate::number::{number_eq, number_in, number_lt};
use crate::text;
use crate::text::{i64_fault, i64_in, text_before};
use vstd::prelude::*;

verus! {

/// What one match of a glob costs.
pub const GLOB_GAS: u32 = 5;

/// What one comparison costs.
pub const COMPARISON_GAS: u32 = 1;

/// Why an evaluation came to no result.
#[derive(Debug)]
pub enum RuntimeError {
    InvalidJsonPath { msg: String },
    TookTooLong,
    InvalidBodyJson { body: String },
    InvalidTypeComparison { msg: String },
}

/// A `RuntimeError` by its words.
pub enum RuntimeErrorView {
    InvalidJsonPath { msg: Seq<char> },
    TookTooLong,
    InvalidBodyJson { body: Seq<char> },
    InvalidTypeComparison { msg: Seq<char> },
}

impl View for RuntimeError {
    type V = RuntimeErrorView;

    open spec fn view(&self) -> RuntimeErrorView {
        match self {
            RuntimeError::InvalidJsonPath { msg } => RuntimeErrorView::InvalidJsonPath { msg: msg@ },
            RuntimeError::TookTooLong => RuntimeErrorView::TookTooLong,
            RuntimeError::InvalidBodyJson { body } => RuntimeErrorView::InvalidBodyJson {
                body: body@,
            },
            RuntimeError::InvalidTypeComparison { msg } => RuntimeErrorView::InvalidTypeComparison {
                msg: msg@,
            },
        }
    }
}

impl RuntimeErrorView {
    /// The error as a sentence.
    pub open spec fn sentence(self) -> Seq<char> {
        match self {
            RuntimeErrorView::InvalidJsonPath { msg } => "Invalid JSONPath: "@ + msg,
            RuntimeErrorView::TookTooLong => "Assertion took too long"@,
            RuntimeErrorView::InvalidBodyJson { body } => "Invalid Body JSON: "@ + body,
            RuntimeErrorView::InvalidTypeComparison { msg } => "Invalid type in comparison: "@ + msg,
        }
    }
}

impl RuntimeError {
    /// The error as a sentence.
    pub fn message(&self) -> (r: String)
        ensures
            r@ == self@.sentence(),
    {
        match self {
            RuntimeError::InvalidJsonPath { msg } => "Invalid JSONPath: ".to_owned().concat(
                msg.as_str(),
            ),
            RuntimeError::TookTooLong => "Assertion took too long".to_owned(),
            RuntimeError::InvalidBodyJson { body } => "Invalid Body JSON: ".to_owned().concat(
                body.as_str(),
            ),
            RuntimeError::InvalidTypeComparison { msg } =>
            "Invalid type in comparison: ".to_owned().concat(msg.as_str()),
        }
    }
}

/// Which part of an assertion decided its result: the operation itself, all of
/// its children, or one child.
#[derive(Debug, PartialEq, Eq)]
pub enum EvalPath {
    Leaf,
    AllChildren,
    ChildIndex { index: usize, child: Box<EvalPath> },
}

/// What an assertion came to, and why.
#[derive(Debug)]
pub struct EvalResult {
    pub reason_path: EvalPath,
    pub result: bool,
}

impl EvalResult {
    /// An AND whose children all passed.
    pub fn and_node() -> (r: EvalResult)
        ensures
            r == (EvalResult { reason_path: EvalPath::AllChildren, result: true }),
    {
        EvalResult { reason_path: EvalPath::AllChildren, result: true }
    }

    /// An OR whose children all failed.
    pub fn or_node() -> (r: EvalResult)
        ensures
            r == (EvalResult { reason_path: EvalPath::AllChildren, result: false }),
    {
        EvalResult { reason_path: EvalPath::AllChildren, result: false }
    }

    /// An operation that is itself responsible for the result.
    pub fn leaf(value: bool) -> (r: EvalResult)
        ensures
            r == (EvalResult { reason_path: EvalPath::Leaf, result: value }),
    {
        EvalResult { reason_path: EvalPath::Leaf, result: value }
    }

    /// An operation of which a single child is responsible for the result.
    pub fn child_idx(index: usize, value: bool, path: EvalPath) -> (r: EvalResult)
        ensures
            r == (EvalResult {
                reason_path: EvalPath::ChildIndex { index, child: Box::new(path) },
                result: value,
            }),
    {
        EvalResult {
            reason_path: EvalPath::ChildIndex { index, child: Box::new(path) },
            result: value,
        }
    }
}

/// One header of a response: its name, and its value as it came.
#[derive(Debug)]
pub struct Header {
    pub name: String,
    pub value: Vec<u8>,
}

/// Whether a text matches a glob.
#[derive(Debug)]
pub struct GlobAnswer {
    pub pattern: String,
    pub text: String,
    pub matched: bool,
}

/// What it costs to run a query on the body.
#[derive(Debug)]
pub struct QueryCost {
    pub path: String,
    pub gas: u32,
}

/// What a query that calls `glob` finds in the body, or why it cannot run.
#[derive(Debug)]
pub struct QueryRun {
    pub path: String,
    pub found: Result<Vec<JsonNode>, String>,
}

/// What is known for an evaluation.
#[derive(Debug)]
pub struct Answers {
    pub globs: Vec<GlobAnswer>,
    pub costs: Vec<QueryCost>,
    pub runs: Vec<QueryRun>,
}

/// `Answers` by their lists.
pub struct AnswersView {
    pub globs: Seq<GlobAnswer>,
    pub costs: Seq<QueryCost>,
    pub runs: Seq<QueryRun>,
}

impl View for Answers {
    type V = AnswersView;

    open spec fn view(&self) -> AnswersView {
        AnswersView { globs: self.globs@, costs: self.costs@, runs: self.runs@ }
    }
}

impl Answers {
    /// Nothing is known.
    pub fn new() -> (r: Answers)
        ensures
            r@.globs.len() == 0,
            r@.costs.len() == 0,
            r@.runs.len() == 0,
    {
        Answers { globs: Vec::new(), costs: Vec::new(), runs: Vec::new() }
    }
}

/// Why an evaluation stopped: an error, or an answer that is still missing.
#[derive(Debug)]
pub enum Halt {
    Failed(RuntimeError),
    NeedsMatch { pattern: String, text: String },
    NeedsCost { path: String },
    NeedsRun { path: String },
}

/// A `Halt` by its words.
pub enum HaltView {
    Failed(RuntimeErrorView),
    NeedsMatch { pattern: Seq<char>, text: Seq<char> },
    NeedsCost { path: Seq<char> },
    NeedsRun { path: Seq<char> },
}

impl View for Halt {
    type V = HaltView;

    open spec fn view(&self) -> HaltView {
        match self {
            Halt::Failed(e) => HaltView::Failed(e@),
            Halt::NeedsMatch { pattern, text } => HaltView::NeedsMatch {
                pattern: pattern@,
                text: text@,
            },
            Halt::NeedsCost { path } => HaltView::NeedsCost { path: path@ },
            Halt::NeedsRun { path } => HaltView::NeedsRun { path: path@ },
        }
    }
}

/// The first answer to whether `text` matches `pattern`.
pub open spec fn answer_to(
    answers: Seq<GlobAnswer>,
    pattern: Seq<char>,
    text: Seq<char>,
) -> Option<bool>
    decreases answers.len(),
{
    if answers.len() == 0 {
        None
    } else if answers[0].pattern@ == pattern && answers[0].text@ == text {
        Some(answers[0].matched)
    } else {
        answer_to(answers.skip(1), pattern, text)
    }
}

fn find_answer(answers: &Vec<GlobAnswer>, pattern: &String, text: &str) -> (r: Option<bool>)
    ensures
        r == answer_to(answers@, pattern@, text@),
{
    let wanted = text.to_owned();
    let mut i: usize = 0;
    proof {
        assert(answers@.skip(0) =~= answers@);
    }
    while i < answers.len()
        invariant
            i <= answers.len(),
            wanted@ == text@,
            answer_to(answers@, pattern@, text@) == answer_to(
                answers@.skip(i as int),
                pattern@,
                text@,
            ),
        decreases answers.len() - i,
    {
        if answers[i].pattern == *pattern && answers[i].text == wanted {
            return Some(answers[i].matched);
        }
        proof {
            assert(answers@.skip(i as int).skip(1) =~= answers@.skip(i + 1));
        }
        i = i + 1;
    }
    None
}

/// The first answer to what a query costs.
pub open spec fn cost_of(costs: Seq<QueryCost>, path: Seq<char>) -> Option<u32>
    decreases costs.len(),
{
    if costs.len() == 0 {
        None
    } else if costs[0].path@ == path {
        Some(costs[0].gas)
    } else {
        cost_of(costs.skip(1), path)
    }
}

fn find_cost(costs: &Vec<QueryCost>, path: &String) -> (r: Option<u32>)
    ensures
        r == cost_of(costs@, path@),
{
    let mut i: usize = 0;
    proof {
        assert(costs@.skip(0) =~= costs@);
    }
    while i < costs.len()
        invariant
            i <= costs.len(),
            cost_of(costs@, path@) == cost_of(costs@.skip(i as int), path@),
        decreases costs.len() - i,
    {
        if costs[i].path == *path {
            return Some(costs[i].gas);
        }
        proof {
            assert(costs@.skip(i as int).skip(1) =~= costs@.skip(i + 1));
        }
        i = i + 1;
    }
    None
}

/// What a query finds, by the words of it.
pub open spec fn found_view(found: Result<Vec<JsonNode>, String>) -> Result<
    Seq<JsonNodeView>,
    Seq<char>,
> {
    match found {
        Ok(nodes) => Ok(node_views(nodes@)),
        Err(e) => Err(e@),
    }
}

/// The first answer to what a query finds.
pub open spec fn run_of(runs: Seq<QueryRun>, path: Seq<char>) -> Option<
    Result<Seq<JsonNodeView>, Seq<char>>,
>
    decreases runs.len(),
{
    if runs.len() == 0 {
        None
    } else if runs[0].path@ == path {
        Some(found_view(runs[0].found))
    } else {
        run_of(runs.skip(1), path)
    }
}

fn find_run<'a>(runs: &'a Vec<QueryRun>, path: &String) -> (r: Option<&'a QueryRun>)
    ensures
        match r {
            Some(run) => run_of(runs@, path@) == Some(found_view(run.found)),
            None => run_of(runs@, path@) is None,
        },
{
    let mut i: usize = 0;
    proof {
        assert(runs@.skip(0) =~= runs@);
    }
    while i < runs.len()
        invariant
            i <= runs.len(),
            run_of(runs@, path@) == run_of(runs@.skip(i as int), path@),
        decreases runs.len() - i,
    {
        if runs[i].path == *path {
            return Some(&runs[i]);
        }
        proof {
            assert(runs@.skip(i as int).skip(1) =~= runs@.skip(i + 1));
        }
        i = i + 1;
    }
    None
}

/// The budget of an evaluation.
pub struct Gas(pub u32);

impl Gas {
    /// Takes `amount` from the budget, or fails where less than that is left.
    pub fn consume(&mut self, amount: u32) -> (r: Result<(), RuntimeError>)
        ensures
            r is Ok <==> amount <= old(self).0,
            r is Ok ==> final(self).0 == old(self).0 - amount,
            r matches Err(e) ==> e == RuntimeError::TookTooLong && final(self).0 == old(self).0,
    {
        if amount > self.0 {
            return Err(RuntimeError::TookTooLong);
        }
        self.0 = self.0 - amount;
        Ok(())
    }
}

/// What a step of an evaluation comes to: its value, or why it stopped, and what is
/// left of the budget in either case.
pub type Outcome = Result<(bool, int), (HaltView, int)>;

/// A step stopped because the budget does not suffice. It is left as it is.
pub open spec fn too_long(gas: int) -> (HaltView, int) {
    (HaltView::Failed(RuntimeErrorView::TookTooLong), gas)
}

/// A value paid for: with it, what is left of the budget.
pub open spec fn paid(gas: int, amount: int, value: bool) -> Outcome {
    if amount > gas {
        Err(too_long(gas))
    } else {
        Ok((value, gas - amount))
    }
}

/// What is asked of two values.
#[derive(Clone, Copy, Debug, PartialEq, Eq, Structural)]
pub enum Relation {
    Equal,
    Less,
    Greater,
}

/// A value as it is compared.
#[derive(Debug)]
pub enum Scalar<'a> {
    Integer(i64),
    Number(u64),
    Text(&'a str),
}

/// The relation between two integers.
pub open spec fn integers_relate(relation: Relation, a: int, b: int) -> bool {
    match relation {
        Relation::Equal => a == b,
        Relation::Less => a < b,
        Relation::Greater => a > b,
    }
}

/// The relation between two numbers.
pub open spec fn numbers_relate(relation: Relation, a: u64, b: u64) -> bool {
    match relation {
        Relation::Equal => number_eq(a, b),
        Relation::Less => number_lt(a, b),
        Relation::Greater => number_lt(b, a),
    }
}

/// The relation between two texts.
pub open spec fn texts_relate(relation: Relation, a: Seq<char>, b: Seq<char>) -> bool {
    match relation {
        Relation::Equal => a == b,
        Relation::Less => text_before(a, b),
        Relation::Greater => text_before(b, a),
    }
}

/// The relation between two values of one sort.
pub open spec fn scalars_relate(relation: Relation, a: Scalar, b: Scalar) -> bool {
    match (a, b) {
        (Scalar::Integer(x), Scalar::Integer(y)) => integers_relate(relation, x as int, y as int),
        (Scalar::Number(x), Scalar::Number(y)) => numbers_relate(relation, x, y),
        (Scalar::Text(x), Scalar::Text(y)) => texts_relate(relation, x@, y@),
        _ => false,
    }
}

/// Compares two values, at the price of one comparison.
fn compare(relation: Relation, response_value: Scalar, test_value: Scalar, gas: &mut Gas) -> (r:
    Result<bool, RuntimeError>)
    ensures
        match paid(
            old(gas).0 as int,
            COMPARISON_GAS as int,
            scalars_relate(relation, response_value, test_value),
        ) {
            Ok((value, left)) => r == Ok::<bool, RuntimeError>(value) && final(gas).0 == left,
            Err((_, left)) => r == Err::<bool, RuntimeError>(RuntimeError::TookTooLong)
                && final(gas).0 == left,
        },
{
    match gas.consume(COMPARISON_GAS) {
        Err(e) => return Err(e),
        Ok(()) => {},
    }
    let related = match (response_value, test_value) {
        (Scalar::Integer(x), Scalar::Integer(y)) => match relation {
            Relation::Equal => x == y,
            Relation::Less => x < y,
            Relation::Greater => x > y,
        },
        (Scalar::Number(x), Scalar::Number(y)) => match relation {
            Relation::Equal => number::equals(x, y),
            Relation::Less => number::less(x, y),
            Relation::Greater => number::less(y, x),
        },
        (Scalar::Text(x), Scalar::Text(y)) => match relation {
            Relation::Equal => text::text_eq(x, y),
            Relation::Less => text::text_lt(x, y),
            Relation::Greater => text::text_lt(y, x),
        },
        _ => false,
    };
    Ok(related)
}

/// Asks whether a text matches a glob, at the price of one match.
fn match_glob(pattern: &String, subject: &str, answers: &Vec<GlobAnswer>, gas: &mut Gas) -> (r:
    Result<bool, Halt>)
    ensures
        agrees(r, glob_outcome(pattern@, subject@, answers@, old(gas).0 as int), final(gas).0 as int),
{
    match gas.consume(GLOB_GAS) {
        Err(e) => return Err(Halt::Failed(e)),
        Ok(()) => {},
    }
    match find_answer(answers, pattern, subject) {
        Some(matched) => Ok(matched),
        None => Err(Halt::NeedsMatch { pattern: pattern.clone(), text: subject.to_owned() }),
    }
}

/// What asking a glob comes to.
pub open spec fn glob_outcome(
    pattern: Seq<char>,
    subject: Seq<char>,
    answers: Seq<GlobAnswer>,
    gas: int,
) -> Outcome {
    if GLOB_GAS > gas {
        Err(too_long(gas))
    } else {
        match answer_to(answers, pattern, subject) {
            Some(matched) => Ok((matched, gas - GLOB_GAS)),
            None => Err((HaltView::NeedsMatch { pattern, text: subject }, gas - GLOB_GAS)),
        }
    }
}

/// A result agrees with an outcome: the same value or the same halt, and the same
/// budget left.
pub open spec fn agrees(
    r: Result<bool, Halt>,
    outcome: Outcome,
    left: int,
) -> bool {
    match outcome {
        Ok((value, gas)) => r == Ok::<bool, Halt>(value) && left == gas,
        Err((halt, gas)) => (r matches Err(h) && h@ == halt) && left == gas,
    }
}

/// How a compiled assertion compares.
#[derive(Clone, Copy, Debug, PartialEq, Eq, Structural)]
pub enum Comparison {
    Always,
    Never,
    LessThan,
    GreaterThan,
    Equal,
    NotEqual,
}

/// The comparison that a written one stands for.
pub open spec fn comparison_of(value: assertions::Comparison) -> Comparison {
    match value {
        assertions::Comparison::Always => Comparison::Always,
        assertions::Comparison::Never => Comparison::Never,
        assertions::Comparison::LessThan => Comparison::LessThan,
        assertions::Comparison::GreaterThan => Comparison::GreaterThan,
        assertions::Comparison::Equals => Comparison::Equal,
        assertions::Comparison::NotEqual => Comparison::NotEqual,
    }
}

fn compile_comparison(value: &assertions::Comparison) -> (r: Comparison)
    ensures
        r == comparison_of(*value),
{
    match value {
        assertions::Comparison::Always => Comparison::Always,
        assertions::Comparison::Never => Comparison::Never,
        assertions::Comparison::LessThan => Comparison::LessThan,
        assertions::Comparison::GreaterThan => Comparison::GreaterThan,
        assertions::Comparison::Equals => Comparison::Equal,
        assertions::Comparison::NotEqual => Comparison::NotEqual,
    }
}

/// A literal, read as a number where it is one.
#[derive(Debug)]
pub enum LiteralValue {
    I64(i64),
    F64(u64),
    Text(String),
}

/// A compiled value is what a text is read as: a number first, then an integer,
/// and else the text itself.
pub open spec fn reads_as(text: Seq<char>, value: LiteralValue) -> bool {
    match number_in(text) {
        Ok(bits) => value == LiteralValue::F64(bits),
        Err(_) => match i64_in(text) {
            Some(n) => value matches LiteralValue::I64(v) && v == n,
            None => value matches LiteralValue::Text(s) && s@ == text,
        },
    }
}

pub(crate) fn compile_value(value: &String) -> (r: LiteralValue)
    ensures
        reads_as(value@, r),
{
    match number::parse_number(value.as_str()) {
        Ok(bits) => return LiteralValue::F64(bits),
        Err(_) => {},
    }
    match text::parse_i64(value.as_str()) {
        Ok(n) => return LiteralValue::I64(n),
        Err(_) => {},
    }
    LiteralValue::Text(value.clone())
}

/// What a header's name or value is compared with.
#[derive(Debug)]
pub enum HeaderOperand {
    Nothing,
    Literal { value: LiteralValue },
    Glob { pattern: String },
}

/// An outcome whose value is turned round.
pub open spec fn negated(outcome: Outcome) -> Outcome {
    match outcome {
        Ok((value, gas)) => Ok((!value, gas)),
        Err(halt) => Err(halt),
    }
}

/// A value that cannot be compared. Nothing is paid for it.
pub open spec fn uncomparable(msg: Seq<char>, gas: int) -> (HaltView, int) {
    (HaltView::Failed(RuntimeErrorView::InvalidTypeComparison { msg }), gas)
}

/// What relating a header's text to the operand comes to. A text that is no
/// number fails before anything is paid.
pub open spec fn header_relation(
    operand: HeaderOperand,
    relation: Relation,
    text: Seq<char>,
    answers: Seq<GlobAnswer>,
    gas: int,
) -> Outcome {
    match operand {
        HeaderOperand::Nothing => Ok((false, gas)),
        HeaderOperand::Literal { value } => match value {
            LiteralValue::I64(v) => match i64_in(text) {
                Some(n) => paid(gas, COMPARISON_GAS as int, integers_relate(relation, n, v as int)),
                None => Err(uncomparable(i64_fault(text), gas)),
            },
            LiteralValue::F64(v) => match number_in(text) {
                Ok(n) => paid(gas, COMPARISON_GAS as int, numbers_relate(relation, n, v)),
                Err(e) => Err(uncomparable(e, gas)),
            },
            LiteralValue::Text(v) => paid(
                gas,
                COMPARISON_GAS as int,
                texts_relate(relation, text, v@),
            ),
        },
        HeaderOperand::Glob { pattern } => if relation == Relation::Equal {
            glob_outcome(pattern@, text, answers, gas)
        } else {
            Ok((false, gas))
        },
    }
}

/// What holding a header's text against the operand comes to.
pub open spec fn header_outcome(
    operand: HeaderOperand,
    op: Comparison,
    text: Seq<char>,
    answers: Seq<GlobAnswer>,
    gas: int,
) -> Outcome {
    match op {
        Comparison::Always => Ok((true, gas)),
        Comparison::Never => Ok((false, gas)),
        Comparison::LessThan => header_relation(operand, Relation::Less, text, answers, gas),
        Comparison::GreaterThan => header_relation(operand, Relation::Greater, text, answers, gas),
        Comparison::Equal => header_relation(operand, Relation::Equal, text, answers, gas),
        Comparison::NotEqual => negated(
            header_relation(operand, Relation::Equal, text, answers, gas),
        ),
    }
}

fn halted(r: Result<bool, RuntimeError>) -> (h: Result<bool, Halt>)
    ensures
        match r {
            Ok(value) => h == Ok::<bool, Halt>(value),
            Err(e) => h == Err::<bool, Halt>(Halt::Failed(e)),
        },
{
    match r {
        Ok(value) => Ok(value),
        Err(e) => Err(Halt::Failed(e)),
    }
}

impl HeaderOperand {
    fn relate(
        &self,
        relation: Relation,
        header_value: &str,
        answers: &Vec<GlobAnswer>,
        gas: &mut Gas,
    ) -> (r: Result<bool, Halt>)
        ensures
            agrees(
                r,
                header_relation(*self, relation, header_value@, answers@, old(gas).0 as int),
                final(gas).0 as int,
            ),
    {
        match self {
            HeaderOperand::Nothing => Ok(false),
            HeaderOperand::Literal { value } => match value {
                LiteralValue::I64(v) => match text::parse_i64(header_value) {
                    Ok(n) => halted(compare(relation, Scalar::Integer(n), Scalar::Integer(*v), gas)),
                    Err(msg) => Err(Halt::Failed(RuntimeError::InvalidTypeComparison { msg })),
                },
                LiteralValue::F64(v) => match number::parse_number(header_value) {
                    Ok(n) => halted(compare(relation, Scalar::Number(n), Scalar::Number(*v), gas)),
                    Err(msg) => Err(Halt::Failed(RuntimeError::InvalidTypeComparison { msg })),
                },
                LiteralValue::Text(v) => halted(
                    compare(relation, Scalar::Text(header_value), Scalar::Text(v.as_str()), gas),
                ),
            },
            HeaderOperand::Glob { pattern } => match relation {
                Relation::Equal => match_glob(pattern, header_value, answers, gas),
                _ => Ok(false),
            },
        }
    }

    /// Holds a header's text against the operand.
    pub fn eval(
        &self,
        op: &Comparison,
        header_value: &str,
        answers: &Vec<GlobAnswer>,
        gas: &mut Gas,
    ) -> (r: Result<bool, Halt>)
        ensures
            agrees(
                r,
                header_outcome(*self, *op, header_value@, answers@, old(gas).0 as int),
                final(gas).0 as int,
            ),
    {
        match op {
            Comparison::Always => Ok(true),
            Comparison::Never => Ok(false),
            Comparison::LessThan => self.relate(Relation::Less, header_value, answers, gas),
            Comparison::GreaterThan => self.relate(Relation::Greater, header_value, answers, gas),
            Comparison::Equal => self.relate(Relation::Equal, header_value, answers, gas),
            Comparison::NotEqual => match self.relate(
                Relation::Equal,
                header_value,
                answers,
                gas,
            ) {
                Ok(equal) => Ok(!equal),
                Err(halt) => Err(halt),
            },
        }
    }
}

/// What a JSON value is compared by: the number, the integer and the text that it
/// is, where it is one, and the value as JSON.
#[derive(Debug)]
pub struct JsonNode {
    pub number: Option<u64>,
    pub integer: Option<i64>,
    pub text: Option<String>,
    pub json: String,
}

/// A `JsonNode` by its words.
pub struct JsonNodeView {
    pub number: Option<u64>,
    pub integer: Option<i64>,
    pub text: Option<Seq<char>>,
    pub json: Seq<char>,
}

impl View for JsonNode {
    type V = JsonNodeView;

    open spec fn view(&self) -> JsonNodeView {
        JsonNodeView {
            number: self.number,
            integer: self.integer,
            text: match self.text {
                Some(s) => Some(s@),
                None => None,
            },
            json: self.json@,
        }
    }
}

/// What relating a JSON value to a literal comes to: as numbers where both are
/// numbers, as integers where both are integers, and as texts where the value is
/// a text.
pub open spec fn json_relation(
    relation: Relation,
    node: JsonNodeView,
    literal: Seq<char>,
    gas: int,
) -> Outcome {
    if node.number is Some && number_in(literal) is Ok {
        paid(
            gas,
            COMPARISON_GAS as int,
            numbers_relate(relation, node.number->0, number_in(literal)->Ok_0),
        )
    } else if node.integer is Some && i64_in(literal) is Some {
        paid(
            gas,
            COMPARISON_GAS as int,
            integers_relate(relation, node.integer->0 as int, i64_in(literal)->0),
        )
    } else if node.text is Some {
        paid(gas, COMPARISON_GAS as int, texts_relate(relation, node.text->0, literal))
    } else {
        Err(
            uncomparable(
                "could not coerce a comparison between "@ + node.json + " and "@ + literal,
                gas,
            ),
        )
    }
}

fn relate_json(relation: Relation, node: &JsonNode, literal: &String, gas: &mut Gas) -> (r: Result<
    bool,
    Halt,
>)
    ensures
        agrees(
            r,
            json_relation(relation, node@, literal@, old(gas).0 as int),
            final(gas).0 as int,
        ),
{
    if let Some(n) = node.number {
        if let Ok(v) = number::parse_number(literal.as_str()) {
            return halted(compare(relation, Scalar::Number(n), Scalar::Number(v), gas));
        }
    }
    if let Some(n) = node.integer {
        if let Ok(v) = text::parse_i64(literal.as_str()) {
            return halted(compare(relation, Scalar::Integer(n), Scalar::Integer(v), gas));
        }
    }
    if let Some(s) = &node.text {
        return halted(
            compare(relation, Scalar::Text(s.as_str()), Scalar::Text(literal.as_str()), gas),
        );
    }
    let msg = "could not coerce a comparison between ".to_owned().concat(
        node.json.as_str(),
    ).concat(" and ").concat(literal.as_str());
    Err(Halt::Failed(RuntimeError::InvalidTypeComparison { msg }))
}

/// What the results of a query are compared with.
#[derive(Debug)]
pub enum JSONPathOperand {
    Nothing,
    Literal { value: String },
    Glob { pattern: String },
}

/// What relating a JSON value to the operand comes to. A glob is asked only of a
/// text; for anything else it is paid all the same.
pub open spec fn node_relation(
    operand: JSONPathOperand,
    relation: Relation,
    node: JsonNodeView,
    answers: Seq<GlobAnswer>,
    gas: int,
) -> Outcome {
    match operand {
        JSONPathOperand::Nothing => Ok((false, gas)),
        JSONPathOperand::Literal { value } => json_relation(relation, node, value@, gas),
        JSONPathOperand::Glob { pattern } => if relation != Relation::Equal {
            Ok((false, gas))
        } else if GLOB_GAS > gas {
            Err(too_long(gas))
        } else if node.text is None {
            Err(too_long(gas - GLOB_GAS))
        } else {
            glob_outcome(pattern@, node.text->0, answers, gas)
        },
    }
}

/// What holding one result of a query against the operand comes to.
pub open spec fn node_outcome(
    operand: JSONPathOperand,
    op: Comparison,
    node: JsonNodeView,
    answers: Seq<GlobAnswer>,
    gas: int,
) -> Outcome {
    match op {
        Comparison::Always => Ok((true, gas)),
        Comparison::Never => Ok((false, gas)),
        Comparison::LessThan => node_relation(operand, Relation::Less, node, answers, gas),
        Comparison::GreaterThan => node_relation(operand, Relation::Greater, node, answers, gas),
        Comparison::Equal => node_relation(operand, Relation::Equal, node, answers, gas),
        Comparison::NotEqual => negated(
            node_relation(operand, Relation::Equal, node, answers, gas),
        ),
    }
}

/// The results of a query hold up, from position `from` on, iff each does. The
/// first that does not ends the search.
pub open spec fn nodes_outcome(
    operand: JSONPathOperand,
    op: Comparison,
    nodes: Seq<JsonNodeView>,
    from: int,
    answers: Seq<GlobAnswer>,
    gas: int,
) -> Outcome
    decreases nodes.len() - from,
{
    if 0 <= from < nodes.len() {
        match node_outcome(operand, op, nodes[from], answers, gas) {
            Ok((true, left)) => nodes_outcome(operand, op, nodes, from + 1, answers, left),
            other => other,
        }
    } else {
        Ok((true, gas))
    }
}

/// What holding the results of a query against the operand comes to. No results
/// count as a failure.
pub open spec fn results_outcome(
    operand: JSONPathOperand,
    op: Comparison,
    nodes: Seq<JsonNodeView>,
    answers: Seq<GlobAnswer>,
    gas: int,
) -> Outcome {
    if nodes.len() == 0 {
        Ok((false, gas))
    } else {
        nodes_outcome(operand, op, nodes, 0, answers, gas)
    }
}

/// The views of a list of JSON values.
pub open spec fn node_views(nodes: Seq<JsonNode>) -> Seq<JsonNodeView> {
    nodes.map_values(|n: JsonNode| n@)
}

impl JSONPathOperand {
    fn relate(
        &self,
        relation: Relation,
        node: &JsonNode,
        answers: &Vec<GlobAnswer>,
        gas: &mut Gas,
    ) -> (r: Result<bool, Halt>)
        ensures
            agrees(
                r,
                node_relation(*self, relation, node@, answers@, old(gas).0 as int),
                final(gas).0 as int,
            ),
    {
        match self {
            JSONPathOperand::Nothing => Ok(false),
            JSONPathOperand::Literal { value } => relate_json(relation, node, value, gas),
            JSONPathOperand::Glob { pattern } => match relation {
                Relation::Equal => match &node.text {
                    Some(s) => match_glob(pattern, s.as_str(), answers, gas),
                    None => match gas.consume(GLOB_GAS) {
                        Err(e) => Err(Halt::Failed(e)),
                        Ok(()) => Err(Halt::Failed(RuntimeError::TookTooLong)),
                    },
                },
                _ => Ok(false),
            },
        }
    }

    fn eval_node(
        &self,
        op: &Comparison,
        node: &JsonNode,
        answers: &Vec<GlobAnswer>,
        gas: &mut Gas,
    ) -> (r: Result<bool, Halt>)
        ensures
            agrees(
                r,
                node_outcome(*self, *op, node@, answers@, old(gas).0 as int),
                final(gas).0 as int,
            ),
    {
        match op {
            Comparison::Always => Ok(true),
            Comparison::Never => Ok(false),
            Comparison::LessThan => self.relate(Relation::Less, node, answers, gas),
            Comparison::GreaterThan => self.relate(Relation::Greater, node, answers, gas),
            Comparison::Equal => self.relate(Relation::Equal, node, answers, gas),
            Comparison::NotEqual => match self.relate(Relation::Equal, node, answers, gas) {
                Ok(equal) => Ok(!equal),
                Err(halt) => Err(halt),
            },
        }
    }

    /// Holds the results of a query against the operand.
    pub fn eval(
        &self,
        op: &Comparison,
        result: &Vec<JsonNode>,
        answers: &Vec<GlobAnswer>,
        gas: &mut Gas,
    ) -> (r: Result<bool, Halt>)
        ensures
            agrees(
                r,
                results_outcome(*self, *op, node_views(result@), answers@, old(gas).0 as int),
                final(gas).0 as int,
            ),
    {
        if result.len() == 0 {
            return Ok(false);
        }
        let mut i: usize = 0;
        while i < result.len()
            invariant
                0 < result.len(),
                i <= result.len(),
                nodes_outcome(*self, *op, node_views(result@), 0, answers@, old(gas).0 as int)
                    == nodes_outcome(
                    *self,
                    *op,
                    node_views(result@),
                    i as int,
                    answers@,
                    gas.0 as int,
                ),
            decreases result.len() - i,
        {
            assert(node_views(result@)[i as int] == result@[i as int]@);
            match self.eval_node(op, &result[i], answers, gas) {
                Ok(true) => {},
                Ok(false) => return Ok(false),
                Err(halt) => return Err(halt),
            }
            i = i + 1;
        }
        Ok(true)
    }
}

/// A JSON value.
#[verifier::external_type_specification]
#[verifier::external_body]
pub struct ExJson(serde_json::Value);

/// A parsed JSONPath query.
#[verifier::external_type_specification]
#[verifier::external_body]
pub struct ExJpQuery(jsonpath_rust::parser::model::JpQuery);

/// The JSON value that a body holds, or what the parser says of it.
pub uninterp spec fn json_in(body: Seq<u8>) -> Result<serde_json::Value, Seq<char>>;

/// `serde_json::from_slice`: the JSON value that the bytes hold. Which bytes hold
/// one, and what is said of the others, is named, not spelled out.
#[verifier::external_body]
fn parse_json(body: &[u8]) -> (r: Result<serde_json::Value, String>)
    ensures
        match r {
            Ok(v) => json_in(body@) == Ok::<serde_json::Value, Seq<char>>(v),
            Err(e) => json_in(body@) == Err::<serde_json::Value, Seq<char>>(e@),
        },
{
    serde_json::from_slice(body).map_err(|e| e.to_string())
}

/// Why a text is no JSONPath query: a fault of syntax at a position of a line, a glob in
/// it that is none, or anything else.
#[derive(Debug)]
#[allow(inconsistent_fields)]
pub enum PathFault {
    Syntax { msg: String, line: String, pos: usize },
    Glob { glob: String, msg: String },
    Other { msg: String },
}

/// A `PathFault` by its words.
pub enum PathFaultView {
    Syntax { msg: Seq<char>, line: Seq<char>, pos: usize },
    Glob { glob: Seq<char>, msg: Seq<char> },
    Other { msg: Seq<char> },
}

impl View for PathFault {
    type V = PathFaultView;

    open spec fn view(&self) -> PathFaultView {
        match self {
            PathFault::Syntax { msg, line, pos } => PathFaultView::Syntax {
                msg: msg@,
                line: line@,
                pos: *pos,
            },
            PathFault::Glob { glob, msg } => PathFaultView::Glob { glob: glob@, msg: msg@ },
            PathFault::Other { msg } => PathFaultView::Other { msg: msg@ },
        }
    }
}

/// The query that a text denotes, or why it denotes none.
pub uninterp spec fn path_in(s: Seq<char>) -> Result<
    jsonpath_rust::parser::model::JpQuery,
    PathFaultView,
>;

/// `jsonpath_rust::parser::parse_json_path`: the query that a text denotes. Which
/// texts denote one, and what is said of the others, is named, not spelled out;
/// a syntax error hands on its message, its line and where it begins.
#[verifier::external_body]
fn parse_path(s: &str) -> (r: Result<jsonpath_rust::parser::model::JpQuery, PathFault>)
    ensures
        match r {
            Ok(q) => path_in(s@) == Ok::<jsonpath_rust::parser::model::JpQuery, PathFaultView>(q),
            Err(e) => path_in(s@) == Err::<jsonpath_rust::parser::model::JpQuery, PathFaultView>(
                e@,
            ),
        },
{
    jsonpath_rust::parser::parse_json_path(s).map_err(|e| match e {
        jsonpath_rust::parser::errors::JsonPathError::PestError(fault) => PathFault::Syntax {
            msg: fault.to_string(),
            line: fault.line().to_owned(),
            pos: match fault.location {
                pest::error::InputLocation::Pos(pos) => pos,
                pest::error::InputLocation::Span((start, _)) => start,
            },
        },
        rest => PathFault::Other { msg: rest.to_string() },
    })
}

/// The values that a query finds in a document, or why it cannot run.
pub uninterp spec fn found_by(
    query: jsonpath_rust::parser::model::JpQuery,
    document: serde_json::Value,
) -> Result<Seq<JsonNodeView>, Seq<char>>;

/// `jsonpath_rust::query::js_path_process`: what a query finds in a document, in
/// order, each value by its `as_f64`, `as_i64`, `as_str` and `to_string`. What a
/// query finds is named, not spelled out.
#[verifier::external_body]
fn run_query(
    query: &jsonpath_rust::parser::model::JpQuery,
    document: &serde_json::Value,
) -> (r: Result<Vec<JsonNode>, String>)
    ensures
        match r {
            Ok(nodes) => found_by(*query, *document) == Ok::<Seq<JsonNodeView>, Seq<char>>(
                node_views(nodes@),
            ),
            Err(e) => found_by(*query, *document) == Err::<Seq<JsonNodeView>, Seq<char>>(e@),
        },
{
    match jsonpath_rust::query::js_path_process(query, document) {
        Ok(found) => Ok(found.into_iter().map(|node| JsonNode {
            number: node.val.as_f64().map(|value| value.to_bits()),
            integer: node.val.as_i64(),
            text: node.val.as_str().map(|value| value.to_owned()),
            json: node.val.to_string(),
        }).collect()),
        Err(e) => Err(e.to_string()),
    }
}

/// A header's value can be read as text iff it is visible ASCII, blanks and tabs.
pub open spec fn is_visible(value: Seq<u8>) -> bool {
    forall|i: int| 0 <= i < value.len() ==> (#[trigger] value[i] == 9 || 32 <= value[i] < 127)
}

/// ASCII bytes as text.
pub open spec fn ascii_text(value: Seq<u8>) -> Seq<char> {
    value.map_values(|b: u8| b as char)
}

/// `http::HeaderValue::to_str`, on a value of these bytes: the text, iff all of it
/// is visible ASCII, blanks and tabs.
#[verifier::external_body]
pub(crate) fn header_text(value: &[u8]) -> (r: Option<String>)
    ensures
        match r {
            Some(s) => is_visible(value@) && s@ == ascii_text(value@),
            None => !is_visible(value@),
        },
{
    http::HeaderValue::from_bytes(value).ok()?.to_str().ok().map(|s| s.to_owned())
}

/// A query that was read.
#[derive(Debug)]
pub enum Query {
    /// One that is run here.
    Plain { query: jsonpath_rust::parser::model::JpQuery },
    /// One that calls the function `glob`, and is read and run elsewhere.
    Globbing,
}

/// One operation of a compiled assertion.
#[derive(Debug)]
#[allow(inconsistent_fields)]
pub enum Op {
    And { children: Vec<Op> },
    Or { children: Vec<Op> },
    Not { operand: Box<Op> },
    StatusCodeCheck { value: u16, operator: Comparison },
    JsonPath { path: String, query: Query, operator: Comparison, operand: JSONPathOperand },
    HeaderCheck {
        key_op: Comparison,
        key_operand: HeaderOperand,
        value_op: Comparison,
        value_operand: HeaderOperand,
    },
}

/// A compiled assertion.
#[derive(Debug)]
pub struct Assertion {
    pub root: Op,
}

/// What an evaluation looks at.
pub struct Response {
    pub status_code: u16,
    pub headers: Seq<Header>,
    pub body: Seq<u8>,
    pub answers: AnswersView,
}

/// What an operation comes to: its result and the part that decided it, or the halt,
/// and the budget left in either case.
pub type Evaluation = Result<(bool, EvalPath, int), (HaltView, int)>;

/// A result of an operation that decided itself.
pub open spec fn by_itself(outcome: Outcome) -> Evaluation {
    match outcome {
        Ok((value, gas)) => Ok((value, EvalPath::Leaf, gas)),
        Err(halt) => Err(halt),
    }
}

/// How a status code compares.
pub open spec fn status_passes(status_code: u16, operator: Comparison, value: u16) -> bool {
    match operator {
        Comparison::Always => true,
        Comparison::Never => false,
        Comparison::LessThan => status_code < value,
        Comparison::GreaterThan => status_code > value,
        Comparison::Equal => status_code == value,
        Comparison::NotEqual => status_code != value,
    }
}

/// Whether, from position `from` on, a header passes by its name and its value.
/// A value that is no text passes nothing.
pub open spec fn headers_outcome(
    key_op: Comparison,
    key_operand: HeaderOperand,
    value_op: Comparison,
    value_operand: HeaderOperand,
    headers: Seq<Header>,
    from: int,
    answers: Seq<GlobAnswer>,
    gas: int,
) -> Outcome
    decreases headers.len() - from,
{
    if 0 <= from < headers.len() {
        match header_outcome(key_operand, key_op, headers[from].name@, answers, gas) {
            Err(halt) => Err(halt),
            Ok((key_passed, left)) => {
                if key_passed && is_visible(headers[from].value@) {
                    match header_outcome(
                        value_operand,
                        value_op,
                        ascii_text(headers[from].value@),
                        answers,
                        left,
                    ) {
                        Ok((false, rest)) => headers_outcome(
                            key_op,
                            key_operand,
                            value_op,
                            value_operand,
                            headers,
                            from + 1,
                            answers,
                            rest,
                        ),
                        other => other,
                    }
                } else {
                    headers_outcome(
                        key_op,
                        key_operand,
                        value_op,
                        value_operand,
                        headers,
                        from + 1,
                        answers,
                        left,
                    )
                }
            },
        }
    } else {
        Ok((false, gas))
    }
}

/// What a query finds in a document, where that is known.
pub open spec fn found_in(
    path: Seq<char>,
    query: Query,
    document: serde_json::Value,
    runs: Seq<QueryRun>,
) -> Option<Result<Seq<JsonNodeView>, Seq<char>>> {
    match query {
        Query::Plain { query } => Some(found_by(query, document)),
        Query::Globbing => run_of(runs, path),
    }
}

/// What a query of the body, and holding its results against the operand, comes to. The
/// query is paid for as it is metered: where that is more than is left, it takes too long.
pub open spec fn query_outcome(
    path: Seq<char>,
    query: Query,
    operator: Comparison,
    operand: JSONPathOperand,
    response: Response,
    gas: int,
) -> Outcome {
    match json_in(response.body) {
        Err(e) => Err((HaltView::Failed(RuntimeErrorView::InvalidBodyJson { body: e }), gas)),
        Ok(document) => match cost_of(response.answers.costs, path) {
            None => Err((HaltView::NeedsCost { path }, gas)),
            Some(cost) => if cost > gas {
                Err(too_long(gas))
            } else {
                match found_in(path, query, document, response.answers.runs) {
                    None => Err((HaltView::NeedsRun { path }, gas - cost)),
                    Some(Err(e)) => Err(
                        (
                            HaltView::Failed(RuntimeErrorView::InvalidJsonPath { msg: e }),
                            gas - cost,
                        ),
                    ),
                    Some(Ok(nodes)) => results_outcome(
                        operand,
                        operator,
                        nodes,
                        response.answers.globs,
                        gas - cost,
                    ),
                }
            },
        },
    }
}

/// What an operation comes to.
pub open spec fn evaluation(op: Op, response: Response, gas: int) -> Evaluation
    decreases op, 0int,
{
    match op {
        Op::And { children } => evaluation_of_all(children@, true, 0, response, gas),
        Op::Or { children } => evaluation_of_all(children@, false, 0, response, gas),
        Op::Not { operand } => match evaluation(*operand, response, gas) {
            Ok((value, path, left)) => Ok(
                (!value, EvalPath::ChildIndex { index: 0, child: Box::new(path) }, left),
            ),
            Err(halt) => Err(halt),
        },
        Op::StatusCodeCheck { value, operator } => by_itself(
            paid(gas, COMPARISON_GAS as int, status_passes(response.status_code, operator, value)),
        ),
        Op::HeaderCheck { key_op, key_operand, value_op, value_operand } => by_itself(
            headers_outcome(
                key_op,
                key_operand,
                value_op,
                value_operand,
                response.headers,
                0,
                response.answers.globs,
                gas,
            ),
        ),
        Op::JsonPath { path, query, operator, operand } => by_itself(
            query_outcome(path@, query, operator, operand, response, gas),
        ),
    }
}

/// What a list of operations comes to, from position `from` on: the first whose
/// result is not `passing` decides, and else all of them do.
pub open spec fn evaluation_of_all(
    children: Seq<Op>,
    passing: bool,
    from: int,
    response: Response,
    gas: int,
) -> Evaluation
    decreases children, children.len() - from,
{
    if 0 <= from < children.len() {
        match evaluation(children[from], response, gas) {
            Err(halt) => Err(halt),
            Ok((value, path, left)) => if value == passing {
                evaluation_of_all(children, passing, from + 1, response, left)
            } else {
                Ok(
                    (
                        value,
                        EvalPath::ChildIndex { index: from as usize, child: Box::new(path) },
                        left,
                    ),
                )
            },
        }
    } else {
        Ok((passing, EvalPath::AllChildren, gas))
    }
}

/// A result agrees with an evaluation: the same value for the same reason or the same
/// halt, and the same budget left.
pub open spec fn accords(r: Result<EvalResult, Halt>, e: Evaluation, left: int) -> bool {
    match e {
        Ok((value, path, gas)) => r == Ok::<EvalResult, Halt>(
            EvalResult { reason_path: path, result: value },
        ) && left == gas,
        Err((halt, gas)) => (r matches Err(h) && h@ == halt) && left == gas,
    }
}

fn leaf_result(r: Result<bool, Halt>) -> (e: Result<EvalResult, Halt>)
    ensures
        match r {
            Ok(value) => e == Ok::<EvalResult, Halt>(
                EvalResult { reason_path: EvalPath::Leaf, result: value },
            ),
            Err(halt) => e == Err::<EvalResult, Halt>(halt),
        },
{
    match r {
        Ok(value) => Ok(EvalResult::leaf(value)),
        Err(halt) => Err(halt),
    }
}

fn eval_headers(
    key_op: &Comparison,
    key_operand: &HeaderOperand,
    value_op: &Comparison,
    value_operand: &HeaderOperand,
    headers: &Vec<Header>,
    answers: &Vec<GlobAnswer>,
    gas: &mut Gas,
) -> (r: Result<bool, Halt>)
    ensures
        agrees(
            r,
            headers_outcome(
                *key_op,
                *key_operand,
                *value_op,
                *value_operand,
                headers@,
                0,
                answers@,
                old(gas).0 as int,
            ),
            final(gas).0 as int,
        ),
{
    let mut i: usize = 0;
    while i < headers.len()
        invariant
            i <= headers.len(),
            headers_outcome(
                *key_op,
                *key_operand,
                *value_op,
                *value_operand,
                headers@,
                0,
                answers@,
                old(gas).0 as int,
            ) == headers_outcome(
                *key_op,
                *key_operand,
                *value_op,
                *value_operand,
                headers@,
                i as int,
                answers@,
                gas.0 as int,
            ),
        decreases headers.len() - i,
    {
        let header = &headers[i];
        match key_operand.eval(key_op, header.name.as_str(), answers, gas) {
            Err(halt) => return Err(halt),
            Ok(false) => {},
            Ok(true) => {
                if let Some(value) = header_text(header.value.as_slice()) {
                    match value_operand.eval(value_op, value.as_str(), answers, gas) {
                        Err(halt) => return Err(halt),
                        Ok(true) => return Ok(true),
                        Ok(false) => {},
                    }
                }
            },
        }
        i = i + 1;
    }
    Ok(false)
}

fn eval_query(
    path: &String,
    query: &Query,
    operator: &Comparison,
    operand: &JSONPathOperand,
    body: &[u8],
    answers: &Answers,
    gas: &mut Gas,
    response: Ghost<Response>,
) -> (r: Result<bool, Halt>)
    requires
        response@.body == body@,
        response@.answers == answers@,
    ensures
        agrees(
            r,
            query_outcome(path@, *query, *operator, *operand, response@, old(gas).0 as int),
            final(gas).0 as int,
        ),
{
    let document = match parse_json(body) {
        Ok(document) => document,
        Err(body) => return Err(Halt::Failed(RuntimeError::InvalidBodyJson { body })),
    };
    let cost: u32 = match find_cost(&answers.costs, path) {
        Some(cost) => cost,
        None => return Err(Halt::NeedsCost { path: path.clone() }),
    };
    match gas.consume(cost) {
        Err(e) => return Err(Halt::Failed(e)),
        Ok(()) => {},
    }
    match query {
        Query::Plain { query } => match run_query(query, &document) {
            Ok(nodes) => operand.eval(operator, &nodes, &answers.globs, gas),
            Err(msg) => Err(Halt::Failed(RuntimeError::InvalidJsonPath { msg })),
        },
        Query::Globbing => match find_run(&answers.runs, path) {
            None => Err(Halt::NeedsRun { path: path.clone() }),
            Some(run) => match &run.found {
                Ok(nodes) => operand.eval(operator, nodes, &answers.globs, gas),
                Err(msg) => Err(
                    Halt::Failed(RuntimeError::InvalidJsonPath { msg: msg.clone() }),
                ),
            },
        },
    }
}

impl Op {
    fn eval(
        &self,
        status_code: u16,
        headers: &Vec<Header>,
        body: &[u8],
        answers: &Answers,
        gas: &mut Gas,
    ) -> (r: Result<EvalResult, Halt>)
        ensures
            accords(
                r,
                evaluation(
                    *self,
                    Response { status_code, headers: headers@, body: body@, answers: answers@ },
                    old(gas).0 as int,
                ),
                final(gas).0 as int,
            ),
        decreases self,
    {
        let ghost response = Response {
            status_code,
            headers: headers@,
            body: body@,
            answers: answers@,
        };
        match self {
            Op::And { children } => Op::eval_all(
                children,
                true,
                status_code,
                headers,
                body,
                answers,
                gas,
            ),
            Op::Or { children } => Op::eval_all(
                children,
                false,
                status_code,
                headers,
                body,
                answers,
                gas,
            ),
            Op::Not { operand } => match operand.eval(status_code, headers, body, answers, gas) {
                Ok(eval) => Ok(EvalResult::child_idx(0, !eval.result, eval.reason_path)),
                Err(halt) => Err(halt),
            },
            Op::StatusCodeCheck { value, operator } => {
                match gas.consume(COMPARISON_GAS) {
                    Err(e) => return Err(Halt::Failed(e)),
                    Ok(()) => {},
                }
                let passed = match operator {
                    Comparison::Always => true,
                    Comparison::Never => false,
                    Comparison::LessThan => status_code < *value,
                    Comparison::GreaterThan => status_code > *value,
                    Comparison::Equal => *value == status_code,
                    Comparison::NotEqual => *value != status_code,
                };
                Ok(EvalResult::leaf(passed))
            },
            Op::HeaderCheck { key_op, key_operand, value_op, value_operand } => leaf_result(
                eval_headers(key_op, key_operand, value_op, value_operand, headers, &answers.globs, gas),
            ),
            Op::JsonPath { path, query, operator, operand } => leaf_result(
                eval_query(path, query, operator, operand, body, answers, gas, Ghost(response)),
            ),
        }
    }

    fn eval_all(
        children: &Vec<Op>,
        passing: bool,
        status_code: u16,
        headers: &Vec<Header>,
        body: &[u8],
        answers: &Answers,
        gas: &mut Gas,
    ) -> (r: Result<EvalResult, Halt>)
        ensures
            accords(
                r,
                evaluation_of_all(
                    children@,
                    passing,
                    0,
                    Response { status_code, headers: headers@, body: body@, answers: answers@ },
                    old(gas).0 as int,
                ),
                final(gas).0 as int,
            ),
        decreases children,
    {
        let ghost response = Response {
            status_code,
            headers: headers@,
            body: body@,
            answers: answers@,
        };
        let mut i: usize = 0;
        while i < children.len()
            invariant
                i <= children.len(),
                response == (Response {
                    status_code,
                    headers: headers@,
                    body: body@,
                    answers: answers@,
                }),
                evaluation_of_all(children@, passing, 0, response, old(gas).0 as int)
                    == evaluation_of_all(
                    children@,
                    passing,
                    i as int,
                    response,
                    gas.0 as int,
                ),
            decreases children.len() - i,
        {
            match children[i].eval(status_code, headers, body, answers, gas) {
                Err(halt) => return Err(halt),
                Ok(eval) => {
                    if eval.result != passing {
                        return Ok(EvalResult::child_idx(i, eval.result, eval.reason_path));
                    }
                },
            }
            i = i + 1;
        }
        if passing {
            Ok(EvalResult::and_node())
        } else {
            Ok(EvalResult::or_node())
        }
    }
}

impl Assertion {
    /// Evaluates the assertion against a response, with `assertion_complexity` as
    /// the budget and `answers` as what is known of globs and queries.
    pub fn eval(
        &self,
        status_code: u16,
        headers: &Vec<Header>,
        body: &[u8],
        assertion_complexity: u32,
        answers: &Answers,
    ) -> (r: Result<EvalResult, Halt>)
        ensures
            ({
                let response = Response {
                    status_code,
                    headers: headers@,
                    body: body@,
                    answers: answers@,
                };
                match evaluation(self.root, response, assertion_complexity as int) {
                    Ok((value, path, _)) => r == Ok::<EvalResult, Halt>(
                        EvalResult { reason_path: path, result: value },
                    ),
                    Err((halt, _)) => r matches Err(h) && h@ == halt,
                }
            }),
    {
        let mut gas = Gas(assertion_complexity);
        self.root.eval(status_code, headers, body, answers, &mut gas)
    }
}

/// The complexity up to which a glob is built.
pub const GLOB_COMPLEXITY_LIMIT: u64 = 20;

/// Why an assertion cannot be compiled.
#[derive(Debug)]
#[allow(inconsistent_fields)]
pub enum CompilationError {
    InvalidGlob { glob: String, msg: String },
    JSONPathParser { msg: String, path: String, pos: usize },
    InvalidJsonPath { msg: String },
    TooManyOperations,
}

/// A `CompilationError` by its words.
pub enum CompilationErrorView {
    InvalidGlob { glob: Seq<char>, msg: Seq<char> },
    JSONPathParser { msg: Seq<char>, path: Seq<char>, pos: usize },
    InvalidJsonPath { msg: Seq<char> },
    TooManyOperations,
}

impl View for CompilationError {
    type V = CompilationErrorView;

    open spec fn view(&self) -> CompilationErrorView {
        match self {
            CompilationError::InvalidGlob { glob, msg } => CompilationErrorView::InvalidGlob {
                glob: glob@,
                msg: msg@,
            },
            CompilationError::JSONPathParser { msg, path, pos } =>
            CompilationErrorView::JSONPathParser { msg: msg@, path: path@, pos: *pos },
            CompilationError::InvalidJsonPath { msg } => CompilationErrorView::InvalidJsonPath {
                msg: msg@,
            },
            CompilationError::TooManyOperations => CompilationErrorView::TooManyOperations,
        }
    }
}

impl CompilationErrorView {
    /// The error as a sentence.
    pub open spec fn sentence(self) -> Seq<char> {
        match self {
            CompilationErrorView::InvalidGlob { glob, msg } => "Invalid glob "@ + glob + ": "@ + msg,
            CompilationErrorView::JSONPathParser { msg, path, pos } => "JSONPath Parser Error: "@
                + msg,
            CompilationErrorView::InvalidJsonPath { msg } => "Invalid JSONPath: "@ + msg,
            CompilationErrorView::TooManyOperations => "Too many assertion operations"@,
        }
    }
}

impl CompilationError {
    /// The error as a sentence.
    pub fn message(&self) -> (r: String)
        ensures
            r@ == self@.sentence(),
    {
        match self {
            CompilationError::InvalidGlob { glob, msg } => "Invalid glob ".to_owned().concat(
                glob.as_str(),
            ).concat(": ").concat(msg.as_str()),
            CompilationError::JSONPathParser { msg, .. } =>
            "JSONPath Parser Error: ".to_owned().concat(msg.as_str()),
            CompilationError::InvalidJsonPath { msg } => "Invalid JSONPath: ".to_owned().concat(
                msg.as_str(),
            ),
            CompilationError::TooManyOperations => "Too many assertion operations".to_owned(),
        }
    }
}

/// What came of building a glob: nothing, or why it is no glob.
#[derive(Debug)]
pub struct GlobBuild {
    pub pattern: String,
    pub error: Option<String>,
}

/// What came of reading a query that calls `glob`: nothing, or why it is none.
#[derive(Debug)]
pub struct PathBuild {
    pub path: String,
    pub fault: Option<PathFault>,
}

/// What is known for a compilation.
#[derive(Debug)]
pub struct Builds {
    pub globs: Vec<GlobBuild>,
    pub paths: Vec<PathBuild>,
}

/// `Builds` by their lists.
pub struct BuildsView {
    pub globs: Seq<GlobBuild>,
    pub paths: Seq<PathBuild>,
}

impl View for Builds {
    type V = BuildsView;

    open spec fn view(&self) -> BuildsView {
        BuildsView { globs: self.globs@, paths: self.paths@ }
    }
}

impl Builds {
    /// Nothing is known.
    pub fn new() -> (r: Builds)
        ensures
            r@.globs.len() == 0,
            r@.paths.len() == 0,
    {
        Builds { globs: Vec::new(), paths: Vec::new() }
    }
}

/// Why a compilation stopped: an error, or a glob that has not been built yet, or a query
/// that has not been read.
#[derive(Debug)]
pub enum CompileHalt {
    Failed(CompilationError),
    NeedsBuild { pattern: String },
    NeedsPath { path: String },
}

/// A `CompileHalt` by its words.
pub enum CompileHaltView {
    Failed(CompilationErrorView),
    NeedsBuild { pattern: Seq<char> },
    NeedsPath { path: Seq<char> },
}

impl View for CompileHalt {
    type V = CompileHaltView;

    open spec fn view(&self) -> CompileHaltView {
        match self {
            CompileHalt::Failed(e) => CompileHaltView::Failed(e@),
            CompileHalt::NeedsBuild { pattern } => CompileHaltView::NeedsBuild { pattern: pattern@ },
            CompileHalt::NeedsPath { path } => CompileHaltView::NeedsPath { path: path@ },
        }
    }
}

/// Why a glob cannot be taken into a compiled assertion, by the first build of it:
/// `None` where it can.
pub open spec fn glob_fault(builds: Seq<GlobBuild>, pattern: Seq<char>) -> Option<CompileHaltView>
    decreases builds.len(),
{
    if builds.len() == 0 {
        Some(CompileHaltView::NeedsBuild { pattern })
    } else if builds[0].pattern@ == pattern {
        match builds[0].error {
            None => None,
            Some(e) => Some(
                CompileHaltView::Failed(CompilationErrorView::InvalidGlob { glob: e@, msg: e@ }),
            ),
        }
    } else {
        glob_fault(builds.skip(1), pattern)
    }
}

fn check_glob(builds: &Vec<GlobBuild>, pattern: &String) -> (r: Result<(), CompileHalt>)
    ensures
        match glob_fault(builds@, pattern@) {
            None => r is Ok,
            Some(halt) => (r matches Err(h) && h@ == halt) && !is_too_many(halt),
        },
{
    let mut i: usize = 0;
    proof {
        lemma_glob_fault_is_no_count(builds@, pattern@);
        assert(builds@.skip(0) =~= builds@);
    }
    while i < builds.len()
        invariant
            i <= builds.len(),
            glob_fault(builds@, pattern@) == glob_fault(builds@.skip(i as int), pattern@),
        decreases builds.len() - i,
    {
        if builds[i].pattern == *pattern {
            return match &builds[i].error {
                None => Ok(()),
                Some(e) => Err(
                    CompileHalt::Failed(
                        CompilationError::InvalidGlob { glob: e.clone(), msg: e.clone() },
                    ),
                ),
            };
        }
        proof {
            assert(builds@.skip(i as int).skip(1) =~= builds@.skip(i + 1));
        }
        i = i + 1;
    }
    Err(CompileHalt::NeedsBuild { pattern: pattern.clone() })
}

/// What stands in the way of compiling a header operand.
pub open spec fn header_operand_fault(
    value: assertions::HeaderOperand,
    builds: Seq<GlobBuild>,
) -> Option<CompileHaltView> {
    match value {
        assertions::HeaderOperand::Glob { pattern } => glob_fault(builds, pattern.value@),
        _ => None,
    }
}

/// A compiled header operand says what the written one says.
pub open spec fn header_operand_compiles_to(
    value: assertions::HeaderOperand,
    r: HeaderOperand,
) -> bool {
    match value {
        assertions::HeaderOperand::Nothing => r is Nothing,
        assertions::HeaderOperand::Literal { value } => r matches HeaderOperand::Literal {
            value: v,
        } && reads_as(value@, v),
        assertions::HeaderOperand::Glob { pattern } => r matches HeaderOperand::Glob { pattern: p }
            && p@ == pattern.value@,
    }
}

fn compile_header_operand(
    value: &assertions::HeaderOperand,
    builds: &Vec<GlobBuild>,
) -> (r: Result<HeaderOperand, CompileHalt>)
    ensures
        match header_operand_fault(*value, builds@) {
            None => r matches Ok(v) && header_operand_compiles_to(*value, v),
            Some(halt) => (r matches Err(h) && h@ == halt) && !is_too_many(halt),
        },
{
    match value {
        assertions::HeaderOperand::Nothing => Ok(HeaderOperand::Nothing),
        assertions::HeaderOperand::Literal { value } => Ok(
            HeaderOperand::Literal { value: compile_value(value) },
        ),
        assertions::HeaderOperand::Glob { pattern } => match check_glob(builds, &pattern.value) {
            Ok(()) => Ok(HeaderOperand::Glob { pattern: pattern.value.clone() }),
            Err(halt) => Err(halt),
        },
    }
}

/// What stands in the way of compiling a query operand.
pub open spec fn json_operand_fault(
    value: assertions::JSONPathOperand,
    builds: Seq<GlobBuild>,
) -> Option<CompileHaltView> {
    match value {
        assertions::JSONPathOperand::Glob { pattern } => glob_fault(builds, pattern.value@),
        _ => None,
    }
}

/// A compiled query operand says what the written one says.
pub open spec fn json_operand_compiles_to(
    value: assertions::JSONPathOperand,
    r: JSONPathOperand,
) -> bool {
    match value {
        assertions::JSONPathOperand::Nothing => r is Nothing,
        assertions::JSONPathOperand::Literal { value } => r matches JSONPathOperand::Literal {
            value: v,
        } && v@ == value@,
        assertions::JSONPathOperand::Glob { pattern } => r matches JSONPathOperand::Glob {
            pattern: p,
        } && p@ == pattern.value@,
    }
}

fn compile_json_operand(
    value: &assertions::JSONPathOperand,
    builds: &Vec<GlobBuild>,
) -> (r: Result<JSONPathOperand, CompileHalt>)
    ensures
        match json_operand_fault(*value, builds@) {
            None => r matches Ok(v) && json_operand_compiles_to(*value, v),
            Some(halt) => (r matches Err(h) && h@ == halt) && !is_too_many(halt),
        },
{
    match value {
        assertions::JSONPathOperand::Nothing => Ok(JSONPathOperand::Nothing),
        assertions::JSONPathOperand::Literal { value } => Ok(
            JSONPathOperand::Literal { value: value.clone() },
        ),
        assertions::JSONPathOperand::Glob { pattern } => match check_glob(builds, &pattern.value) {
            Ok(()) => Ok(JSONPathOperand::Glob { pattern: pattern.value.clone() }),
            Err(halt) => Err(halt),
        },
    }
}

/// What a query that does not parse is refused with.
pub open spec fn path_error(fault: PathFaultView) -> CompilationErrorView {
    match fault {
        PathFaultView::Syntax { msg, line, pos } => CompilationErrorView::JSONPathParser {
            msg,
            path: line,
            pos,
        },
        PathFaultView::Glob { glob, msg } => CompilationErrorView::InvalidGlob { glob, msg },
        PathFaultView::Other { msg } => CompilationErrorView::InvalidJsonPath { msg },
    }
}

/// What a query that does not parse is refused with.
fn refused(fault: PathFault) -> (r: CompilationError)
    ensures
        r@ == path_error(fault@),
{
    match fault {
        PathFault::Syntax { msg, line, pos } => CompilationError::JSONPathParser {
            msg,
            path: line,
            pos,
        },
        PathFault::Glob { glob, msg } => CompilationError::InvalidGlob { glob, msg },
        PathFault::Other { msg } => CompilationError::InvalidJsonPath { msg },
    }
}

fn copied(fault: &PathFault) -> (r: PathFault)
    ensures
        r@ == fault@,
{
    match fault {
        PathFault::Syntax { msg, line, pos } => PathFault::Syntax {
            msg: msg.clone(),
            line: line.clone(),
            pos: *pos,
        },
        PathFault::Glob { glob, msg } => PathFault::Glob { glob: glob.clone(), msg: msg.clone() },
        PathFault::Other { msg } => PathFault::Other { msg: msg.clone() },
    }
}

/// Why a query that calls `glob` cannot be taken into a compiled assertion, by the first
/// reading of it: `None` where it can.
pub open spec fn reading_fault(paths: Seq<PathBuild>, path: Seq<char>) -> Option<CompileHaltView>
    decreases paths.len(),
{
    if paths.len() == 0 {
        Some(CompileHaltView::NeedsPath { path })
    } else if paths[0].path@ == path {
        match paths[0].fault {
            None => None,
            Some(fault) => Some(CompileHaltView::Failed(path_error(fault@))),
        }
    } else {
        reading_fault(paths.skip(1), path)
    }
}

/// Whatever is wrong with a query, it is not the number of operations.
pub proof fn lemma_reading_fault_is_no_count(paths: Seq<PathBuild>, path: Seq<char>)
    ensures
        reading_fault(paths, path) matches Some(halt) ==> !is_too_many(halt),
    decreases paths.len(),
{
    if paths.len() > 0 {
        lemma_reading_fault_is_no_count(paths.skip(1), path);
    }
}

fn check_path(paths: &Vec<PathBuild>, path: &String) -> (r: Result<(), CompileHalt>)
    ensures
        match reading_fault(paths@, path@) {
            None => r is Ok,
            Some(halt) => (r matches Err(h) && h@ == halt) && !is_too_many(halt),
        },
{
    let mut i: usize = 0;
    proof {
        lemma_reading_fault_is_no_count(paths@, path@);
        assert(paths@.skip(0) =~= paths@);
    }
    while i < paths.len()
        invariant
            i <= paths.len(),
            reading_fault(paths@, path@) == reading_fault(paths@.skip(i as int), path@),
        decreases paths.len() - i,
    {
        if paths[i].path == *path {
            return match &paths[i].fault {
                None => Ok(()),
                Some(fault) => Err(CompileHalt::Failed(refused(copied(fault)))),
            };
        }
        proof {
            assert(paths@.skip(i as int).skip(1) =~= paths@.skip(i + 1));
        }
        i = i + 1;
    }
    Err(CompileHalt::NeedsPath { path: path.clone() })
}

/// What stands in the way of reading a query.
pub open spec fn path_fault(path: Seq<char>, paths: Seq<PathBuild>) -> Option<CompileHaltView> {
    if calls_glob(path) {
        reading_fault(paths, path)
    } else {
        match path_in(path) {
            Ok(_) => None,
            Err(fault) => Some(CompileHaltView::Failed(path_error(fault))),
        }
    }
}

/// A query that was read is the one that was written.
pub open spec fn path_compiles_to(path: Seq<char>, query: Query) -> bool {
    match query {
        Query::Plain { query } => !calls_glob(path) && path_in(path) == Ok::<
            jsonpath_rust::parser::model::JpQuery,
            PathFaultView,
        >(query),
        Query::Globbing => calls_glob(path),
    }
}

/// Reads a query. `jsonpath_rust` knows the functions `length`, `count`, `value`, `match`,
/// `search` and the set functions of its grammar; a query that calls `glob` is read
/// elsewhere, and `paths` tells what came of it.
fn compile_path(path: &String, paths: &Vec<PathBuild>) -> (r: Result<Query, CompileHalt>)
    ensures
        match path_fault(path@, paths@) {
            None => r matches Ok(q) && path_compiles_to(path@, q),
            Some(halt) => (r matches Err(h) && h@ == halt) && !is_too_many(halt),
        },
{
    if has_glob_call(path.as_str()) {
        return match check_path(paths, path) {
            Ok(()) => Ok(Query::Globbing),
            Err(halt) => Err(halt),
        };
    }
    match parse_path(path.as_str()) {
        Ok(query) => Ok(Query::Plain { query }),
        Err(fault) => Err(CompileHalt::Failed(refused(fault))),
    }
}

/// How many operations may still come behind this one, where `budget` may come
/// with it, or what stops its compilation. The operations count in the order in
/// which they are written.
pub open spec fn compilation(
    op: assertions::Op,
    budget: int,
    builds: BuildsView,
) -> Result<int, CompileHaltView>
    decreases op, 0int,
{
    if budget <= 0 {
        Err(CompileHaltView::Failed(CompilationErrorView::TooManyOperations))
    } else {
        match op {
            assertions::Op::And { children } => compilation_of_all(
                children@,
                0,
                budget - 1,
                builds,
            ),
            assertions::Op::Or { children } => compilation_of_all(children@, 0, budget - 1, builds),
            assertions::Op::Not { operand } => compilation(*operand, budget - 1, builds),
            assertions::Op::StatusCodeCheck { .. } => Ok(budget - 1),
            assertions::Op::HeaderCheck { key_operand, value_operand, .. } =>
            match header_operand_fault(key_operand, builds.globs) {
                Some(halt) => Err(halt),
                None => match header_operand_fault(value_operand, builds.globs) {
                    Some(halt) => Err(halt),
                    None => Ok(budget - 1),
                },
            },
            assertions::Op::JsonPath { value, operand, .. } => match path_fault(
                value@,
                builds.paths,
            ) {
                Some(halt) => Err(halt),
                None => match json_operand_fault(operand, builds.globs) {
                    Some(halt) => Err(halt),
                    None => Ok(budget - 1),
                },
            },
        }
    }
}

/// How many operations may still come behind a list, from position `from` on.
pub open spec fn compilation_of_all(
    children: Seq<assertions::Op>,
    from: int,
    budget: int,
    builds: BuildsView,
) -> Result<int, CompileHaltView>
    decreases children, children.len() - from,
{
    if 0 <= from < children.len() {
        match compilation(children[from], budget, builds) {
            Ok(left) => compilation_of_all(children, from + 1, left, builds),
            Err(halt) => Err(halt),
        }
    } else {
        Ok(budget)
    }
}

/// A compiled operation says what the written one says.
pub open spec fn compiles_to(op: assertions::Op, r: Op) -> bool
    decreases op, 0int,
{
    match op {
        assertions::Op::And { children } => r matches Op::And { children: c } && c@.len()
            == children@.len() && all_compile_to(children@, c@, 0),
        assertions::Op::Or { children } => r matches Op::Or { children: c } && c@.len()
            == children@.len() && all_compile_to(children@, c@, 0),
        assertions::Op::Not { operand } => r matches Op::Not { operand: o } && compiles_to(
            *operand,
            *o,
        ),
        assertions::Op::StatusCodeCheck { value, operator } => r == (Op::StatusCodeCheck {
            value,
            operator: comparison_of(operator),
        }),
        assertions::Op::HeaderCheck { key_op, key_operand, value_op, value_operand } =>
        r matches Op::HeaderCheck { key_op: k, key_operand: ko, value_op: v, value_operand: vo }
            && k == comparison_of(key_op) && header_operand_compiles_to(key_operand, ko) && v
            == comparison_of(value_op) && header_operand_compiles_to(value_operand, vo),
        assertions::Op::JsonPath { value, operator, operand } => r matches Op::JsonPath {
            path: w,
            query: q,
            operator: p,
            operand: o,
        } && w@ == value@ && path_compiles_to(value@, q) && p == comparison_of(operator)
            && json_operand_compiles_to(operand, o),
    }
}

/// From position `from` on, the compiled list says pairwise what the written one
/// says.
pub open spec fn all_compile_to(ops: Seq<assertions::Op>, r: Seq<Op>, from: int) -> bool
    decreases ops, ops.len() - from,
{
    if 0 <= from < ops.len() && from < r.len() {
        compiles_to(ops[from], r[from]) && all_compile_to(ops, r, from + 1)
    } else {
        true
    }
}

/// A list says pairwise what the written one says iff it does at every position.
pub proof fn lemma_all_compile_to(ops: Seq<assertions::Op>, r: Seq<Op>, from: int)
    requires
        0 <= from <= ops.len(),
        ops.len() == r.len(),
    ensures
        all_compile_to(ops, r, from) <==> forall|i: int|
            from <= i < ops.len() ==> compiles_to(#[trigger] ops[i], r[i]),
    decreases ops.len() - from,
{
    if from < ops.len() {
        lemma_all_compile_to(ops, r, from + 1);
        if all_compile_to(ops, r, from) {
            assert forall|i: int| from <= i < ops.len() implies compiles_to(
                #[trigger] ops[i],
                r[i],
            ) by {
                if i > from {
                }
            }
        }
    }
}

/// A compilation stopped because there are too many operations.
pub open spec fn is_too_many(halt: CompileHaltView) -> bool {
    halt == CompileHaltView::Failed(CompilationErrorView::TooManyOperations)
}

/// Whatever is wrong with a glob, it is not the number of operations.
pub proof fn lemma_glob_fault_is_no_count(builds: Seq<GlobBuild>, pattern: Seq<char>)
    ensures
        glob_fault(builds, pattern) matches Some(halt) ==> !is_too_many(halt),
    decreases builds.len(),
{
    if builds.len() > 0 {
        lemma_glob_fault_is_no_count(builds.skip(1), pattern);
    }
}

/// Counts one operation, or fails where none may come any more.
fn dec_ops(num_ops: &mut u32) -> (r: Result<(), CompilationError>)
    ensures
        r is Ok <==> *old(num_ops) > 0,
        r is Ok ==> *final(num_ops) == *old(num_ops) - 1,
        r matches Err(e) ==> e == CompilationError::TooManyOperations && *final(num_ops) == *old(
            num_ops,
        ),
{
    if *num_ops > 0 {
        *num_ops = *num_ops - 1;
        return Ok(());
    }
    Err(CompilationError::TooManyOperations)
}

fn compile_op(op: &assertions::Op, num_ops: &mut u32, builds: &Builds) -> (r: Result<
    Op,
    CompileHalt,
>)
    ensures
        match compilation(*op, *old(num_ops) as int, builds@) {
            Ok(left) => r matches Ok(c) && compiles_to(*op, c) && *final(num_ops) == left,
            Err(halt) => (r matches Err(h) && h@ == halt) && (is_too_many(halt)
                ==> *final(num_ops) == 0),
        },
    decreases op,
{
    match dec_ops(num_ops) {
        Err(e) => return Err(CompileHalt::Failed(e)),
        Ok(()) => {},
    }
    match op {
        assertions::Op::And { children } => match visit_children(children, num_ops, builds) {
            Ok(children) => Ok(Op::And { children }),
            Err(halt) => Err(halt),
        },
        assertions::Op::Or { children } => match visit_children(children, num_ops, builds) {
            Ok(children) => Ok(Op::Or { children }),
            Err(halt) => Err(halt),
        },
        assertions::Op::Not { operand } => match compile_op(operand, num_ops, builds) {
            Ok(operand) => Ok(Op::Not { operand: Box::new(operand) }),
            Err(halt) => Err(halt),
        },
        assertions::Op::StatusCodeCheck { value, operator } => Ok(
            Op::StatusCodeCheck { value: *value, operator: compile_comparison(operator) },
        ),
        assertions::Op::HeaderCheck { key_op, key_operand, value_op, value_operand } => {
            let key_operand = match compile_header_operand(key_operand, &builds.globs) {
                Ok(operand) => operand,
                Err(halt) => return Err(halt),
            };
            let value_operand = match compile_header_operand(value_operand, &builds.globs) {
                Ok(operand) => operand,
                Err(halt) => return Err(halt),
            };
            Ok(
                Op::HeaderCheck {
                    key_op: compile_comparison(key_op),
                    key_operand,
                    value_op: compile_comparison(value_op),
                    value_operand,
                },
            )
        },
        assertions::Op::JsonPath { value, operator, operand } => {
            let query = match compile_path(value, &builds.paths) {
                Ok(query) => query,
                Err(halt) => return Err(halt),
            };
            let operand = match compile_json_operand(operand, &builds.globs) {
                Ok(operand) => operand,
                Err(halt) => return Err(halt),
            };
            Ok(
                Op::JsonPath {
                    path: value.clone(),
                    query,
                    operator: compile_comparison(operator),
                    operand,
                },
            )
        },
    }
}

fn visit_children(
    children: &Vec<assertions::Op>,
    num_ops: &mut u32,
    builds: &Builds,
) -> (r: Result<Vec<Op>, CompileHalt>)
    ensures
        match compilation_of_all(children@, 0, *old(num_ops) as int, builds@) {
            Ok(left) => r matches Ok(c) && c@.len() == children@.len() && all_compile_to(
                children@,
                c@,
                0,
            ) && *final(num_ops) == left,
            Err(halt) => (r matches Err(h) && h@ == halt) && (is_too_many(halt)
                ==> *final(num_ops) == 0),
        },
    decreases children,
{
    let mut compiled: Vec<Op> = Vec::new();
    let mut i: usize = 0;
    while i < children.len()
        invariant
            i <= children.len(),
            compiled@.len() == i,
            compilation_of_all(children@, 0, *old(num_ops) as int, builds@) == compilation_of_all(
                children@,
                i as int,
                *num_ops as int,
                builds@,
            ),
            forall|j: int| 0 <= j < i ==> compiles_to(#[trigger] children@[j], compiled@[j]),
        decreases children.len() - i,
    {
        match compile_op(&children[i], num_ops, builds) {
            Ok(op) => compiled.push(op),
            Err(halt) => return Err(halt),
        }
        i = i + 1;
    }
    proof {
        lemma_all_compile_to(children@, compiled@, 0);
    }
    Ok(compiled)
}

/// Compiles an assertion of at most `max_assertion_ops` operations, with `builds` as
/// what is known of its globs and of its queries that call `glob`.
pub fn compile(
    assertion: &assertions::Assertion,
    max_assertion_ops: u32,
    builds: &Builds,
) -> (r: Result<Assertion, CompileHalt>)
    ensures
        match compilation(assertion.root, max_assertion_ops as int, builds@) {
            Ok(_) => r matches Ok(c) && compiles_to(assertion.root, c.root),
            Err(halt) => r matches Err(h) && h@ == halt,
        },
{
    let mut num_ops: u32 = max_assertion_ops;
    match compile_op(&assertion.root, &mut num_ops, builds) {
        Ok(root) => Ok(Assertion { root }),
        Err(halt) => Err(halt),
    }
}

/// Whether a path can be followed in an operation.
pub open spec fn path_fits(path: EvalPath, op: assertions::Op) -> bool
    decreases path,
{
    match path {
        EvalPath::Leaf => true,
        EvalPath::AllChildren => true,
        EvalPath::ChildIndex { index, child } => match op {
            assertions::Op::And { children } => index < children@.len() && path_fits(
                *child,
                children@[index as int],
            ),
            assertions::Op::Or { children } => index < children@.len() && path_fits(
                *child,
                children@[index as int],
            ),
            assertions::Op::Not { operand } => path_fits(*child, *operand),
            _ => false,
        },
    }
}

/// `r` is `op` with only those children left that the path leads through.
pub open spec fn pruned(path: EvalPath, op: assertions::Op, r: assertions::Op) -> bool
    decreases path,
{
    match path {
        EvalPath::Leaf => assertions::same_op(op, r),
        EvalPath::AllChildren => assertions::same_op(op, r),
        EvalPath::ChildIndex { index, child } => match (op, r) {
            (
                assertions::Op::And { children: x },
                assertions::Op::And { children: y },
            ) => y@.len() == 1 && pruned(*child, x@[index as int], y@[0]),
            (
                assertions::Op::Or { children: x },
                assertions::Op::Or { children: y },
            ) => y@.len() == 1 && pruned(*child, x@[index as int], y@[0]),
            (
                assertions::Op::Not { operand: x },
                assertions::Op::Not { operand: y },
            ) => pruned(*child, *x, *y),
            _ => false,
        },
    }
}

/// The part of an assertion that decided its result.
pub fn extract_failure_data(path: &EvalPath, assert_op: &assertions::Op) -> (r: assertions::Op)
    requires
        path_fits(*path, *assert_op),
    ensures
        pruned(*path, *assert_op, r),
    decreases path,
{
    match path {
        EvalPath::Leaf => assert_op.clone(),
        EvalPath::AllChildren => assert_op.clone(),
        EvalPath::ChildIndex { index, child } => match assert_op {
            assertions::Op::And { children } => {
                let part = extract_failure_data(child, &children[*index]);
                assertions::Op::And { children: vec![part] }
            },
            assertions::Op::Or { children } => {
                let part = extract_failure_data(child, &children[*index]);
                assertions::Op::Or { children: vec![part] }
            },
            assertions::Op::Not { operand } => assertions::Op::Not {
                operand: Box::new(extract_failure_data(child, operand)),
            },
            _ => assert_op.clone(),
        },
    }
}

} // verus!
