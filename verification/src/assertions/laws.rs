//! What holds of compiling and evaluating assertions as a whole.

use crate::assertions;
use crate::assertions::compiled::{
    all_compile_to, answer_to, compilation, compilation_of_all, compiles_to, cost_of, evaluation,
    evaluation_of_all, found_in, glob_fault, header_operand_compiles_to, header_outcome,
    headers_outcome, json_in, json_operand_compiles_to, lemma_glob_fault_is_no_count,
    lemma_reading_fault_is_no_count, node_outcome, nodes_outcome, path_fits, pruned, reading_fault,
    run_of, AnswersView, BuildsView, CompilationErrorView, CompileHaltView, Comparison, Evaluation,
    EvalPath, GlobAnswer, GlobBuild, HaltView, Header, HeaderOperand, JSONPathOperand,
    JsonNodeView, Op, Outcome, PathBuild, Query, QueryCost, QueryRun, Response,
};
use crate::assertions::path_text::calls_glob;
use crate::assertions::{any_queries_body, queries_body, same_op, same_ops};
use vstd::prelude::*;

verus! {

/// The same response, with more known of globs and queries.
pub open spec fn with_answers(response: Response, more: AnswersView) -> Response {
    Response {
        answers: AnswersView {
            globs: response.answers.globs + more.globs,
            costs: response.answers.costs + more.costs,
            runs: response.answers.runs + more.runs,
        },
        ..response
    }
}

/// An evaluation stopped with a question.
pub open spec fn is_question(halt: HaltView) -> bool {
    halt !is Failed
}

/// A question has not been answered.
pub open spec fn is_open(halt: HaltView, answers: AnswersView) -> bool {
    match halt {
        HaltView::Failed(_) => false,
        HaltView::NeedsMatch { pattern, text } => answer_to(answers.globs, pattern, text) is None,
        HaltView::NeedsCost { path } => cost_of(answers.costs, path) is None,
        HaltView::NeedsRun { path } => run_of(answers.runs, path) is None,
    }
}

proof fn lemma_cost_kept(costs: Seq<QueryCost>, more: Seq<QueryCost>, path: Seq<char>)
    ensures
        cost_of(costs, path) is Some ==> cost_of(costs + more, path) == cost_of(costs, path),
    decreases costs.len(),
{
    if costs.len() > 0 {
        lemma_cost_kept(costs.skip(1), more, path);
        assert((costs + more).skip(1) =~= costs.skip(1) + more);
    }
}

proof fn lemma_run_kept(runs: Seq<QueryRun>, more: Seq<QueryRun>, path: Seq<char>)
    ensures
        run_of(runs, path) is Some ==> run_of(runs + more, path) == run_of(runs, path),
    decreases runs.len(),
{
    if runs.len() > 0 {
        lemma_run_kept(runs.skip(1), more, path);
        assert((runs + more).skip(1) =~= runs.skip(1) + more);
    }
}

/// The same response, with another body.
pub open spec fn with_body(response: Response, body: Seq<u8>) -> Response {
    Response { body, ..response }
}

proof fn lemma_answer_kept(answers: Seq<GlobAnswer>, more: Seq<GlobAnswer>, p: Seq<char>, t: Seq<char>)
    ensures
        answer_to(answers, p, t) is Some ==> answer_to(answers + more, p, t) == answer_to(
            answers,
            p,
            t,
        ),
    decreases answers.len(),
{
    if answers.len() > 0 {
        lemma_answer_kept(answers.skip(1), more, p, t);
        assert((answers + more).skip(1) =~= answers.skip(1) + more);
    }
}

/// What the helpers say of one outcome: it leaves no more than was there, it needs
/// no less, more answers keep it, and it asks only what is open.
spec fn well_behaved(
    outcome: Outcome,
    richer: Outcome,
    informed: Outcome,
    answers: Seq<GlobAnswer>,
    gas: int,
    extra: int,
) -> bool {
    &&& outcome matches Ok((_, left)) ==> 0 <= left <= gas
    &&& outcome matches Err((halt, left)) ==> 0 <= left <= gas && (halt is Failed
        || halt is NeedsMatch)
    &&& outcome matches Ok((value, left)) ==> richer == Ok::<(bool, int), (HaltView, int)>(
        (value, left + extra),
    )
    &&& !(outcome matches Err((HaltView::NeedsMatch { .. }, _))) ==> informed == outcome
    &&& outcome matches Err((HaltView::NeedsMatch { pattern, text }, _)) ==> answer_to(
        answers,
        pattern,
        text,
    ) is None
}

proof fn lemma_header(
    operand: HeaderOperand,
    op: Comparison,
    text: Seq<char>,
    answers: Seq<GlobAnswer>,
    more: Seq<GlobAnswer>,
    gas: int,
    extra: int,
)
    requires
        0 <= gas,
        0 <= extra,
    ensures
        well_behaved(
            header_outcome(operand, op, text, answers, gas),
            header_outcome(operand, op, text, answers, gas + extra),
            header_outcome(operand, op, text, answers + more, gas),
            answers,
            gas,
            extra,
        ),
{
    if let HeaderOperand::Glob { pattern } = operand {
        lemma_answer_kept(answers, more, pattern@, text);
    }
}

proof fn lemma_headers(
    key_op: Comparison,
    key_operand: HeaderOperand,
    value_op: Comparison,
    value_operand: HeaderOperand,
    headers: Seq<Header>,
    from: int,
    answers: Seq<GlobAnswer>,
    more: Seq<GlobAnswer>,
    gas: int,
    extra: int,
)
    requires
        0 <= gas,
        0 <= extra,
    ensures
        well_behaved(
            headers_outcome(
                key_op,
                key_operand,
                value_op,
                value_operand,
                headers,
                from,
                answers,
                gas,
            ),
            headers_outcome(
                key_op,
                key_operand,
                value_op,
                value_operand,
                headers,
                from,
                answers,
                gas + extra,
            ),
            headers_outcome(
                key_op,
                key_operand,
                value_op,
                value_operand,
                headers,
                from,
                answers + more,
                gas,
            ),
            answers,
            gas,
            extra,
        ),
    decreases headers.len() - from,
{
    if 0 <= from < headers.len() {
        let name = headers[from].name@;
        let value = crate::assertions::compiled::ascii_text(headers[from].value@);
        lemma_header(key_operand, key_op, name, answers, more, gas, extra);
        if let Ok((key_passed, left)) = header_outcome(key_operand, key_op, name, answers, gas) {
            lemma_header(value_operand, value_op, value, answers, more, left, extra);
            lemma_headers(
                key_op,
                key_operand,
                value_op,
                value_operand,
                headers,
                from + 1,
                answers,
                more,
                left,
                extra,
            );
            if let Ok((_, rest)) = header_outcome(value_operand, value_op, value, answers, left) {
                lemma_headers(
                    key_op,
                    key_operand,
                    value_op,
                    value_operand,
                    headers,
                    from + 1,
                    answers,
                    more,
                    rest,
                    extra,
                );
            }
        }
    }
}

proof fn lemma_node(
    operand: JSONPathOperand,
    op: Comparison,
    node: JsonNodeView,
    answers: Seq<GlobAnswer>,
    more: Seq<GlobAnswer>,
    gas: int,
    extra: int,
)
    requires
        0 <= gas,
        0 <= extra,
    ensures
        well_behaved(
            node_outcome(operand, op, node, answers, gas),
            node_outcome(operand, op, node, answers, gas + extra),
            node_outcome(operand, op, node, answers + more, gas),
            answers,
            gas,
            extra,
        ),
{
    if let JSONPathOperand::Glob { pattern } = operand {
        if let Some(text) = node.text {
            lemma_answer_kept(answers, more, pattern@, text);
        }
    }
}

proof fn lemma_nodes(
    operand: JSONPathOperand,
    op: Comparison,
    nodes: Seq<JsonNodeView>,
    from: int,
    answers: Seq<GlobAnswer>,
    more: Seq<GlobAnswer>,
    gas: int,
    extra: int,
)
    requires
        0 <= gas,
        0 <= extra,
    ensures
        well_behaved(
            nodes_outcome(operand, op, nodes, from, answers, gas),
            nodes_outcome(operand, op, nodes, from, answers, gas + extra),
            nodes_outcome(operand, op, nodes, from, answers + more, gas),
            answers,
            gas,
            extra,
        ),
    decreases nodes.len() - from,
{
    if 0 <= from < nodes.len() {
        lemma_node(operand, op, nodes[from], answers, more, gas, extra);
        if let Ok((_, left)) = node_outcome(operand, op, nodes[from], answers, gas) {
            lemma_nodes(operand, op, nodes, from + 1, answers, more, left, extra);
        }
    }
}

/// Whatever the budget, a header's text that is held against an operand comes to the same
/// result wherever it comes to one, and leaves no more than was there.
pub proof fn law_header_outcomes_are_settled(
    operand: HeaderOperand,
    op: Comparison,
    text: Seq<char>,
    answers: Seq<GlobAnswer>,
    gas: int,
    other: int,
)
    requires
        0 <= gas,
        0 <= other,
    ensures
        header_outcome(operand, op, text, answers, gas) matches Ok((value, left)) ==> 0 <= left
            <= gas && (header_outcome(operand, op, text, answers, other) matches Ok((again, _))
            ==> again == value),
{
    let most = if gas <= other {
        other
    } else {
        gas
    };
    lemma_header(operand, op, text, answers, answers, gas, most - gas);
    lemma_header(operand, op, text, answers, answers, other, most - other);
}

/// Whatever the budget, a result of a query that is held against an operand comes to the
/// same wherever it comes to a result, and leaves no more than was there.
pub proof fn law_node_outcomes_are_settled(
    operand: JSONPathOperand,
    op: Comparison,
    node: JsonNodeView,
    answers: Seq<GlobAnswer>,
    gas: int,
    other: int,
)
    requires
        0 <= gas,
        0 <= other,
    ensures
        node_outcome(operand, op, node, answers, gas) matches Ok((value, left)) ==> 0 <= left <= gas
            && (node_outcome(operand, op, node, answers, other) matches Ok((again, _)) ==> again
            == value),
{
    let most = if gas <= other {
        other
    } else {
        gas
    };
    lemma_node(operand, op, node, answers, answers, gas, most - gas);
    lemma_node(operand, op, node, answers, answers, other, most - other);
}

/// The same of a whole evaluation.
spec fn sound(
    outcome: Evaluation,
    richer: Evaluation,
    informed: Evaluation,
    answers: AnswersView,
    gas: int,
    extra: int,
) -> bool {
    &&& outcome matches Ok((_, _, left)) ==> 0 <= left <= gas
    &&& outcome matches Err((_, left)) ==> 0 <= left <= gas
    &&& outcome matches Ok((value, path, left)) ==> richer == Ok::<(bool, EvalPath, int), (HaltView, int)>(
        (value, path, left + extra),
    )
    &&& (outcome matches Err((halt, _)) && is_question(halt)) || informed == outcome
    &&& outcome matches Err((halt, _)) ==> is_question(halt) ==> is_open(halt, answers)
}

proof fn lemma_sound(op: Op, response: Response, more: AnswersView, gas: int, extra: int)
    requires
        0 <= gas,
        0 <= extra,
    ensures
        sound(
            evaluation(op, response, gas),
            evaluation(op, response, gas + extra),
            evaluation(op, with_answers(response, more), gas),
            response.answers,
            gas,
            extra,
        ),
    decreases op, 0int,
{
    match op {
        Op::And { children } => lemma_all_sound(children@, true, 0, response, more, gas, extra),
        Op::Or { children } => lemma_all_sound(children@, false, 0, response, more, gas, extra),
        Op::Not { operand } => lemma_sound(*operand, response, more, gas, extra),
        Op::StatusCodeCheck { .. } => {},
        Op::HeaderCheck { key_op, key_operand, value_op, value_operand } => lemma_headers(
            key_op,
            key_operand,
            value_op,
            value_operand,
            response.headers,
            0,
            response.answers.globs,
            more.globs,
            gas,
            extra,
        ),
        Op::JsonPath { path, query, operator, operand } => {
            let answers = response.answers;
            lemma_cost_kept(answers.costs, more.costs, path@);
            lemma_run_kept(answers.runs, more.runs, path@);
            if let (Ok(document), Some(cost)) = (
                json_in(response.body),
                cost_of(answers.costs, path@),
            ) {
                if let Some(Ok(nodes)) = found_in(path@, query, document, answers.runs) {
                    if cost <= gas {
                        lemma_nodes(
                            operand,
                            operator,
                            nodes,
                            0,
                            answers.globs,
                            more.globs,
                            gas - cost,
                            extra,
                        );
                    }
                }
            }
        },
    }
}

proof fn lemma_all_sound(
    children: Seq<Op>,
    passing: bool,
    from: int,
    response: Response,
    more: AnswersView,
    gas: int,
    extra: int,
)
    requires
        0 <= gas,
        0 <= extra,
    ensures
        sound(
            evaluation_of_all(children, passing, from, response, gas),
            evaluation_of_all(children, passing, from, response, gas + extra),
            evaluation_of_all(children, passing, from, with_answers(response, more), gas),
            response.answers,
            gas,
            extra,
        ),
    decreases children, children.len() - from,
{
    if 0 <= from < children.len() {
        lemma_sound(children[from], response, more, gas, extra);
        if let Ok((_, _, left)) = evaluation(children[from], response, gas) {
            lemma_all_sound(children, passing, from + 1, response, more, left, extra);
        }
    }
}

/// An evaluation never leaves more budget than it was given, whatever it comes to.
pub proof fn law_gas_only_falls(op: Op, response: Response, gas: int)
    requires
        0 <= gas,
    ensures
        evaluation(op, response, gas) matches Ok((_, _, left)) ==> 0 <= left <= gas,
        evaluation(op, response, gas) matches Err((_, left)) ==> 0 <= left <= gas,
{
    lemma_sound(op, response, response.answers, gas, 0);
}

/// A larger budget never changes a result, nor the reason for it; what was added is
/// left over.
pub proof fn law_extra_gas_is_left_over(op: Op, response: Response, gas: int, extra: int)
    requires
        0 <= gas,
        0 <= extra,
    ensures
        evaluation(op, response, gas) matches Ok((value, path, left)) ==> evaluation(
            op,
            response,
            gas + extra,
        ) == Ok::<(bool, EvalPath, int), (HaltView, int)>((value, path, left + extra)),
{
    lemma_sound(op, response, response.answers, gas, extra);
}

/// Once an evaluation has come to a result or an error, further answers change
/// nothing about it.
pub proof fn law_decided_stays_decided(
    op: Op,
    response: Response,
    more: AnswersView,
    gas: int,
)
    requires
        0 <= gas,
        !(evaluation(op, response, gas) matches Err((halt, _)) && is_question(halt)),
    ensures
        evaluation(op, with_answers(response, more), gas) == evaluation(op, response, gas),
{
    lemma_sound(op, response, more, gas, 0);
}

/// An evaluation only ever asks what has not been answered.
pub proof fn law_questions_are_open(op: Op, response: Response, gas: int)
    requires
        0 <= gas,
    ensures
        evaluation(op, response, gas) matches Err((halt, _)) ==> is_question(halt) ==> is_open(
            halt,
            response.answers,
        ),
{
    lemma_sound(op, response, response.answers, gas, 0);
}

proof fn lemma_body_unread(
    op: assertions::Op,
    compiled: Op,
    response: Response,
    body: Seq<u8>,
    gas: int,
)
    requires
        compiles_to(op, compiled),
        !queries_body(op),
    ensures
        evaluation(compiled, with_body(response, body), gas) == evaluation(compiled, response, gas),
    decreases op, 0int,
{
    match (op, compiled) {
        (assertions::Op::And { children }, Op::And { children: c }) => lemma_bodies_unread(
            children@,
            c@,
            true,
            0,
            response,
            body,
            gas,
        ),
        (assertions::Op::Or { children }, Op::Or { children: c }) => lemma_bodies_unread(
            children@,
            c@,
            false,
            0,
            response,
            body,
            gas,
        ),
        (assertions::Op::Not { operand }, Op::Not { operand: o }) => lemma_body_unread(
            *operand,
            *o,
            response,
            body,
            gas,
        ),
        _ => {},
    }
}

proof fn lemma_bodies_unread(
    ops: Seq<assertions::Op>,
    compiled: Seq<Op>,
    passing: bool,
    from: int,
    response: Response,
    body: Seq<u8>,
    gas: int,
)
    requires
        ops.len() == compiled.len(),
        all_compile_to(ops, compiled, from),
        !any_queries_body(ops, from),
        0 <= from,
    ensures
        evaluation_of_all(compiled, passing, from, with_body(response, body), gas)
            == evaluation_of_all(compiled, passing, from, response, gas),
    decreases ops, ops.len() - from,
{
    if from < ops.len() {
        lemma_body_unread(ops[from], compiled[from], response, body, gas);
        if let Ok((_, _, left)) = evaluation(compiled[from], response, gas) {
            lemma_bodies_unread(ops, compiled, passing, from + 1, response, body, left);
        }
    }
}

/// An assertion that does not require the body comes to the same whatever the body.
pub proof fn law_body_is_read_only_where_required(
    op: assertions::Op,
    compiled: Op,
    response: Response,
    body: Seq<u8>,
    gas: int,
)
    requires
        compiles_to(op, compiled),
        !queries_body(op),
    ensures
        evaluation(compiled, with_body(response, body), gas) == evaluation(compiled, response, gas),
{
    lemma_body_unread(op, compiled, response, body, gas);
}

/// The reason that an evaluation gives can be followed in the assertion as it was
/// written.
pub proof fn law_reason_fits(op: assertions::Op, compiled: Op, response: Response, gas: int)
    requires
        compiles_to(op, compiled),
    ensures
        evaluation(compiled, response, gas) matches Ok((_, path, _)) ==> path_fits(path, op),
    decreases op, 0int,
{
    match (op, compiled) {
        (assertions::Op::And { children }, Op::And { children: c }) => {
            assert(children@.len() == children.len());
            lemma_reasons_fit(children@, c@, true, 0, response, gas);
        },
        (assertions::Op::Or { children }, Op::Or { children: c }) => {
            assert(children@.len() == children.len());
            lemma_reasons_fit(children@, c@, false, 0, response, gas);
        },
        (assertions::Op::Not { operand }, Op::Not { operand: o }) => law_reason_fits(
            *operand,
            *o,
            response,
            gas,
        ),
        _ => {},
    }
}

proof fn lemma_reasons_fit(
    ops: Seq<assertions::Op>,
    compiled: Seq<Op>,
    passing: bool,
    from: int,
    response: Response,
    gas: int,
)
    requires
        0 <= from,
        ops.len() == compiled.len(),
        ops.len() <= usize::MAX,
        all_compile_to(ops, compiled, from),
    ensures
        evaluation_of_all(compiled, passing, from, response, gas) matches Ok((_, path, _)) ==> {
            path == EvalPath::AllChildren || (path matches EvalPath::ChildIndex { index, child }
                && index < ops.len() && path_fits(*child, ops[index as int]))
        },
    decreases ops, ops.len() - from,
{
    if from < ops.len() {
        law_reason_fits(ops[from], compiled[from], response, gas);
        if let Ok((_, _, left)) = evaluation(compiled[from], response, gas) {
            lemma_reasons_fit(ops, compiled, passing, from + 1, response, left);
        }
    }
}

/// How many operations an assertion holds.
pub open spec fn op_count(op: assertions::Op) -> int
    decreases op, 0int,
{
    match op {
        assertions::Op::And { children } => 1 + ops_count(children@, 0),
        assertions::Op::Or { children } => 1 + ops_count(children@, 0),
        assertions::Op::Not { operand } => 1 + op_count(*operand),
        _ => 1,
    }
}

/// How many operations a list holds, from position `from` on.
pub open spec fn ops_count(ops: Seq<assertions::Op>, from: int) -> int
    decreases ops, ops.len() - from,
{
    if 0 <= from < ops.len() {
        op_count(ops[from]) + ops_count(ops, from + 1)
    } else {
        0
    }
}

/// A compilation succeeds only within its limit, and uses up one place for each
/// operation; it complains of too many operations only where there are.
pub proof fn law_operations_are_limited(op: assertions::Op, limit: int, builds: BuildsView)
    requires
        0 <= limit,
    ensures
        compilation(op, limit, builds) matches Ok(left) ==> 0 <= left && left == limit - op_count(
            op,
        ),
        compilation(op, limit, builds) == Err::<int, CompileHaltView>(
            CompileHaltView::Failed(CompilationErrorView::TooManyOperations),
        ) ==> op_count(op) > limit,
        op_count(op) >= 1,
    decreases op, 0int,
{
    match op {
        assertions::Op::And { children } => {
            if limit > 0 {
                lemma_all_limited(children@, 0, limit - 1, builds);
            } else {
                lemma_counts(children@, 0);
            }
        },
        assertions::Op::Or { children } => {
            if limit > 0 {
                lemma_all_limited(children@, 0, limit - 1, builds);
            } else {
                lemma_counts(children@, 0);
            }
        },
        assertions::Op::Not { operand } => {
            if limit > 0 {
                law_operations_are_limited(*operand, limit - 1, builds);
            } else {
                law_operations_are_limited(*operand, 0, builds);
            }
        },
        assertions::Op::HeaderCheck { key_operand, value_operand, .. } => {
            if let assertions::HeaderOperand::Glob { pattern } = key_operand {
                lemma_glob_fault_is_no_count(builds.globs, pattern.value@);
            }
            if let assertions::HeaderOperand::Glob { pattern } = value_operand {
                lemma_glob_fault_is_no_count(builds.globs, pattern.value@);
            }
        },
        assertions::Op::JsonPath { value, operand, .. } => {
            lemma_reading_fault_is_no_count(builds.paths, value@);
            if let assertions::JSONPathOperand::Glob { pattern } = operand {
                lemma_glob_fault_is_no_count(builds.globs, pattern.value@);
            }
        },
        _ => {},
    }
}

proof fn lemma_counts(ops: Seq<assertions::Op>, from: int)
    ensures
        ops_count(ops, from) >= 0,
    decreases ops, ops.len() - from,
{
    if 0 <= from < ops.len() {
        law_operations_are_limited(
            ops[from],
            0,
            BuildsView { globs: Seq::empty(), paths: Seq::empty() },
        );
        lemma_counts(ops, from + 1);
    }
}

proof fn lemma_all_limited(
    ops: Seq<assertions::Op>,
    from: int,
    limit: int,
    builds: BuildsView,
)
    requires
        0 <= limit,
    ensures
        compilation_of_all(ops, from, limit, builds) matches Ok(left) ==> 0 <= left && left == limit
            - ops_count(ops, from),
        compilation_of_all(ops, from, limit, builds) == Err::<int, CompileHaltView>(
            CompileHaltView::Failed(CompilationErrorView::TooManyOperations),
        ) ==> ops_count(ops, from) > limit,
        ops_count(ops, from) >= 0,
    decreases ops, ops.len() - from,
{
    if 0 <= from < ops.len() {
        law_operations_are_limited(ops[from], limit, builds);
        lemma_counts(ops, from + 1);
        if let Ok(left) = compilation(ops[from], limit, builds) {
            lemma_all_limited(ops, from + 1, left, builds);
        }
    }
}

/// What an operation comes to with budget enough, where it comes to a result.
pub open spec fn comes_to(op: Op, response: Response, value: bool) -> bool {
    exists|gas: int|
        0 <= gas && (#[trigger] evaluation(op, response, gas) matches Ok((v, _, _)) && v == value)
}

/// A passing AND says that each child passes, and a failing one points at a child
/// that fails; an OR is the other way round.
pub proof fn law_combinations_follow_their_children(
    children: Seq<Op>,
    passing: bool,
    response: Response,
    gas: int,
)
    requires
        0 <= gas,
        children.len() <= usize::MAX,
    ensures
        evaluation_of_all(children, passing, 0, response, gas) matches Ok((value, path, _)) ==> {
            if value == passing {
                path == EvalPath::AllChildren && forall|i: int|
                    0 <= i < children.len() ==> comes_to(#[trigger] children[i], response, passing)
            } else {
                path matches EvalPath::ChildIndex { index, .. } && index < children.len()
                    && comes_to(children[index as int], response, !passing)
            }
        },
{
    lemma_combinations(children, passing, 0, response, gas);
}

proof fn lemma_combinations(
    children: Seq<Op>,
    passing: bool,
    from: int,
    response: Response,
    gas: int,
)
    requires
        0 <= gas,
        0 <= from <= children.len(),
        children.len() <= usize::MAX,
    ensures
        evaluation_of_all(children, passing, from, response, gas) matches Ok((value, path, _)) ==> {
            if value == passing {
                path == EvalPath::AllChildren && forall|i: int|
                    from <= i < children.len() ==> comes_to(
                        #[trigger] children[i],
                        response,
                        passing,
                    )
            } else {
                path matches EvalPath::ChildIndex { index, .. } && index < children.len()
                    && comes_to(children[index as int], response, !passing)
            }
        },
    decreases children.len() - from,
{
    if from < children.len() {
        law_gas_only_falls(children[from], response, gas);
        if let Ok((v, _, left)) = evaluation(children[from], response, gas) {
            assert(comes_to(children[from], response, v));
            lemma_combinations(children, passing, from + 1, response, left);
        }
    }
}

/// Two operations that say the same, compiled, come to the same.
pub proof fn law_same_assertions_come_to_the_same(
    a: assertions::Op,
    b: assertions::Op,
    x: Op,
    y: Op,
    response: Response,
    gas: int,
)
    requires
        same_op(a, b),
        compiles_to(a, x),
        compiles_to(b, y),
    ensures
        evaluation(x, response, gas) == evaluation(y, response, gas),
    decreases a, 0int,
{
    match (a, b, x, y) {
        (
            assertions::Op::And { children: ac },
            assertions::Op::And { children: bc },
            Op::And { children: xc },
            Op::And { children: yc },
        ) => lemma_same_lists(ac@, bc@, xc@, yc@, true, 0, response, gas),
        (
            assertions::Op::Or { children: ac },
            assertions::Op::Or { children: bc },
            Op::Or { children: xc },
            Op::Or { children: yc },
        ) => lemma_same_lists(ac@, bc@, xc@, yc@, false, 0, response, gas),
        (
            assertions::Op::Not { operand: ao },
            assertions::Op::Not { operand: bo },
            Op::Not { operand: xo },
            Op::Not { operand: yo },
        ) => law_same_assertions_come_to_the_same(*ao, *bo, *xo, *yo, response, gas),
        (
            assertions::Op::HeaderCheck { .. },
            assertions::Op::HeaderCheck { .. },
            Op::HeaderCheck { key_op, key_operand, value_op, value_operand },
            Op::HeaderCheck {
                key_op: yk,
                key_operand: yko,
                value_op: yv,
                value_operand: yvo,
            },
        ) => lemma_same_headers(
            key_op,
            key_operand,
            yko,
            value_op,
            value_operand,
            yvo,
            response.headers,
            0,
            response.answers.globs,
            gas,
        ),
        (
            assertions::Op::JsonPath { .. },
            assertions::Op::JsonPath { .. },
            Op::JsonPath { path, query, operator, operand },
            Op::JsonPath { operand: yo, .. },
        ) => {
            let answers = response.answers;
            if let (Ok(document), Some(cost)) = (
                json_in(response.body),
                cost_of(answers.costs, path@),
            ) {
                if let Some(Ok(nodes)) = found_in(path@, query, document, answers.runs) {
                    lemma_same_nodes(operand, yo, operator, nodes, 0, answers.globs, gas - cost);
                }
            }
        },
        _ => {},
    }
}

proof fn lemma_same_lists(
    a: Seq<assertions::Op>,
    b: Seq<assertions::Op>,
    x: Seq<Op>,
    y: Seq<Op>,
    passing: bool,
    from: int,
    response: Response,
    gas: int,
)
    requires
        0 <= from,
        a.len() == b.len(),
        a.len() == x.len(),
        a.len() == y.len(),
        same_ops(a, b, from),
        all_compile_to(a, x, from),
        all_compile_to(b, y, from),
    ensures
        evaluation_of_all(x, passing, from, response, gas) == evaluation_of_all(
            y,
            passing,
            from,
            response,
            gas,
        ),
    decreases a, a.len() - from,
{
    if from < a.len() {
        law_same_assertions_come_to_the_same(a[from], b[from], x[from], y[from], response, gas);
        if let Ok((_, _, left)) = evaluation(x[from], response, gas) {
            lemma_same_lists(a, b, x, y, passing, from + 1, response, left);
        }
    }
}

/// Two compiled header operands that compare alike.
spec fn alike(x: HeaderOperand, y: HeaderOperand) -> bool {
    exists|a: assertions::HeaderOperand, b: assertions::HeaderOperand|
        assertions::same_header_operand(a, b) && #[trigger] header_operand_compiles_to(a, x)
            && #[trigger] header_operand_compiles_to(b, y)
}

proof fn lemma_same_headers(
    key_op: Comparison,
    xk: HeaderOperand,
    yk: HeaderOperand,
    value_op: Comparison,
    xv: HeaderOperand,
    yv: HeaderOperand,
    headers: Seq<Header>,
    from: int,
    answers: Seq<GlobAnswer>,
    gas: int,
)
    requires
        alike(xk, yk),
        alike(xv, yv),
    ensures
        headers_outcome(key_op, xk, value_op, xv, headers, from, answers, gas) == headers_outcome(
            key_op,
            yk,
            value_op,
            yv,
            headers,
            from,
            answers,
            gas,
        ),
    decreases headers.len() - from,
{
    if 0 <= from < headers.len() {
        let name = headers[from].name@;
        let value = crate::assertions::compiled::ascii_text(headers[from].value@);
        assert(header_outcome(xk, key_op, name, answers, gas) == header_outcome(
            yk,
            key_op,
            name,
            answers,
            gas,
        ));
        if let Ok((key_passed, left)) = header_outcome(xk, key_op, name, answers, gas) {
            assert(header_outcome(xv, value_op, value, answers, left) == header_outcome(
                yv,
                value_op,
                value,
                answers,
                left,
            ));
            lemma_same_headers(key_op, xk, yk, value_op, xv, yv, headers, from + 1, answers, left);
            if let Ok((_, rest)) = header_outcome(xv, value_op, value, answers, left) {
                lemma_same_headers(
                    key_op,
                    xk,
                    yk,
                    value_op,
                    xv,
                    yv,
                    headers,
                    from + 1,
                    answers,
                    rest,
                );
            }
        }
    }
}

/// Two compiled query operands that compare alike.
spec fn alike_json(x: JSONPathOperand, y: JSONPathOperand) -> bool {
    exists|a: assertions::JSONPathOperand, b: assertions::JSONPathOperand|
        assertions::same_json_operand(a, b) && #[trigger] json_operand_compiles_to(a, x)
            && #[trigger] json_operand_compiles_to(b, y)
}

proof fn lemma_same_nodes(
    x: JSONPathOperand,
    y: JSONPathOperand,
    op: Comparison,
    nodes: Seq<JsonNodeView>,
    from: int,
    answers: Seq<GlobAnswer>,
    gas: int,
)
    requires
        alike_json(x, y),
    ensures
        nodes_outcome(x, op, nodes, from, answers, gas) == nodes_outcome(
            y,
            op,
            nodes,
            from,
            answers,
            gas,
        ),
    decreases nodes.len() - from,
{
    if 0 <= from < nodes.len() {
        assert(node_outcome(x, op, nodes[from], answers, gas) == node_outcome(
            y,
            op,
            nodes[from],
            answers,
            gas,
        ));
        if let Ok((_, left)) = node_outcome(x, op, nodes[from], answers, gas) {
            lemma_same_nodes(x, y, op, nodes, from + 1, answers, left);
        }
    }
}

/// The part of an assertion that decided its result comes, on its own, to the same
/// result.
pub proof fn law_reason_alone_comes_to_the_same(
    op: assertions::Op,
    compiled: Op,
    path: EvalPath,
    part: assertions::Op,
    compiled_part: Op,
    response: Response,
    gas: int,
)
    requires
        0 <= gas,
        compiles_to(op, compiled),
        evaluation(compiled, response, gas) matches Ok((_, p, _)) && p == path,
        pruned(path, op, part),
        compiles_to(part, compiled_part),
    ensures
        evaluation(compiled_part, response, gas) matches Ok((value, _, _)) && value == evaluation(
            compiled,
            response,
            gas,
        )->Ok_0.0,
    decreases path, 1int, 0int,
{
    match path {
        EvalPath::Leaf => law_same_assertions_come_to_the_same(
            op,
            part,
            compiled,
            compiled_part,
            response,
            gas,
        ),
        EvalPath::AllChildren => law_same_assertions_come_to_the_same(
            op,
            part,
            compiled,
            compiled_part,
            response,
            gas,
        ),
        EvalPath::ChildIndex { index, child } => match (op, compiled, part, compiled_part) {
            (
                assertions::Op::And { children },
                Op::And { children: c },
                assertions::Op::And { children: one },
                Op::And { children: compiled_one },
            ) => {
                assert(children@.len() == children.len());
                assert(all_compile_to(one@, compiled_one@, 0));
                lemma_deciding_child(
                    children@,
                    c@,
                    true,
                    0,
                    path,
                    one@[0],
                    compiled_one@[0],
                    response,
                    gas,
                    gas,
                );
                assert(evaluation(compiled_part, response, gas) == evaluation_of_all(
                    compiled_one@,
                    true,
                    0,
                    response,
                    gas,
                ));
                assert(evaluation(compiled, response, gas) == evaluation_of_all(c@, true, 0, response, gas));
            },
            (
                assertions::Op::Or { children },
                Op::Or { children: c },
                assertions::Op::Or { children: one },
                Op::Or { children: compiled_one },
            ) => {
                assert(children@.len() == children.len());
                assert(all_compile_to(one@, compiled_one@, 0));
                lemma_deciding_child(
                    children@,
                    c@,
                    false,
                    0,
                    path,
                    one@[0],
                    compiled_one@[0],
                    response,
                    gas,
                    gas,
                );
                assert(evaluation(compiled_part, response, gas) == evaluation_of_all(
                    compiled_one@,
                    false,
                    0,
                    response,
                    gas,
                ));
                assert(evaluation(compiled, response, gas) == evaluation_of_all(c@, false, 0, response, gas));
            },
            (
                assertions::Op::Not { operand },
                Op::Not { operand: o },
                assertions::Op::Not { operand: q },
                Op::Not { operand: compiled_q },
            ) => law_reason_alone_comes_to_the_same(
                *operand,
                *o,
                *child,
                *q,
                *compiled_q,
                response,
                gas,
            ),
            _ => {},
        },
    }
}

proof fn lemma_deciding_child(
    ops: Seq<assertions::Op>,
    compiled: Seq<Op>,
    passing: bool,
    from: int,
    path: EvalPath,
    part: assertions::Op,
    compiled_part: Op,
    response: Response,
    gas: int,
    all_gas: int,
)
    requires
        0 <= gas <= all_gas,
        0 <= from <= ops.len(),
        ops.len() == compiled.len(),
        ops.len() <= usize::MAX,
        all_compile_to(ops, compiled, from),
        path is ChildIndex,
        evaluation_of_all(compiled, passing, from, response, gas) matches Ok((_, p, _)) && p
            == path,
        pruned(*path->child, ops[path->index as int], part),
        compiles_to(part, compiled_part),
    ensures
        evaluation(compiled_part, response, all_gas) matches Ok((value, _, _)) && value
            == evaluation_of_all(compiled, passing, from, response, gas)->Ok_0.0 && value
            != passing,
    decreases path, 0int, ops.len() - from,
{
    let child_path = *path->child;
    assert(from < ops.len());
    law_gas_only_falls(compiled[from], response, gas);
    let (value, p, left) = evaluation(compiled[from], response, gas)->Ok_0;
    if value == passing {
        lemma_deciding_child(
            ops,
            compiled,
            passing,
            from + 1,
            path,
            part,
            compiled_part,
            response,
            left,
            all_gas,
        );
    } else {
        law_reason_alone_comes_to_the_same(
            ops[from],
            compiled[from],
            child_path,
            part,
            compiled_part,
            response,
            gas,
        );
        law_extra_gas_is_left_over(compiled_part, response, gas, all_gas - gas);
    }
}

proof fn lemma_build_kept(builds: Seq<GlobBuild>, more: Seq<GlobBuild>, pattern: Seq<char>)
    ensures
        !(glob_fault(builds, pattern) matches Some(CompileHaltView::NeedsBuild { .. }))
            ==> glob_fault(builds + more, pattern) == glob_fault(builds, pattern),
        glob_fault(builds, pattern) matches Some(CompileHaltView::NeedsBuild { pattern: p }) ==> p
            == pattern && forall|i: int|
            0 <= i < builds.len() ==> (#[trigger] builds[i]).pattern@ != pattern,
        !(glob_fault(builds, pattern) matches Some(CompileHaltView::NeedsPath { .. })),
    decreases builds.len(),
{
    if builds.len() > 0 {
        let rest = builds.skip(1);
        lemma_build_kept(rest, more, pattern);
        assert((builds + more).skip(1) =~= rest + more);
        assert((builds + more)[0] == builds[0]);
        if builds[0].pattern@ != pattern {
            assert forall|i: int|
                0 <= i < builds.len() && (glob_fault(builds, pattern) matches Some(
                    CompileHaltView::NeedsBuild { .. },
                )) implies (#[trigger] builds[i]).pattern@ != pattern by {
                if i > 0 {
                    assert(rest[i - 1] == builds[i]);
                }
            }
        }
    }
}

proof fn lemma_reading_kept(paths: Seq<PathBuild>, more: Seq<PathBuild>, path: Seq<char>)
    ensures
        !(reading_fault(paths, path) matches Some(CompileHaltView::NeedsPath { .. }))
            ==> reading_fault(paths + more, path) == reading_fault(paths, path),
        reading_fault(paths, path) matches Some(CompileHaltView::NeedsPath { path: p }) ==> p == path
            && forall|i: int| 0 <= i < paths.len() ==> (#[trigger] paths[i]).path@ != path,
        !(reading_fault(paths, path) matches Some(CompileHaltView::NeedsBuild { .. })),
    decreases paths.len(),
{
    if paths.len() > 0 {
        let rest = paths.skip(1);
        lemma_reading_kept(rest, more, path);
        assert((paths + more).skip(1) =~= rest + more);
        assert((paths + more)[0] == paths[0]);
        if paths[0].path@ != path {
            assert forall|i: int|
                0 <= i < paths.len() && (reading_fault(paths, path) matches Some(
                    CompileHaltView::NeedsPath { .. },
                )) implies (#[trigger] paths[i]).path@ != path by {
                if i > 0 {
                    assert(rest[i - 1] == paths[i]);
                }
            }
        }
    }
}

/// What is known, and more.
pub open spec fn with_builds(builds: BuildsView, more: BuildsView) -> BuildsView {
    BuildsView { globs: builds.globs + more.globs, paths: builds.paths + more.paths }
}

/// A compilation stopped because something is not known yet.
pub open spec fn waits(halt: CompileHaltView) -> bool {
    halt !is Failed
}

/// Nothing is known of what a compilation waits for.
pub open spec fn is_unknown(halt: CompileHaltView, builds: BuildsView) -> bool {
    match halt {
        CompileHaltView::Failed(_) => false,
        CompileHaltView::NeedsBuild { pattern } => forall|i: int|
            0 <= i < builds.globs.len() ==> (#[trigger] builds.globs[i]).pattern@ != pattern,
        CompileHaltView::NeedsPath { path } => forall|i: int|
            0 <= i < builds.paths.len() ==> (#[trigger] builds.paths[i]).path@ != path,
    }
}

/// A compilation that came to an end comes to the same end when more is known of globs
/// and queries, and one that waits for a glob or a query waits for one of which nothing is
/// known.
pub proof fn law_compilation_waits_only_for_the_unknown(
    op: assertions::Op,
    budget: int,
    builds: BuildsView,
    more: BuildsView,
)
    ensures
        (compilation(op, budget, builds) matches Err(halt) && waits(halt)) || compilation(
            op,
            budget,
            with_builds(builds, more),
        ) == compilation(op, budget, builds),
        compilation(op, budget, builds) matches Err(halt) ==> waits(halt) ==> is_unknown(
            halt,
            builds,
        ),
    decreases op, 0int,
{
    match op {
        assertions::Op::And { children } => {
            lemma_lists_wait_only_for_the_unknown(children@, 0, budget - 1, builds, more);
        },
        assertions::Op::Or { children } => {
            lemma_lists_wait_only_for_the_unknown(children@, 0, budget - 1, builds, more);
        },
        assertions::Op::Not { operand } => {
            law_compilation_waits_only_for_the_unknown(*operand, budget - 1, builds, more);
        },
        assertions::Op::StatusCodeCheck { .. } => {},
        assertions::Op::HeaderCheck { key_operand, value_operand, .. } => {
            if let assertions::HeaderOperand::Glob { pattern } = key_operand {
                lemma_build_kept(builds.globs, more.globs, pattern.value@);
            }
            if let assertions::HeaderOperand::Glob { pattern } = value_operand {
                lemma_build_kept(builds.globs, more.globs, pattern.value@);
            }
        },
        assertions::Op::JsonPath { value, operand, .. } => {
            if calls_glob(value@) {
                lemma_reading_kept(builds.paths, more.paths, value@);
            }
            if let assertions::JSONPathOperand::Glob { pattern } = operand {
                lemma_build_kept(builds.globs, more.globs, pattern.value@);
            }
        },
    }
}

proof fn lemma_lists_wait_only_for_the_unknown(
    ops: Seq<assertions::Op>,
    from: int,
    budget: int,
    builds: BuildsView,
    more: BuildsView,
)
    ensures
        (compilation_of_all(ops, from, budget, builds) matches Err(halt) && waits(halt))
            || compilation_of_all(ops, from, budget, with_builds(builds, more))
            == compilation_of_all(ops, from, budget, builds),
        compilation_of_all(ops, from, budget, builds) matches Err(halt) ==> waits(halt)
            ==> is_unknown(halt, builds),
    decreases ops, ops.len() - from,
{
    if 0 <= from < ops.len() {
        law_compilation_waits_only_for_the_unknown(ops[from], budget, builds, more);
        if let Ok(left) = compilation(ops[from], budget, builds) {
            lemma_lists_wait_only_for_the_unknown(ops, from + 1, left, builds, more);
        }
    }
}

/// Two operations that say the same compile alike.
pub proof fn law_same_assertions_compile_alike(
    a: assertions::Op,
    b: assertions::Op,
    limit: int,
    builds: BuildsView,
)
    requires
        same_op(a, b),
    ensures
        compilation(a, limit, builds) == compilation(b, limit, builds),
    decreases a, 0int,
{
    match (a, b) {
        (assertions::Op::And { children: x }, assertions::Op::And { children: y }) => {
            lemma_same_lists_compile_alike(x@, y@, 0, limit - 1, builds);
        },
        (assertions::Op::Or { children: x }, assertions::Op::Or { children: y }) => {
            lemma_same_lists_compile_alike(x@, y@, 0, limit - 1, builds);
        },
        (assertions::Op::Not { operand: x }, assertions::Op::Not { operand: y }) => {
            law_same_assertions_compile_alike(*x, *y, limit - 1, builds);
        },
        _ => {},
    }
}

proof fn lemma_same_lists_compile_alike(
    a: Seq<assertions::Op>,
    b: Seq<assertions::Op>,
    from: int,
    limit: int,
    builds: BuildsView,
)
    requires
        a.len() == b.len(),
        same_ops(a, b, from),
    ensures
        compilation_of_all(a, from, limit, builds) == compilation_of_all(b, from, limit, builds),
    decreases a, a.len() - from,
{
    if 0 <= from < a.len() {
        law_same_assertions_compile_alike(a[from], b[from], limit, builds);
        if let Ok(left) = compilation(a[from], limit, builds) {
            lemma_same_lists_compile_alike(a, b, from + 1, left, builds);
        }
    }
}

/// What compiles within a limit compiles within a larger one, and what was added is left
/// over.
pub proof fn law_larger_limit_keeps_a_compilation(
    op: assertions::Op,
    limit: int,
    extra: int,
    builds: BuildsView,
)
    requires
        0 <= extra,
        compilation(op, limit, builds) is Ok,
    ensures
        compilation(op, limit + extra, builds) == Ok::<int, CompileHaltView>(
            compilation(op, limit, builds)->Ok_0 + extra,
        ),
    decreases op, 0int,
{
    match op {
        assertions::Op::And { children } => {
            lemma_larger_limit_for_all(children@, 0, limit - 1, extra, builds);
        },
        assertions::Op::Or { children } => {
            lemma_larger_limit_for_all(children@, 0, limit - 1, extra, builds);
        },
        assertions::Op::Not { operand } => {
            law_larger_limit_keeps_a_compilation(*operand, limit - 1, extra, builds);
        },
        _ => {},
    }
}

proof fn lemma_larger_limit_for_all(
    ops: Seq<assertions::Op>,
    from: int,
    limit: int,
    extra: int,
    builds: BuildsView,
)
    requires
        0 <= extra,
        compilation_of_all(ops, from, limit, builds) is Ok,
    ensures
        compilation_of_all(ops, from, limit + extra, builds) == Ok::<int, CompileHaltView>(
            compilation_of_all(ops, from, limit, builds)->Ok_0 + extra,
        ),
    decreases ops, ops.len() - from,
{
    if 0 <= from < ops.len() {
        law_larger_limit_keeps_a_compilation(ops[from], limit, extra, builds);
        let left = compilation(ops[from], limit, builds)->Ok_0;
        lemma_larger_limit_for_all(ops, from + 1, left, extra, builds);
    }
}

/// A member of a list compiles within what the list compiles within.
proof fn lemma_member_compiles(
    ops: Seq<assertions::Op>,
    from: int,
    index: int,
    limit: int,
    builds: BuildsView,
)
    requires
        0 <= limit,
        0 <= from <= index < ops.len(),
        compilation_of_all(ops, from, limit, builds) is Ok,
    ensures
        compilation(ops[index], limit, builds) is Ok,
    decreases index - from,
{
    if from < index {
        law_operations_are_limited(ops[from], limit, builds);
        let left = compilation(ops[from], limit, builds)->Ok_0;
        lemma_member_compiles(ops, from + 1, index, left, builds);
        law_larger_limit_keeps_a_compilation(ops[index], left, limit - left, builds);
    }
}

/// A list of one compiles where its member does.
proof fn lemma_only_member_compiles(
    ops: Seq<assertions::Op>,
    limit: int,
    builds: BuildsView,
)
    requires
        ops.len() == 1,
        compilation(ops[0], limit, builds) is Ok,
    ensures
        compilation_of_all(ops, 0, limit, builds) is Ok,
{
    let left = compilation(ops[0], limit, builds)->Ok_0;
    assert(compilation_of_all(ops, 1, left, builds) == Ok::<int, CompileHaltView>(left));
}

/// The part of an assertion that decided its result compiles within the same limit as
/// the assertion.
pub proof fn law_reason_alone_compiles(
    op: assertions::Op,
    path: EvalPath,
    part: assertions::Op,
    limit: int,
    builds: BuildsView,
)
    requires
        compilation(op, limit, builds) is Ok,
        path_fits(path, op),
        pruned(path, op, part),
    ensures
        compilation(part, limit, builds) is Ok,
    decreases path,
{
    match path {
        EvalPath::Leaf => law_same_assertions_compile_alike(op, part, limit, builds),
        EvalPath::AllChildren => law_same_assertions_compile_alike(op, part, limit, builds),
        EvalPath::ChildIndex { index, child } => match (op, part) {
            (assertions::Op::And { children }, assertions::Op::And { children: one }) => {
                lemma_member_compiles(children@, 0, index as int, limit - 1, builds);
                law_reason_alone_compiles(
                    children@[index as int],
                    *child,
                    one@[0],
                    limit - 1,
                    builds,
                );
                lemma_only_member_compiles(one@, limit - 1, builds);
            },
            (assertions::Op::Or { children }, assertions::Op::Or { children: one }) => {
                lemma_member_compiles(children@, 0, index as int, limit - 1, builds);
                law_reason_alone_compiles(
                    children@[index as int],
                    *child,
                    one@[0],
                    limit - 1,
                    builds,
                );
                lemma_only_member_compiles(one@, limit - 1, builds);
            },
            (assertions::Op::Not { operand }, assertions::Op::Not { operand: rest }) => {
                law_reason_alone_compiles(*operand, *child, *rest, limit - 1, builds);
            },
            _ => {},
        },
    }
}

} // verus!
