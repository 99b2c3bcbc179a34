//! What comparing headers, status codes and the results of queries comes to.

use crate::assertions;
use crate::assertions::compiled::{
    answer_to, ascii_text, comparison_of, compiles_to, evaluation, evaluation_of_all,
    header_operand_compiles_to, header_outcome, headers_outcome, is_visible, json_operand_compiles_to, node_outcome,
    nodes_outcome, results_outcome, Comparison, EvalPath, Evaluation, GlobAnswer, HaltView, Header,
    HeaderOperand, JSONPathOperand, JsonNodeView, Op, Outcome, Response, RuntimeErrorView,
};
use crate::assertions::laws::{
    comes_to, law_extra_gas_is_left_over, law_gas_only_falls, law_header_outcomes_are_settled,
    law_node_outcomes_are_settled,
};
use crate::number::{is_nan, law_patterns_compare_by_value, number_in, value_of};
use crate::text::{comes_before, i64_fault, i64_in, law_texts_are_ordered_by_bytes};
use vstd::prelude::*;
use vstd::utf8::encode_utf8;

verus! {

/// A comparison asks whether one value is below another, equal to it or above it, and
/// none of these is asked by the two that are always and never met.
pub open spec fn met(op: assertions::Comparison, below: bool, equal: bool, above: bool) -> bool {
    match op {
        assertions::Comparison::LessThan => below,
        assertions::Comparison::Equals => equal,
        assertions::Comparison::GreaterThan => above,
        assertions::Comparison::NotEqual => !equal,
        assertions::Comparison::Always => true,
        assertions::Comparison::Never => false,
    }
}

/// A comparison looks at the values.
pub open spec fn looks(op: assertions::Comparison) -> bool {
    !(op is Always) && !(op is Never)
}

/// A value, and what is left of a budget.
pub open spec fn decided(value: bool, left: int) -> Outcome {
    Ok((value, left))
}

/// A literal that reads as a number is compared with a header that does by the numbers,
/// at the price of one.
pub proof fn law_headers_compare_as_numbers(
    literal: String,
    operand: HeaderOperand,
    op: assertions::Comparison,
    text: Seq<char>,
    answers: Seq<GlobAnswer>,
    gas: int,
)
    requires
        header_operand_compiles_to(assertions::HeaderOperand::Literal { value: literal }, operand),
        number_in(literal@) is Ok,
        number_in(text) is Ok,
        !is_nan(number_in(literal@)->Ok_0),
        !is_nan(number_in(text)->Ok_0),
        looks(op),
        1 <= gas,
    ensures
        ({
            let wanted = value_of(number_in(literal@)->Ok_0);
            let found = value_of(number_in(text)->Ok_0);
            header_outcome(operand, comparison_of(op), text, answers, gas) == decided(
                met(op, found < wanted, found == wanted, found > wanted),
                gas - 1,
            )
        }),
{
    law_patterns_compare_by_value(number_in(text)->Ok_0, number_in(literal@)->Ok_0);
    law_patterns_compare_by_value(number_in(literal@)->Ok_0, number_in(text)->Ok_0);
}

/// What is no number is neither below, equal to nor above anything.
pub proof fn law_no_number_compares_with_headers(
    literal: String,
    operand: HeaderOperand,
    op: assertions::Comparison,
    text: Seq<char>,
    answers: Seq<GlobAnswer>,
    gas: int,
)
    requires
        header_operand_compiles_to(assertions::HeaderOperand::Literal { value: literal }, operand),
        number_in(literal@) is Ok,
        number_in(text) is Ok,
        is_nan(number_in(literal@)->Ok_0) || is_nan(number_in(text)->Ok_0),
        looks(op),
        1 <= gas,
    ensures
        header_outcome(operand, comparison_of(op), text, answers, gas) == decided(
            op is NotEqual,
            gas - 1,
        ),
{
}

/// A literal that reads only as an integer is compared with a header that does by the
/// integers, at the price of one.
pub proof fn law_headers_compare_as_integers(
    literal: String,
    operand: HeaderOperand,
    op: assertions::Comparison,
    text: Seq<char>,
    answers: Seq<GlobAnswer>,
    gas: int,
)
    requires
        header_operand_compiles_to(assertions::HeaderOperand::Literal { value: literal }, operand),
        number_in(literal@) is Err,
        i64_in(literal@) is Some,
        i64_in(text) is Some,
        looks(op),
        1 <= gas,
    ensures
        ({
            let wanted = i64_in(literal@)->0;
            let found = i64_in(text)->0;
            header_outcome(operand, comparison_of(op), text, answers, gas) == decided(
                met(op, found < wanted, found == wanted, found > wanted),
                gas - 1,
            )
        }),
{
}

/// Any other literal is compared with a header by the order of texts, at the price of
/// one.
pub proof fn law_headers_compare_as_texts(
    literal: String,
    operand: HeaderOperand,
    op: assertions::Comparison,
    text: Seq<char>,
    answers: Seq<GlobAnswer>,
    gas: int,
)
    requires
        header_operand_compiles_to(assertions::HeaderOperand::Literal { value: literal }, operand),
        number_in(literal@) is Err,
        i64_in(literal@) is None,
        looks(op),
        1 <= gas,
    ensures
        header_outcome(operand, comparison_of(op), text, answers, gas) == decided(
            met(
                op,
                comes_before(encode_utf8(text), encode_utf8(literal@)),
                text == literal@,
                comes_before(encode_utf8(literal@), encode_utf8(text)),
            ),
            gas - 1,
        ),
{
    law_texts_are_ordered_by_bytes(text, literal@);
    law_texts_are_ordered_by_bytes(literal@, text);
}

/// A header that does not read as a literal does cannot be compared with it: that is an
/// error whatever the budget, and costs nothing.
pub proof fn law_unreadable_headers_are_errors(
    literal: String,
    operand: HeaderOperand,
    op: assertions::Comparison,
    text: Seq<char>,
    answers: Seq<GlobAnswer>,
    gas: int,
)
    requires
        header_operand_compiles_to(assertions::HeaderOperand::Literal { value: literal }, operand),
        looks(op),
    ensures
        number_in(literal@) is Ok && number_in(text) is Err ==> header_outcome(
            operand,
            comparison_of(op),
            text,
            answers,
            gas,
        ) == Err::<(bool, int), (HaltView, int)>(
            (
                HaltView::Failed(
                    RuntimeErrorView::InvalidTypeComparison { msg: number_in(text)->Err_0 },
                ),
                gas,
            ),
        ),
        number_in(literal@) is Err && i64_in(literal@) is Some && i64_in(text) is None
            ==> header_outcome(operand, comparison_of(op), text, answers, gas) == Err::<
            (bool, int),
            (HaltView, int),
        >(
            (
                HaltView::Failed(RuntimeErrorView::InvalidTypeComparison { msg: i64_fault(text) }),
                gas,
            ),
        ),
{
}

/// With nothing left nothing is compared.
pub proof fn law_comparing_headers_has_a_price(
    literal: String,
    operand: HeaderOperand,
    op: assertions::Comparison,
    text: Seq<char>,
    answers: Seq<GlobAnswer>,
)
    requires
        header_operand_compiles_to(assertions::HeaderOperand::Literal { value: literal }, operand),
        looks(op),
    ensures
        header_outcome(operand, comparison_of(op), text, answers, 0) is Err,
        number_in(literal@) is Err && i64_in(literal@) is None ==> header_outcome(
            operand,
            comparison_of(op),
            text,
            answers,
            0,
        ) == Err::<(bool, int), (HaltView, int)>(
            (HaltView::Failed(RuntimeErrorView::TookTooLong), 0),
        ),
{
}

/// The comparisons that do not look are met or not by any header, and cost nothing.
pub proof fn law_headers_that_are_not_looked_at(
    operand: HeaderOperand,
    text: Seq<char>,
    answers: Seq<GlobAnswer>,
    gas: int,
)
    ensures
        header_outcome(
            operand,
            comparison_of(assertions::Comparison::Always),
            text,
            answers,
            gas,
        ) == decided(true, gas),
        header_outcome(
            operand,
            comparison_of(assertions::Comparison::Never),
            text,
            answers,
            gas,
        ) == decided(false, gas),
{
}

/// No header is below, equal to or above nothing, and finding that costs nothing.
pub proof fn law_no_header_compares_with_nothing(
    operand: HeaderOperand,
    op: assertions::Comparison,
    text: Seq<char>,
    answers: Seq<GlobAnswer>,
    gas: int,
)
    requires
        header_operand_compiles_to(assertions::HeaderOperand::Nothing, operand),
    ensures
        header_outcome(operand, comparison_of(op), text, answers, gas) == decided(
            met(op, false, false, false),
            gas,
        ),
{
}

/// A header equals a glob that it matches, at the price of five. It is neither below nor
/// above one.
pub proof fn law_headers_match_globs(
    glob: assertions::GlobPattern,
    operand: HeaderOperand,
    text: Seq<char>,
    answers: Seq<GlobAnswer>,
    gas: int,
    matched: bool,
)
    requires
        header_operand_compiles_to(assertions::HeaderOperand::Glob { pattern: glob }, operand),
        answer_to(answers, glob.value@, text) == Some(matched),
        5 <= gas,
    ensures
        header_outcome(
            operand,
            comparison_of(assertions::Comparison::Equals),
            text,
            answers,
            gas,
        ) == decided(matched, gas - 5),
        header_outcome(
            operand,
            comparison_of(assertions::Comparison::NotEqual),
            text,
            answers,
            gas,
        ) == decided(!matched, gas - 5),
        header_outcome(
            operand,
            comparison_of(assertions::Comparison::LessThan),
            text,
            answers,
            gas,
        ) == decided(false, gas),
        header_outcome(
            operand,
            comparison_of(assertions::Comparison::GreaterThan),
            text,
            answers,
            gas,
        ) == decided(false, gas),
{
}

/// Whether a text matches a glob is told by the first answer for both, and by no other.
pub proof fn law_the_first_answer_counts(
    answers: Seq<GlobAnswer>,
    pattern: Seq<char>,
    text: Seq<char>,
    i: int,
)
    requires
        0 <= i < answers.len(),
        answers[i].pattern@ == pattern,
        answers[i].text@ == text,
        forall|j: int|
            0 <= j < i ==> (#[trigger] answers[j]).pattern@ != pattern || answers[j].text@ != text,
    ensures
        answer_to(answers, pattern, text) == Some(answers[i].matched),
    decreases i,
{
    if i > 0 {
        assert(answers[0].pattern@ != pattern || answers[0].text@ != text);
        let rest = answers.skip(1);
        assert forall|j: int| 0 <= j < i - 1 implies (#[trigger] rest[j]).pattern@ != pattern
            || rest[j].text@ != text by {
            assert(rest[j] == answers[j + 1]);
        }
        law_the_first_answer_counts(rest, pattern, text, i - 1);
    }
}

/// A literal that is found in a document as a number is compared with a written one by
/// the numbers, at the price of one.
pub proof fn law_results_compare_as_numbers(
    literal: String,
    operand: JSONPathOperand,
    op: assertions::Comparison,
    node: JsonNodeView,
    answers: Seq<GlobAnswer>,
    gas: int,
)
    requires
        json_operand_compiles_to(assertions::JSONPathOperand::Literal { value: literal }, operand),
        number_in(literal@) is Ok,
        node.number is Some,
        !is_nan(number_in(literal@)->Ok_0),
        !is_nan(node.number->0),
        looks(op),
        1 <= gas,
    ensures
        ({
            let wanted = value_of(number_in(literal@)->Ok_0);
            let found = value_of(node.number->0);
            node_outcome(operand, comparison_of(op), node, answers, gas) == decided(
                met(op, found < wanted, found == wanted, found > wanted),
                gas - 1,
            )
        }),
{
    law_patterns_compare_by_value(node.number->0, number_in(literal@)->Ok_0);
    law_patterns_compare_by_value(number_in(literal@)->Ok_0, node.number->0);
}

/// Where the two are not both numbers, but both integers, they are compared by the
/// integers.
pub proof fn law_results_compare_as_integers(
    literal: String,
    operand: JSONPathOperand,
    op: assertions::Comparison,
    node: JsonNodeView,
    answers: Seq<GlobAnswer>,
    gas: int,
)
    requires
        json_operand_compiles_to(assertions::JSONPathOperand::Literal { value: literal }, operand),
        number_in(literal@) is Err || node.number is None,
        i64_in(literal@) is Some,
        node.integer is Some,
        looks(op),
        1 <= gas,
    ensures
        ({
            let wanted = i64_in(literal@)->0;
            let found = node.integer->0 as int;
            node_outcome(operand, comparison_of(op), node, answers, gas) == decided(
                met(op, found < wanted, found == wanted, found > wanted),
                gas - 1,
            )
        }),
{
}

/// Where they are neither, a text that is found is compared by the order of texts.
pub proof fn law_results_compare_as_texts(
    literal: String,
    operand: JSONPathOperand,
    op: assertions::Comparison,
    node: JsonNodeView,
    answers: Seq<GlobAnswer>,
    gas: int,
)
    requires
        json_operand_compiles_to(assertions::JSONPathOperand::Literal { value: literal }, operand),
        number_in(literal@) is Err || node.number is None,
        i64_in(literal@) is None || node.integer is None,
        node.text is Some,
        looks(op),
        1 <= gas,
    ensures
        node_outcome(operand, comparison_of(op), node, answers, gas) == decided(
            met(
                op,
                comes_before(encode_utf8(node.text->0), encode_utf8(literal@)),
                node.text->0 == literal@,
                comes_before(encode_utf8(literal@), encode_utf8(node.text->0)),
            ),
            gas - 1,
        ),
{
    law_texts_are_ordered_by_bytes(node.text->0, literal@);
    law_texts_are_ordered_by_bytes(literal@, node.text->0);
}

/// What is neither a number, an integer nor a text beside such a literal cannot be
/// compared with it: that is an error whatever the budget, and costs nothing.
pub proof fn law_other_results_are_errors(
    literal: String,
    operand: JSONPathOperand,
    op: assertions::Comparison,
    node: JsonNodeView,
    answers: Seq<GlobAnswer>,
    gas: int,
)
    requires
        json_operand_compiles_to(assertions::JSONPathOperand::Literal { value: literal }, operand),
        number_in(literal@) is Err || node.number is None,
        i64_in(literal@) is None || node.integer is None,
        node.text is None,
        looks(op),
    ensures
        node_outcome(operand, comparison_of(op), node, answers, gas) matches Err((halt, left))
            && left == gas && halt is Failed,
{
}

/// The comparisons that do not look are met or not by any result, no result compares
/// with nothing, and all that costs nothing.
pub proof fn law_results_that_are_not_looked_at(
    operand: JSONPathOperand,
    op: assertions::Comparison,
    node: JsonNodeView,
    answers: Seq<GlobAnswer>,
    gas: int,
)
    requires
        !looks(op) || json_operand_compiles_to(assertions::JSONPathOperand::Nothing, operand),
    ensures
        node_outcome(operand, comparison_of(op), node, answers, gas) == decided(
            met(op, false, false, false),
            gas,
        ),
{
}

/// A text that is found equals a glob that it matches, at the price of five. It is
/// neither below nor above one.
pub proof fn law_results_match_globs(
    glob: assertions::GlobPattern,
    operand: JSONPathOperand,
    node: JsonNodeView,
    answers: Seq<GlobAnswer>,
    gas: int,
    matched: bool,
)
    requires
        json_operand_compiles_to(assertions::JSONPathOperand::Glob { pattern: glob }, operand),
        node.text is Some,
        answer_to(answers, glob.value@, node.text->0) == Some(matched),
        5 <= gas,
    ensures
        node_outcome(
            operand,
            comparison_of(assertions::Comparison::Equals),
            node,
            answers,
            gas,
        ) == decided(matched, gas - 5),
        node_outcome(
            operand,
            comparison_of(assertions::Comparison::NotEqual),
            node,
            answers,
            gas,
        ) == decided(!matched, gas - 5),
        node_outcome(
            operand,
            comparison_of(assertions::Comparison::LessThan),
            node,
            answers,
            gas,
        ) == decided(false, gas),
        node_outcome(
            operand,
            comparison_of(assertions::Comparison::GreaterThan),
            node,
            answers,
            gas,
        ) == decided(false, gas),
{
}

/// A status code is compared with the written one by the numbers, at the price of one,
/// and decides by itself.
pub proof fn law_status_codes_compare_as_numbers(
    value: u16,
    op: assertions::Comparison,
    compiled: Op,
    response: Response,
    gas: int,
)
    requires
        compiles_to(assertions::Op::StatusCodeCheck { value, operator: op }, compiled),
        1 <= gas,
    ensures
        evaluation(compiled, response, gas) == Ok::<(bool, EvalPath, int), (HaltView, int)>(
            (
                met(
                    op,
                    response.status_code < value,
                    response.status_code == value,
                    response.status_code > value,
                ),
                EvalPath::Leaf,
                gas - 1,
            ),
        ),
{
}

/// A negation passes where what it negates does not, for the same price, and points at
/// it.
pub proof fn law_negations_turn_results_round(
    operand: assertions::Op,
    negation: Op,
    compiled: Op,
    response: Response,
    gas: int,
)
    requires
        compiles_to(assertions::Op::Not { operand: Box::new(operand) }, negation),
        negation == (Op::Not { operand: Box::new(compiled) }),
    ensures
        match evaluation(compiled, response, gas) {
            Ok((value, path, left)) => evaluation(negation, response, gas) == Ok::<
                (bool, EvalPath, int),
                (HaltView, int),
            >((!value, EvalPath::ChildIndex { index: 0, child: Box::new(path) }, left)),
            Err(halt) => evaluation(negation, response, gas) == Err::<
                (bool, EvalPath, int),
                (HaltView, int),
            >(halt),
        },
{
}

/// A text passes an operand, given budget enough.
pub open spec fn header_passes(
    operand: HeaderOperand,
    op: Comparison,
    text: Seq<char>,
    answers: Seq<GlobAnswer>,
) -> bool {
    exists|gas: int|
        0 <= gas && (#[trigger] header_outcome(operand, op, text, answers, gas) matches Ok(
            (value, _),
        ) && value)
}

/// A header passes by its name and its value, where that is a text.
pub open spec fn passes_by_both(
    key_op: Comparison,
    key_operand: HeaderOperand,
    value_op: Comparison,
    value_operand: HeaderOperand,
    header: Header,
    answers: Seq<GlobAnswer>,
) -> bool {
    &&& header_passes(key_operand, key_op, header.name@, answers)
    &&& is_visible(header.value@)
    &&& header_passes(value_operand, value_op, ascii_text(header.value@), answers)
}

/// A header check that comes to a result passes iff there is a header that passes by its
/// name and its value.
pub proof fn law_header_checks_look_for_a_header(
    key_op: Comparison,
    key_operand: HeaderOperand,
    value_op: Comparison,
    value_operand: HeaderOperand,
    response: Response,
    gas: int,
)
    requires
        0 <= gas,
    ensures
        evaluation(
            Op::HeaderCheck { key_op, key_operand, value_op, value_operand },
            response,
            gas,
        ) matches Ok((value, path, _)) ==> path == EvalPath::Leaf && (value <==> exists|i: int|
            0 <= i < response.headers.len() && passes_by_both(
                key_op,
                key_operand,
                value_op,
                value_operand,
                #[trigger] response.headers[i],
                response.answers.globs,
            )),
{
    lemma_looks_for_a_header(
        key_op,
        key_operand,
        value_op,
        value_operand,
        response.headers,
        0,
        response.answers.globs,
        gas,
    );
}

proof fn lemma_fails(
    operand: HeaderOperand,
    op: Comparison,
    text: Seq<char>,
    answers: Seq<GlobAnswer>,
    gas: int,
)
    requires
        0 <= gas,
        header_outcome(operand, op, text, answers, gas) matches Ok((value, _)) && !value,
    ensures
        !header_passes(operand, op, text, answers),
{
    if header_passes(operand, op, text, answers) {
        let other = choose|other: int|
            0 <= other && (#[trigger] header_outcome(operand, op, text, answers, other) matches Ok(
                (value, _),
            ) && value);
        law_header_outcomes_are_settled(operand, op, text, answers, gas, other);
        law_header_outcomes_are_settled(operand, op, text, answers, other, gas);
    }
}

proof fn lemma_looks_for_a_header(
    key_op: Comparison,
    key_operand: HeaderOperand,
    value_op: Comparison,
    value_operand: HeaderOperand,
    headers: Seq<Header>,
    from: int,
    answers: Seq<GlobAnswer>,
    gas: int,
)
    requires
        0 <= gas,
        0 <= from,
    ensures
        headers_outcome(
            key_op,
            key_operand,
            value_op,
            value_operand,
            headers,
            from,
            answers,
            gas,
        ) matches Ok((value, _)) ==> (value <==> exists|i: int|
            from <= i < headers.len() && passes_by_both(
                key_op,
                key_operand,
                value_op,
                value_operand,
                #[trigger] headers[i],
                answers,
            )),
    decreases headers.len() - from,
{
    if from < headers.len() {
        let header = headers[from];
        let name = header.name@;
        let text = ascii_text(header.value@);
        law_header_outcomes_are_settled(key_operand, key_op, name, answers, gas, gas);
        if let Ok((key_passed, left)) = header_outcome(key_operand, key_op, name, answers, gas) {
            if !key_passed {
                lemma_fails(key_operand, key_op, name, answers, gas);
                lemma_looks_for_a_header(
                    key_op,
                    key_operand,
                    value_op,
                    value_operand,
                    headers,
                    from + 1,
                    answers,
                    left,
                );
            } else {
                assert(header_passes(key_operand, key_op, name, answers));
                if !is_visible(header.value@) {
                    lemma_looks_for_a_header(
                        key_op,
                        key_operand,
                        value_op,
                        value_operand,
                        headers,
                        from + 1,
                        answers,
                        left,
                    );
                } else {
                    law_header_outcomes_are_settled(
                        value_operand,
                        value_op,
                        text,
                        answers,
                        left,
                        left,
                    );
                    if let Ok((value_passed, rest)) = header_outcome(
                        value_operand,
                        value_op,
                        text,
                        answers,
                        left,
                    ) {
                        if value_passed {
                            assert(header_passes(value_operand, value_op, text, answers));
                            assert(passes_by_both(
                                key_op,
                                key_operand,
                                value_op,
                                value_operand,
                                headers[from],
                                answers,
                            ));
                        } else {
                            lemma_fails(value_operand, value_op, text, answers, left);
                            lemma_looks_for_a_header(
                                key_op,
                                key_operand,
                                value_op,
                                value_operand,
                                headers,
                                from + 1,
                                answers,
                                rest,
                            );
                        }
                    }
                }
            }
        }
    }
}

/// A result passes an operand, given budget enough.
pub open spec fn node_passes(
    operand: JSONPathOperand,
    op: Comparison,
    node: JsonNodeView,
    answers: Seq<GlobAnswer>,
) -> bool {
    exists|gas: int|
        0 <= gas && (#[trigger] node_outcome(operand, op, node, answers, gas) matches Ok((value, _))
            && value)
}

/// What a query finds passes iff it finds something, and all of it passes.
pub proof fn law_all_results_have_to_pass(
    operand: JSONPathOperand,
    op: Comparison,
    nodes: Seq<JsonNodeView>,
    answers: Seq<GlobAnswer>,
    gas: int,
)
    requires
        0 <= gas,
    ensures
        results_outcome(operand, op, nodes, answers, gas) matches Ok((value, _)) ==> (value
            <==> nodes.len() > 0 && forall|i: int|
            0 <= i < nodes.len() ==> node_passes(operand, op, #[trigger] nodes[i], answers)),
{
    lemma_all_pass(operand, op, nodes, 0, answers, gas);
}

proof fn lemma_all_pass(
    operand: JSONPathOperand,
    op: Comparison,
    nodes: Seq<JsonNodeView>,
    from: int,
    answers: Seq<GlobAnswer>,
    gas: int,
)
    requires
        0 <= gas,
        0 <= from,
    ensures
        nodes_outcome(operand, op, nodes, from, answers, gas) matches Ok((value, _)) ==> (value
            <==> forall|i: int|
            from <= i < nodes.len() ==> node_passes(operand, op, #[trigger] nodes[i], answers)),
    decreases nodes.len() - from,
{
    if from < nodes.len() {
        let node = nodes[from];
        law_node_outcomes_are_settled(operand, op, node, answers, gas, gas);
        if let Ok((passed, left)) = node_outcome(operand, op, node, answers, gas) {
            if passed {
                assert(node_passes(operand, op, nodes[from], answers));
                lemma_all_pass(operand, op, nodes, from + 1, answers, left);
            } else {
                if node_passes(operand, op, node, answers) {
                    let other = choose|other: int|
                        0 <= other && (#[trigger] node_outcome(operand, op, node, answers, other)
                            matches Ok((value, _)) && value);
                    law_node_outcomes_are_settled(operand, op, node, answers, gas, other);
                    law_node_outcomes_are_settled(operand, op, node, answers, other, gas);
                }
                assert(!node_passes(operand, op, nodes[from], answers));
            }
        }
    }
}

/// No operation comes to both results.
proof fn lemma_one_result(op: Op, response: Response)
    ensures
        !(comes_to(op, response, true) && comes_to(op, response, false)),
{
    if comes_to(op, response, true) && comes_to(op, response, false) {
        let a = choose|gas: int|
            0 <= gas && (#[trigger] evaluation(op, response, gas) matches Ok((v, _, _)) && v
                == true);
        let b = choose|gas: int|
            0 <= gas && (#[trigger] evaluation(op, response, gas) matches Ok((v, _, _)) && v
                == false);
        if a <= b {
            law_extra_gas_is_left_over(op, response, a, b - a);
        } else {
            law_extra_gas_is_left_over(op, response, b, a - b);
        }
    }
}

/// A conjunction that comes to a result passes iff each of its operations does. One that
/// fails points at the first that fails.
pub proof fn law_conjunctions_need_all(
    written: Vec<assertions::Op>,
    compiled: Op,
    children: Vec<Op>,
    response: Response,
    gas: int,
)
    requires
        0 <= gas,
        compiles_to(assertions::Op::And { children: written }, compiled),
        compiled == (Op::And { children }),
    ensures
        children@.len() == written@.len(),
        evaluation(compiled, response, gas) matches Ok((value, path, _)) ==> {
            &&& value <==> forall|i: int|
                0 <= i < children@.len() ==> comes_to(#[trigger] children@[i], response, true)
            &&& value ==> path == EvalPath::AllChildren
            &&& !value ==> (path matches EvalPath::ChildIndex { index, .. } && index
                < children@.len() && comes_to(children@[index as int], response, false)
                && forall|j: int|
                0 <= j < index ==> comes_to(#[trigger] children@[j], response, true))
        },
{
    assert(children@.len() == children.len());
    lemma_first_decides(children@, true, 0, response, gas);
    assert forall|i: int| 0 <= i < children@.len() implies !(comes_to(
        #[trigger] children@[i],
        response,
        true,
    ) && comes_to(children@[i], response, false)) by {
        lemma_one_result(children@[i], response);
    }
}

/// A disjunction that comes to a result passes iff one of its operations does, and points
/// at the first that does.
pub proof fn law_disjunctions_need_one(
    written: Vec<assertions::Op>,
    compiled: Op,
    children: Vec<Op>,
    response: Response,
    gas: int,
)
    requires
        0 <= gas,
        compiles_to(assertions::Op::Or { children: written }, compiled),
        compiled == (Op::Or { children }),
    ensures
        children@.len() == written@.len(),
        evaluation(compiled, response, gas) matches Ok((value, path, _)) ==> {
            &&& !value <==> forall|i: int|
                0 <= i < children@.len() ==> comes_to(#[trigger] children@[i], response, false)
            &&& !value ==> path == EvalPath::AllChildren
            &&& value ==> (path matches EvalPath::ChildIndex { index, .. } && index
                < children@.len() && comes_to(children@[index as int], response, true)
                && forall|j: int|
                0 <= j < index ==> comes_to(#[trigger] children@[j], response, false))
        },
{
    assert(children@.len() == children.len());
    lemma_first_decides(children@, false, 0, response, gas);
    assert forall|i: int| 0 <= i < children@.len() implies !(comes_to(
        #[trigger] children@[i],
        response,
        true,
    ) && comes_to(children@[i], response, false)) by {
        lemma_one_result(children@[i], response);
    }
}

proof fn lemma_first_decides(
    children: Seq<Op>,
    passing: bool,
    from: int,
    response: Response,
    gas: int,
)
    requires
        0 <= gas,
        0 <= from,
        children.len() <= usize::MAX,
    ensures
        evaluation_of_all(children, passing, from, response, gas) matches Ok((value, path, _)) ==> {
            &&& value == passing ==> path == EvalPath::AllChildren && forall|i: int|
                from <= i < children.len() ==> comes_to(#[trigger] children[i], response, passing)
            &&& value != passing ==> (path matches EvalPath::ChildIndex { index, .. } && from
                <= index < children.len() && comes_to(children[index as int], response, !passing)
                && forall|j: int|
                from <= j < index ==> comes_to(#[trigger] children[j], response, passing))
        },
    decreases children.len() - from,
{
    if from < children.len() {
        law_gas_only_falls(children[from], response, gas);
        if let Ok((value, _, left)) = evaluation(children[from], response, gas) {
            assert(comes_to(children[from], response, value));
            if value == passing {
                lemma_first_decides(children, passing, from + 1, response, left);
            }
        }
    }
}

/// What stands behind the operation that decided is not looked at: whatever stands there,
/// the result, the reason and the price are the same.
pub proof fn law_nothing_behind_the_decision_counts(
    children: Seq<Op>,
    others: Seq<Op>,
    passing: bool,
    from: int,
    response: Response,
    gas: int,
)
    requires
        0 <= from,
        others.len() <= usize::MAX,
        children.len() <= usize::MAX,
        evaluation_of_all(children, passing, from, response, gas) matches Ok((_, path, _)) && (
        path matches EvalPath::ChildIndex { index, .. } && index < others.len() && forall|j: int|
            from <= j <= index ==> #[trigger] others[j] == children[j]),
    ensures
        evaluation_of_all(others, passing, from, response, gas) == evaluation_of_all(
            children,
            passing,
            from,
            response,
            gas,
        ),
    decreases children.len() - from,
{
    if from < children.len() {
        lemma_index_from(children, passing, from, response, gas);
        assert(others[from] == children[from]);
        if let Ok((value, _, left)) = evaluation(children[from], response, gas) {
            if value == passing {
                lemma_index_from(children, passing, from + 1, response, left);
                law_nothing_behind_the_decision_counts(
                    children,
                    others,
                    passing,
                    from + 1,
                    response,
                    left,
                );
            }
        }
    }
}

proof fn lemma_index_from(
    children: Seq<Op>,
    passing: bool,
    from: int,
    response: Response,
    gas: int,
)
    requires
        0 <= from,
        children.len() <= usize::MAX,
    ensures
        evaluation_of_all(children, passing, from, response, gas) matches Ok((_, path, _)) ==> (
        path matches EvalPath::ChildIndex { index, .. } ==> from <= index < children.len()),
    decreases children.len() - from,
{
    if from < children.len() {
        if let Ok((value, _, left)) = evaluation(children[from], response, gas) {
            if value == passing {
                lemma_index_from(children, passing, from + 1, response, left);
            }
        }
    }
}

} // verus!
