//! What running queries on a body comes to, and reading them and the globs.

use crate::assertions;
use crate::assertions::compiled::{
    cost_of, evaluation, found_by, found_view, glob_fault, header_operand_fault, json_in,
    json_operand_fault, path_error, path_fault, path_in, results_outcome, run_of,
    CompilationErrorView, CompileHaltView, EvalPath, Evaluation, GlobBuild, HaltView, Op,
    PathBuild, PathFaultView, QueryCost, QueryRun, Response, RuntimeErrorView,
};
use crate::assertions::path_text::calls_glob;
use vstd::prelude::*;

verus! {

/// An evaluation that ended with an error.
pub open spec fn failed(error: RuntimeErrorView, left: int) -> Evaluation {
    Err((HaltView::Failed(error), left))
}

/// A body that is no JSON is an error, whatever is asked of it, and costs nothing.
pub proof fn law_queries_need_a_document(op: Op, response: Response, gas: int)
    requires
        op is JsonPath,
        json_in(response.body) is Err,
    ensures
        evaluation(op, response, gas) == failed(
            RuntimeErrorView::InvalidBodyJson { body: json_in(response.body)->Err_0 },
            gas,
        ),
{
}

/// A query is paid for before it runs: one that costs more than there is is an error, and
/// then nothing is spent.
pub proof fn law_queries_are_paid_for_first(op: Op, response: Response, gas: int)
    requires
        op is JsonPath,
        json_in(response.body) is Ok,
        cost_of(response.answers.costs, op->JsonPath_path@) is Some,
        gas < cost_of(response.answers.costs, op->JsonPath_path@)->0,
    ensures
        evaluation(op, response, gas) == failed(RuntimeErrorView::TookTooLong, gas),
{
}

/// What a query that calls no glob finds in the document decides, with what its price has
/// left.
pub proof fn law_plain_queries_are_decided_by_what_they_find(
    op: Op,
    response: Response,
    gas: int,
)
    requires
        op is JsonPath,
        op->JsonPath_query is Plain,
        json_in(response.body) is Ok,
        cost_of(response.answers.costs, op->JsonPath_path@) is Some,
        cost_of(response.answers.costs, op->JsonPath_path@)->0 <= gas,
    ensures
        ({
            let left = gas - cost_of(response.answers.costs, op->JsonPath_path@)->0;
            let document = json_in(response.body)->Ok_0;
            match found_by(op->JsonPath_query->query, document) {
                Err(e) => evaluation(op, response, gas) == failed(
                    RuntimeErrorView::InvalidJsonPath { msg: e },
                    left,
                ),
                Ok(nodes) => {
                    let outcome = results_outcome(
                        op->JsonPath_operand,
                        op->JsonPath_operator,
                        nodes,
                        response.answers.globs,
                        left,
                    );
                    &&& outcome matches Ok((value, rest)) ==> evaluation(op, response, gas) == Ok::<
                        (bool, EvalPath, int),
                        (HaltView, int),
                    >((value, EvalPath::Leaf, rest))
                    &&& outcome matches Err(halt) ==> evaluation(op, response, gas) == Err::<
                        (bool, EvalPath, int),
                        (HaltView, int),
                    >(halt)
                },
            }
        }),
{
}

/// Of the costs that are known, the first one of a query counts.
pub proof fn law_the_first_cost_counts(costs: Seq<QueryCost>, path: Seq<char>, i: int)
    requires
        0 <= i < costs.len(),
        costs[i].path@ == path,
        forall|j: int| 0 <= j < i ==> (#[trigger] costs[j]).path@ != path,
    ensures
        cost_of(costs, path) == Some(costs[i].gas),
    decreases i,
{
    if i > 0 {
        let rest = costs.skip(1);
        assert forall|j: int| 0 <= j < i - 1 implies (#[trigger] rest[j]).path@ != path by {
            assert(rest[j] == costs[j + 1]);
        }
        assert(costs[0].path@ != path);
        law_the_first_cost_counts(rest, path, i - 1);
    }
}

/// Of the runs that are known, the first one of a query counts.
pub proof fn law_the_first_run_counts(runs: Seq<QueryRun>, path: Seq<char>, i: int)
    requires
        0 <= i < runs.len(),
        runs[i].path@ == path,
        forall|j: int| 0 <= j < i ==> (#[trigger] runs[j]).path@ != path,
    ensures
        run_of(runs, path) == Some(found_view(runs[i].found)),
    decreases i,
{
    if i > 0 {
        let rest = runs.skip(1);
        assert forall|j: int| 0 <= j < i - 1 implies (#[trigger] rest[j]).path@ != path by {
            assert(rest[j] == runs[j + 1]);
        }
        assert(runs[0].path@ != path);
        law_the_first_run_counts(rest, path, i - 1);
    }
}

/// What is known of a glob decides whether it is one: the first that is known counts.
pub proof fn law_the_first_build_counts(builds: Seq<GlobBuild>, pattern: Seq<char>, i: int)
    requires
        0 <= i < builds.len(),
        builds[i].pattern@ == pattern,
        forall|j: int| 0 <= j < i ==> (#[trigger] builds[j]).pattern@ != pattern,
    ensures
        builds[i].error is None ==> glob_fault(builds, pattern) is None,
        builds[i].error matches Some(e) ==> glob_fault(builds, pattern) == Some(
            CompileHaltView::Failed(CompilationErrorView::InvalidGlob { glob: e@, msg: e@ }),
        ),
    decreases i,
{
    if i > 0 {
        let rest = builds.skip(1);
        assert forall|j: int| 0 <= j < i - 1 implies (#[trigger] rest[j]).pattern@ != pattern by {
            assert(rest[j] == builds[j + 1]);
        }
        assert(builds[0].pattern@ != pattern);
        law_the_first_build_counts(rest, pattern, i - 1);
    }
}

/// What is not known of a glob is asked for.
pub proof fn law_unknown_globs_are_asked_for(builds: Seq<GlobBuild>, pattern: Seq<char>)
    requires
        forall|j: int| 0 <= j < builds.len() ==> (#[trigger] builds[j]).pattern@ != pattern,
    ensures
        glob_fault(builds, pattern) == Some(CompileHaltView::NeedsBuild { pattern }),
    decreases builds.len(),
{
    if builds.len() > 0 {
        let rest = builds.skip(1);
        assert forall|j: int| 0 <= j < rest.len() implies (#[trigger] rest[j]).pattern@
            != pattern by {
            assert(rest[j] == builds[j + 1]);
        }
        assert(builds[0].pattern@ != pattern);
        law_unknown_globs_are_asked_for(rest, pattern);
    }
}

/// What is known of a query that calls a glob decides whether it is one: the first that is
/// known counts.
pub proof fn law_the_first_reading_counts(paths: Seq<PathBuild>, path: Seq<char>, i: int)
    requires
        calls_glob(path),
        0 <= i < paths.len(),
        paths[i].path@ == path,
        forall|j: int| 0 <= j < i ==> (#[trigger] paths[j]).path@ != path,
    ensures
        paths[i].fault is None ==> path_fault(path, paths) is None,
        paths[i].fault matches Some(fault) ==> path_fault(path, paths) == Some(
            CompileHaltView::Failed(path_error(fault@)),
        ),
    decreases i,
{
    if i > 0 {
        let rest = paths.skip(1);
        assert forall|j: int| 0 <= j < i - 1 implies (#[trigger] rest[j]).path@ != path by {
            assert(rest[j] == paths[j + 1]);
        }
        assert(paths[0].path@ != path);
        law_the_first_reading_counts(rest, path, i - 1);
    }
}

/// A query that calls no glob is read here, whatever is known of others, and a fault of it
/// keeps its words and its place.
pub proof fn law_plain_queries_are_read_here(path: Seq<char>, paths: Seq<PathBuild>)
    requires
        !calls_glob(path),
    ensures
        path_fault(path, paths) is None <==> path_in(path) is Ok,
        path_in(path) matches Err(PathFaultView::Syntax { msg, line, pos }) ==> path_fault(
            path,
            paths,
        ) == Some(
            CompileHaltView::Failed(
                CompilationErrorView::JSONPathParser { msg, path: line, pos },
            ),
        ),
        path_in(path) matches Err(PathFaultView::Other { msg }) ==> path_fault(path, paths) == Some(
            CompileHaltView::Failed(CompilationErrorView::InvalidJsonPath { msg }),
        ),
        path_in(path) matches Err(PathFaultView::Glob { glob, msg }) ==> path_fault(path, paths)
            == Some(CompileHaltView::Failed(CompilationErrorView::InvalidGlob { glob, msg })),
{
}

/// Only a glob among the operands can be at fault.
pub proof fn law_only_globs_can_be_at_fault(
    header: assertions::HeaderOperand,
    json: assertions::JSONPathOperand,
    builds: Seq<GlobBuild>,
)
    ensures
        header is Nothing || header is Literal ==> header_operand_fault(header, builds) is None,
        json is Nothing || json is Literal ==> json_operand_fault(json, builds) is None,
        header matches assertions::HeaderOperand::Glob { pattern } ==> header_operand_fault(
            header,
            builds,
        ) == glob_fault(builds, pattern.value@),
        json matches assertions::JSONPathOperand::Glob { pattern } ==> json_operand_fault(
            json,
            builds,
        ) == glob_fault(builds, pattern.value@),
{
}

} // verus!
