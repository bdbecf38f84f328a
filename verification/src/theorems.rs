//! What holds of the evaluation engine whatever the tokens and the stack
//! are: of the loops, of skipped branches, and of word definitions.

use vstd::prelude::*;
use crate::builtins::computation::spec_loop_i;
use crate::builtins::computation::spec_loop_j;
use crate::eval::{spec_handle_token_execution, spec_handle_word_definition, spec_route_token};
use crate::loops::{
    spec_collect_loop_token, spec_start_each, spec_execute_begin_until, spec_execute_begin_while,
    spec_execute_do_loop, spec_execute_do_plus_loop, spec_pass_do_loop, spec_pass_do_plus_loop,
};
use crate::machine::{spec_run, spec_step, unscheduled, TaskModel, STEP_BUDGET};
use crate::text::parse_int;
use crate::types::{
    pending_name, LoopInfo, LoopType, Outcome, StateModel, ValueModel, WordModel,
};

verus! {

/// What the machine does with the outcome of routing a token: an error
/// gives up all pending work, otherwise it runs on with what is left of
/// the budget.
pub open spec fn run_on(routed: (StateModel, Outcome), budget: nat) -> (StateModel, Outcome) {
    if routed.1 is Err {
        (routed.0.abort(), routed.1)
    } else {
        spec_run(routed.0, budget)
    }
}

/// Closing `begin … until` has the body replayed from its first token
/// with the loop's frame entered, and leaves the stack as it is: no value
/// on it is taken for a condition before the body has run.
pub proof fn begin_until_starts_with_its_body(s: StateModel, body: Seq<Seq<char>>)
    requires
        s.collecting_loop == Some((LoopType::BeginUntil, body, 0usize)),
    ensures
        spec_collect_loop_token(s, "until"@) == (
            StateModel { collecting_loop: None, ..s }.enter(LoopInfo::BeginUntilLoop).schedule(
                TaskModel::Until { body, pos: 0 },
            ),
            Ok::<(), Seq<char>>(()),
        ),
        spec_collect_loop_token(s, "until"@).0.stack == s.stack,
{
    reveal_strlit("until");
    reveal_strlit("begin");
    reveal_strlit("do");
    assert("until"@ != "begin"@) by {
        assert("until"@[0] != "begin"@[0]);
    }
    assert("until"@ != "do"@) by {
        assert("until"@.len() != "do"@.len());
    }
}

/// `begin … until` with a body that is not empty begins by routing the
/// first token of the body, whatever the stack holds.
pub proof fn begin_until_runs_its_body_first(s: StateModel, body: Seq<Seq<char>>)
    requires
        s.idle(),
        body.len() > 0,
    ensures
        spec_execute_begin_until(s, body) == run_on(
            spec_route_token(
                s.enter(LoopInfo::BeginUntilLoop).schedule(TaskModel::Until { body, pos: 1 }),
                body[0],
                false,
            ),
            (STEP_BUDGET - 1) as nat,
        ),
{
    let started = s.enter(LoopInfo::BeginUntilLoop).schedule(TaskModel::Until { body, pos: 0 });
    assert(started.tasks.last() == TaskModel::Until { body, pos: 0 });
    assert(unscheduled(started).tasks =~= s.tasks);
    assert(unscheduled(started) == s.enter(LoopInfo::BeginUntilLoop));
    reveal_with_fuel(spec_run, 2);
}

/// What a step makes of the outcome of routing a token: an error gives up
/// all pending work, anything else stands as it is.
pub open spec fn or_give_up(routed: (StateModel, Outcome)) -> (StateModel, Outcome) {
    if routed.1 is Err {
        (routed.0.abort(), routed.1)
    } else {
        routed
    }
}

/// While tokens of the body of `begin … until` are left, a step routes
/// the next one; the condition is not looked at.
pub proof fn begin_until_body_comes_before_the_test(s: StateModel, body: Seq<Seq<char>>, pos: usize)
    requires
        s.tasks.len() > 0,
        s.tasks.last() == (TaskModel::Until { body, pos }),
        pos < body.len() <= usize::MAX,
    ensures
        spec_step(s) == or_give_up(
            spec_route_token(
                unscheduled(s).schedule(TaskModel::Until { body, pos: (pos + 1) as usize }),
                body[pos as int],
                false,
            ),
        ),
{
}

/// When the condition part of `begin … while … repeat` has been replayed
/// and left a zero, the loop is over: the condition and the frame are gone
/// and the body part is not replayed.
pub proof fn begin_while_false_skips_the_body(
    s: StateModel,
    before: Seq<Seq<char>>,
    after: Seq<Seq<char>>,
)
    requires
        s.tasks.len() > 0,
        s.tasks.last() == (TaskModel::While {
            before,
            after,
            in_body: false,
            pos: before.len() as usize,
        }),
        before.len() <= usize::MAX,
        s.stack.len() > 0,
        s.peek(0) == ValueModel::Int(0),
    ensures
        spec_step(s) == (unscheduled(s).drop(1).leave(), Ok::<(), Seq<char>>(())),
{
}

/// `begin … while … repeat` whose condition part is empty, on a stack with
/// zero on top: the zero is popped and nothing else happens. The body
/// part is replayed zero times.
pub proof fn begin_while_false_at_once(s: StateModel, after: Seq<Seq<char>>)
    requires
        s.idle(),
        s.stack.len() > 0,
        s.peek(0) == ValueModel::Int(0),
    ensures
        spec_execute_begin_while(s, Seq::empty(), after) == (s.drop(1), Ok::<(), Seq<char>>(())),
{
    let before = Seq::<Seq<char>>::empty();
    let started = s.enter(LoopInfo::BeginWhileLoop).schedule(
        TaskModel::While { before, after, in_body: false, pos: 0 },
    );
    assert(unscheduled(started).tasks =~= s.tasks);
    assert(unscheduled(started) == s.enter(LoopInfo::BeginWhileLoop));
    let ended = s.enter(LoopInfo::BeginWhileLoop).drop(1).leave();
    assert(ended.loop_stack =~= s.loop_stack);
    assert(ended == s.drop(1));
    reveal_with_fuel(spec_run, 3);
}

/// `do … loop` whose start is not below its limit, and so one whose start
/// equals its limit, runs no pass: nothing changes.
pub proof fn do_loop_with_empty_range_does_nothing(
    s: StateModel,
    start: i64,
    limit: i64,
    body: Seq<Seq<char>>,
)
    requires
        s.idle(),
        start >= limit,
    ensures
        spec_execute_do_loop(s, start, limit, body) == (s, Ok::<(), Seq<char>>(())),
{
    reveal_with_fuel(spec_run, 1);
}

/// Closing `do … loop` on equal start and limit takes the two from the
/// stack and runs no pass.
pub proof fn closing_do_loop_with_equal_bounds(s: StateModel, body: Seq<Seq<char>>, bound: i64)
    requires
        s.collecting_loop == Some((LoopType::DoLoop, body, 0usize)),
        s.stack.len() >= 2,
        s.peek(0) == ValueModel::Int(bound),
        s.peek(1) == ValueModel::Int(bound),
    ensures
        spec_collect_loop_token(s, "loop"@) == (
            StateModel { collecting_loop: None, ..s }.drop(2),
            Ok::<(), Seq<char>>(()),
        ),
{
    reveal_strlit("loop");
    reveal_strlit("until");
    reveal_strlit("while");
    reveal_strlit("repeat");
    reveal_strlit("+loop");
    reveal_strlit("begin");
    reveal_strlit("do");
    assert("loop"@ != "+loop"@) by {
        assert("loop"@.len() != "+loop"@.len());
    }
    assert("loop"@ != "begin"@) by {
        assert("loop"@.len() != "begin"@.len());
    }
    assert("loop"@ != "do"@) by {
        assert("loop"@.len() != "do"@.len());
    }
}

/// `do … +loop` whose start equals its limit runs no pass: nothing changes.
pub proof fn do_plus_loop_with_equal_bounds_does_nothing(
    s: StateModel,
    bound: i64,
    body: Seq<Seq<char>>,
)
    requires
        s.idle(),
    ensures
        spec_execute_do_plus_loop(s, bound, bound, body) == (s, Ok::<(), Seq<char>>(())),
{
    reveal_with_fuel(spec_run, 1);
}

/// During a pass of `do … loop`, `i` pushes the index of that pass.
pub proof fn i_is_the_index_of_the_pass(
    s: StateModel,
    start: i64,
    limit: i64,
    idx: i64,
    body: Seq<Seq<char>>,
)
    requires
        idx < limit,
    ensures
        spec_loop_i(spec_pass_do_loop(s, start, limit, idx as int, body).0) == (
            spec_pass_do_loop(s, start, limit, idx as int, body).0.push(ValueModel::Int(idx)),
            Ok::<(), Seq<char>>(()),
        ),
{
}

/// During a pass of `do … +loop`, `i` pushes the index of that pass.
pub proof fn i_is_the_index_of_the_stepped_pass(
    s: StateModel,
    start: i64,
    limit: i64,
    idx: i64,
    body: Seq<Seq<char>>,
)
    requires
        crate::loops::goes_on(start, limit, idx),
    ensures
        spec_loop_i(spec_pass_do_plus_loop(s, start, limit, idx, body).0) == (
            spec_pass_do_plus_loop(s, start, limit, idx, body).0.push(ValueModel::Int(idx)),
            Ok::<(), Seq<char>>(()),
        ),
{
}

/// With a counted loop running inside another, `i` pushes the index of
/// the inner one and `j` that of the outer one, whatever kind of counted
/// loop each is.
pub proof fn i_and_j_are_the_two_innermost_indices(s: StateModel, outer: LoopInfo, inner: LoopInfo)
    requires
        crate::builtins::computation::frame_index(outer) is Some,
        crate::builtins::computation::frame_index(inner) is Some,
    ensures
        spec_loop_i(s.enter(outer).enter(inner)) == (
            s.enter(outer).enter(inner).push(
                ValueModel::Int(crate::builtins::computation::frame_index(inner)->0),
            ),
            Ok::<(), Seq<char>>(()),
        ),
        spec_loop_j(s.enter(outer).enter(inner)) == (
            s.enter(outer).enter(inner).push(
                ValueModel::Int(crate::builtins::computation::frame_index(outer)->0),
            ),
            Ok::<(), Seq<char>>(()),
        ),
{
}

/// Outside any loop `i` and `j` fail and change nothing; so does `i`
/// where the innermost loop is not a counted one.
pub proof fn i_and_j_fail_without_a_counted_loop(s: StateModel)
    ensures
        s.loop_stack.len() == 0 ==> spec_loop_i(s) == (s, Err::<(), Seq<char>>("i: not inside a loop"@)),
        s.loop_stack.len() < 2 ==> spec_loop_j(s) == (
            s,
            Err::<(), Seq<char>>("j: not inside a nested loop"@),
        ),
        s.loop_stack.len() > 0 && crate::builtins::computation::frame_index(s.loop_stack.last())
            is None ==> spec_loop_i(s) == (
            s,
            Err::<(), Seq<char>>("i: loop index not available (not a counted loop)"@),
        ),
{
}

/// Ending a definition binds the name to the tokens collected, whatever
/// the name was bound to before, and leaves every other name as it was.
pub proof fn a_definition_replaces_the_earlier_one(s: StateModel, name: Seq<char>)
    requires
        s.defining == Some(name),
        name != pending_name(),
    ensures
        spec_handle_word_definition(s, ";"@).0.dict.contains_key(name),
        spec_handle_word_definition(s, ";"@).0.dict[name] == WordModel::Defined(s.def_body),
        forall|other: Seq<char>|
            other != name ==> spec_handle_word_definition(s, ";"@).0.dict.contains_key(other)
                == s.dict.contains_key(other) && (s.dict.contains_key(other)
                ==> spec_handle_word_definition(s, ";"@).0.dict[other] == s.dict[other]),
{
}

/// Once a name is defined, executing it has the tokens of that definition
/// replayed, and nothing of an earlier one, as long as the limit of
/// pending work is not reached. A name that reads as an integer is the
/// exception: it is pushed as a number.
pub proof fn a_defined_word_replays_its_latest_body(
    s: StateModel,
    name: Seq<char>,
    body: Seq<Seq<char>>,
)
    requires
        s.dict.contains_key(name),
        s.dict[name] == WordModel::Defined(body),
        parse_int(name) is None,
        s.tasks.len() < crate::eval::MAX_DEPTH,
    ensures
        spec_handle_token_execution(s, name, false) == (
            s.schedule(TaskModel::Replay { tokens: body, pos: 0 }),
            Ok::<(), Seq<char>>(()),
        ),
{
}

/// While a branch is skipped, a token that is not one of `if`, `else` and
/// `then`, and any quoted token, is discarded: nothing changes.
pub proof fn a_skipped_token_is_discarded(s: StateModel, token: Seq<char>, is_quoted: bool)
    requires
        s.collecting_each is None,
        s.collecting_loop is None,
        s.defining is None,
        s.control_flow is Skipping,
        is_quoted || (token != "if"@ && token != "else"@ && token != "then"@),
    ensures
        spec_route_token(s, token, is_quoted) == (s, Ok::<(), Seq<char>>(())),
{
}

/// A whole conditional inside a skipped branch is discarded: after its
/// `if` and its `then` the skipping stands where it stood, whatever the
/// stack holds and without touching it.
pub proof fn a_nested_conditional_is_skipped_whole(s: StateModel)
    requires
        s.collecting_each is None,
        s.collecting_loop is None,
        s.defining is None,
        s.control_flow is Skipping,
        s.control_flow->depth < usize::MAX,
    ensures
        spec_route_token(spec_route_token(s, "if"@, false).0, "then"@, false) == (
            s,
            Ok::<(), Seq<char>>(()),
        ),
{
    reveal_strlit("if");
    reveal_strlit("then");
    assert("if"@ != "then"@) by {
        assert("if"@.len() != "then"@.len());
    }
}

/// `each … then` over an empty text runs no pass and changes nothing.
pub proof fn each_over_an_empty_text_does_nothing(s: StateModel, body: Seq<Seq<char>>)
    ensures
        spec_start_each(s, Seq::empty(), body) == (s, Ok::<(), Seq<char>>(())),
{
}

/// The state after exactly `k` steps, if each of them is there to be
/// taken and none of them fails: none if the work runs out, the host is
/// asked for something, or a step fails before that.
pub open spec fn after_steps(s: StateModel, k: nat) -> Option<StateModel>
    decreases k,
{
    if k == 0 {
        Some(s)
    } else if s.tasks.len() == 0 || s.request is Some || spec_step(s).1 is Err {
        None
    } else {
        after_steps(spec_step(s).0, (k - 1) as nat)
    }
}

/// A run goes through every state that its steps lead to: from a state
/// that is reached after `k` steps, the run goes on with what is left of
/// the budget.
pub proof fn a_run_goes_through_every_step(s: StateModel, k: nat, budget: nat)
    requires
        after_steps(s, k) is Some,
        k <= budget,
    ensures
        spec_run(s, budget) == spec_run(after_steps(s, k)->0, (budget - k) as nat),
    decreases k,
{
    if k > 0 {
        a_run_goes_through_every_step(spec_step(s).0, (k - 1) as nat, (budget - 1) as nat);
    }
}

/// Whenever a run comes to the end of the condition part of `begin …
/// while … repeat` with a zero on top of the stack, it goes on without the
/// loop: the body part is replayed zero times.
pub proof fn a_false_condition_ends_begin_while(
    s: StateModel,
    k: nat,
    budget: nat,
    before: Seq<Seq<char>>,
    after: Seq<Seq<char>>,
)
    requires
        after_steps(s, k) is Some,
        k < budget,
        before.len() <= usize::MAX,
        ({
            let t = after_steps(s, k)->0;
            &&& t.request is None
            &&& t.tasks.len() > 0
            &&& t.tasks.last() == (TaskModel::While {
                before,
                after,
                in_body: false,
                pos: before.len() as usize,
            })
            &&& t.stack.len() > 0
            &&& t.peek(0) == ValueModel::Int(0)
        }),
    ensures
        spec_run(s, budget) == spec_run(
            unscheduled(after_steps(s, k)->0).drop(1).leave(),
            (budget - k - 1) as nat,
        ),
{
    let t = after_steps(s, k)->0;
    a_run_goes_through_every_step(s, k, budget);
    begin_while_false_skips_the_body(t, before, after);
    reveal_with_fuel(spec_run, 2);
}

/// Whenever a run comes to the end of a pass of `begin … until`, the pass
/// has been made: only then is a value taken from the stack as the
/// condition, and any integer but zero ends the loop.
pub proof fn a_true_condition_ends_begin_until(
    s: StateModel,
    k: nat,
    budget: nat,
    body: Seq<Seq<char>>,
    condition: i64,
)
    requires
        after_steps(s, k) is Some,
        k < budget,
        body.len() <= usize::MAX,
        condition != 0,
        ({
            let t = after_steps(s, k)->0;
            &&& t.request is None
            &&& t.tasks.len() > 0
            &&& t.tasks.last() == (TaskModel::Until { body, pos: body.len() as usize })
            &&& t.stack.len() > 0
            &&& t.peek(0) == ValueModel::Int(condition)
        }),
    ensures
        spec_run(s, budget) == spec_run(
            unscheduled(after_steps(s, k)->0).leave().drop(1),
            (budget - k - 1) as nat,
        ),
{
    let t = after_steps(s, k)->0;
    a_run_goes_through_every_step(s, k, budget);
    reveal_with_fuel(spec_run, 2);
}

/// A loop inside a loop body is collected whole: the keyword that opens
/// it and the keyword that closes it are kept with what stands between
/// them, whatever kind of loop either belongs to, and then the depth is
/// what it was.
pub proof fn a_nested_loop_is_collected_whole(
    s: StateModel,
    kind: LoopType,
    body: Seq<Seq<char>>,
    depth: usize,
    opener: Seq<char>,
    closer: Seq<char>,
)
    requires
        s.collecting_loop == Some((kind, body, depth)),
        depth < usize::MAX,
        opener == "begin"@ || opener == "do"@,
        crate::loops::closes_a_loop(closer),
    ensures
        spec_collect_loop_token(spec_collect_loop_token(s, opener).0, closer) == (
            StateModel {
                collecting_loop: Some((kind, body.push(opener).push(closer), depth)),
                ..s
            },
            Ok::<(), Seq<char>>(()),
        ),
{
    reveal_strlit("loop");
    reveal_strlit("until");
    reveal_strlit("repeat");
    reveal_strlit("+loop");
    reveal_strlit("begin");
    reveal_strlit("do");
    assert(closer != "begin"@ && closer != "do"@) by {
        assert(closer.len() != 2);
        assert(closer[0] != 'b');
    }
}

} // verus!
