//! The loop engine: collecting the body of a loop token by token, and running
//! the four loop forms and `each … then` once the body is complete.
//!
//! A loop that runs is a task of the machine. The functions named `start_…`
//! put the task in place for the first pass; those named `end_…` say what
//! happens when a pass is over. The functions named `execute_…` start a loop
//! and let the machine run.

use vstd::prelude::*;
use crate::machine::{engaged, run, spec_settle, Task, TaskModel};
use crate::text::{copy_strings, lines_of, split_lines, str_eq};
use crate::types::{outcome, LoopInfo, LoopType, Outcome, State, StateModel, Value, ValueModel};

verus! {

// ========== Loop body splitting ==========

/// The place of the first `while` among the tokens, or their number if
/// there is none.
pub open spec fn first_while(tokens: Seq<Seq<char>>) -> int
    decreases tokens.len(),
{
    if tokens.len() == 0 || tokens[0] == "while"@ {
        0
    } else {
        1 + first_while(tokens.skip(1))
    }
}

proof fn lemma_first_while(tokens: Seq<Seq<char>>, k: int)
    requires
        0 <= k <= tokens.len(),
        forall|i: int| 0 <= i < k ==> tokens[i] != "while"@,
        k == tokens.len() || tokens[k] == "while"@,
    ensures
        first_while(tokens) == k,
    decreases k,
{
    if k > 0 {
        let t = tokens.skip(1);
        assert forall|i: int| 0 <= i < k - 1 implies t[i] != "while"@ by {
            assert(t[i] == tokens[i + 1]);
        }
        lemma_first_while(t, k - 1);
    }
}

/// The condition part and the body part of a `begin … while … repeat`
/// body: what stands before the first `while`, and what stands after it.
pub open spec fn spec_split_while_body(tokens: Seq<Seq<char>>) -> Result<
    (Seq<Seq<char>>, Seq<Seq<char>>),
    Seq<char>,
> {
    let k = first_while(tokens);
    if 0 <= k < tokens.len() {
        Ok((tokens.take(k), tokens.skip(k + 1)))
    } else {
        Err("repeat: no matching while"@)
    }
}

/// The model of the result of [`split_while_body`].
pub open spec fn split_outcome(r: Result<(Vec<String>, Vec<String>), String>) -> Result<
    (Seq<Seq<char>>, Seq<Seq<char>>),
    Seq<char>,
> {
    match r {
        Ok(p) => Ok((p.0.deep_view(), p.1.deep_view())),
        Err(e) => Err(e@),
    }
}

/// Split tokens at the `while` keyword, returning (before_while, after_while).
pub fn split_while_body(tokens: &[String]) -> (r: Result<(Vec<String>, Vec<String>), String>)
    ensures
        split_outcome(r) == spec_split_while_body(tokens.deep_view()),
{
    let mut k: usize = 0;
    while k < tokens.len() && !str_eq(tokens[k].as_str(), "while")
        invariant
            k <= tokens.len(),
            forall|i: int| 0 <= i < k ==> tokens.deep_view()[i] != "while"@,
        decreases tokens.len() - k,
    {
        k = k + 1;
    }
    proof {
        lemma_first_while(tokens.deep_view(), k as int);
    }
    if k == tokens.len() {
        return Err("repeat: no matching while".to_string());
    }
    let mut before: Vec<String> = Vec::new();
    let mut i: usize = 0;
    while i < k
        invariant
            i <= k < tokens.len(),
            before.len() == i,
            forall|j: int| 0 <= j < i ==> before@[j]@ == tokens@[j]@,
        decreases k - i,
    {
        before.push(tokens[i].clone());
        i = i + 1;
    }
    let mut after: Vec<String> = Vec::new();
    let mut i: usize = k + 1;
    while i < tokens.len()
        invariant
            k < i <= tokens.len(),
            after.len() == i - k - 1,
            forall|j: int| 0 <= j < after.len() ==> after@[j]@ == tokens@[k + 1 + j]@,
        decreases tokens.len() - i,
    {
        after.push(tokens[i].clone());
        i = i + 1;
    }
    assert(before.deep_view() =~= tokens.deep_view().take(k as int));
    assert(after.deep_view() =~= tokens.deep_view().skip(k + 1));
    Ok((before, after))
}

// ========== begin … until ==========

/// The first pass of `begin … until`: the loop's frame is entered and its
/// body is to be replayed from the start. The stack is not looked at.
pub open spec fn spec_start_begin_until(s: StateModel, body: Seq<Seq<char>>) -> (
    StateModel,
    Outcome,
) {
    (s.enter(LoopInfo::BeginUntilLoop).schedule(TaskModel::Until { body, pos: 0 }), Ok(()))
}

/// Starts `begin … until`.
pub fn start_begin_until(state: &mut State, body: Vec<String>) -> (r: Result<(), String>)
    ensures
        (final(state)@, outcome(r)) == spec_start_begin_until(old(state)@, body.deep_view()),
{
    state.enter(LoopInfo::BeginUntilLoop);
    state.schedule(Task::Until { body, pos: 0 });
    Ok(())
}

/// The end of a pass of `begin … until`: the frame is left and the
/// condition popped. Zero starts another pass, any other integer ends the
/// loop, anything else is an error; the popped value is gone in each case.
pub open spec fn spec_end_until(s: StateModel, body: Seq<Seq<char>>) -> (StateModel, Outcome) {
    let s1 = s.leave();
    if s1.stack.len() == 0 {
        (s1, Err("until: stack underflow (needs condition)"@))
    } else {
        match s1.peek(0) {
            ValueModel::Int(n) => if n == 0 {
                spec_start_begin_until(s1.drop(1), body)
            } else {
                (s1.drop(1), Ok(()))
            },
            _ => (s1.drop(1), Err("until: requires integer condition"@)),
        }
    }
}

/// Ends a pass of `begin … until`.
pub fn end_until(state: &mut State, body: Vec<String>) -> (r: Result<(), String>)
    ensures
        (final(state)@, outcome(r)) == spec_end_until(old(state)@, body.deep_view()),
{
    state.leave();
    match state.pop() {
        Some(Value::Int(n)) => {
            if n == 0 {
                start_begin_until(state, body)
            } else {
                Ok(())
            }
        },
        Some(_) => Err("until: requires integer condition".to_string()),
        None => Err("until: stack underflow (needs condition)".to_string()),
    }
}

// ========== begin … while … repeat ==========

/// The start of a round of `begin … while … repeat`: the frame is entered
/// and the condition part is to be replayed.
pub open spec fn spec_start_begin_while(
    s: StateModel,
    before: Seq<Seq<char>>,
    after: Seq<Seq<char>>,
) -> (StateModel, Outcome) {
    (
        s.enter(LoopInfo::BeginWhileLoop).schedule(
            TaskModel::While { before, after, in_body: false, pos: 0 },
        ),
        Ok(()),
    )
}

/// Starts a round of `begin … while … repeat`.
pub fn start_begin_while(state: &mut State, before: Vec<String>, after: Vec<String>) -> (r: Result<
    (),
    String,
>)
    ensures
        (final(state)@, outcome(r)) == spec_start_begin_while(
            old(state)@,
            before.deep_view(),
            after.deep_view(),
        ),
{
    state.enter(LoopInfo::BeginWhileLoop);
    state.schedule(Task::While { before, after, in_body: false, pos: 0 });
    Ok(())
}

/// The test of `begin … while … repeat`, made when the condition part has
/// been replayed: the condition is popped. Zero ends the loop: the frame is
/// left and the body part is not replayed. Any other integer has the body
/// part replayed. Anything else is an error, and the frame is left.
pub open spec fn spec_test_while(s: StateModel, before: Seq<Seq<char>>, after: Seq<Seq<char>>) -> (
    StateModel,
    Outcome,
) {
    if s.stack.len() == 0 {
        (s.leave(), Err("while: stack underflow (needs condition)"@))
    } else {
        match s.peek(0) {
            ValueModel::Int(n) => if n == 0 {
                (s.drop(1).leave(), Ok(()))
            } else {
                (
                    s.drop(1).schedule(TaskModel::While { before, after, in_body: true, pos: 0 }),
                    Ok(()),
                )
            },
            _ => (s.drop(1).leave(), Err("while: requires integer condition"@)),
        }
    }
}

/// Makes the test of `begin … while … repeat`.
pub fn test_while(state: &mut State, before: Vec<String>, after: Vec<String>) -> (r: Result<
    (),
    String,
>)
    ensures
        (final(state)@, outcome(r)) == spec_test_while(
            old(state)@,
            before.deep_view(),
            after.deep_view(),
        ),
{
    match state.pop() {
        Some(Value::Int(n)) => {
            if n == 0 {
                state.leave();
                Ok(())
            } else {
                state.schedule(Task::While { before, after, in_body: true, pos: 0 });
                Ok(())
            }
        },
        Some(_) => {
            state.leave();
            Err("while: requires integer condition".to_string())
        },
        None => {
            state.leave();
            Err("while: stack underflow (needs condition)".to_string())
        },
    }
}

/// The end of the body part of `begin … while … repeat`: the frame is left
/// and the next round starts.
pub open spec fn spec_end_while_body(
    s: StateModel,
    before: Seq<Seq<char>>,
    after: Seq<Seq<char>>,
) -> (StateModel, Outcome) {
    spec_start_begin_while(s.leave(), before, after)
}

/// Ends the body part of `begin … while … repeat`.
pub fn end_while_body(state: &mut State, before: Vec<String>, after: Vec<String>) -> (r: Result<
    (),
    String,
>)
    ensures
        (final(state)@, outcome(r)) == spec_end_while_body(
            old(state)@,
            before.deep_view(),
            after.deep_view(),
        ),
{
    state.leave();
    start_begin_while(state, before, after)
}

// ========== do … loop ==========

/// A pass of `do … loop` with index `idx`, if there is one: while the index
/// is below the limit, the frame with that index is entered and the body is
/// to be replayed. Otherwise nothing changes and the loop is over.
pub open spec fn spec_pass_do_loop(
    s: StateModel,
    start: i64,
    limit: i64,
    idx: int,
    body: Seq<Seq<char>>,
) -> (StateModel, Outcome) {
    if i64::MIN <= idx < limit {
        (
            s.enter(LoopInfo::DoCountedLoop { start, limit, current: idx as i64 }).schedule(
                TaskModel::Counted { start, limit, idx: idx as i64, body, pos: 0 },
            ),
            Ok(()),
        )
    } else {
        (s, Ok(()))
    }
}

/// The start of `do … loop`: the first pass has the index `start`.
pub open spec fn spec_start_do_loop(s: StateModel, start: i64, limit: i64, body: Seq<Seq<char>>) -> (
    StateModel,
    Outcome,
) {
    spec_pass_do_loop(s, start, limit, start as int, body)
}

/// Starts `do … loop`.
pub fn start_do_loop(state: &mut State, start: i64, limit: i64, body: Vec<String>) -> (r: Result<
    (),
    String,
>)
    ensures
        (final(state)@, outcome(r)) == spec_start_do_loop(
            old(state)@,
            start,
            limit,
            body.deep_view(),
        ),
{
    if start < limit {
        state.enter(LoopInfo::DoCountedLoop { start, limit, current: start });
        state.schedule(Task::Counted { start, limit, idx: start, body, pos: 0 });
    }
    Ok(())
}

/// The end of a pass of `do … loop`: the frame is left and the index goes
/// up by one.
pub open spec fn spec_end_do_loop(
    s: StateModel,
    start: i64,
    limit: i64,
    idx: i64,
    body: Seq<Seq<char>>,
) -> (StateModel, Outcome) {
    spec_pass_do_loop(s.leave(), start, limit, idx + 1, body)
}

/// Ends a pass of `do … loop`.
pub fn end_do_loop(state: &mut State, start: i64, limit: i64, idx: i64, body: Vec<String>) -> (r:
    Result<(), String>)
    ensures
        (final(state)@, outcome(r)) == spec_end_do_loop(
            old(state)@,
            start,
            limit,
            idx,
            body.deep_view(),
        ),
{
    state.leave();
    if idx < i64::MAX && idx + 1 < limit {
        let next = idx + 1;
        state.enter(LoopInfo::DoCountedLoop { start, limit, current: next });
        state.schedule(Task::Counted { start, limit, idx: next, body, pos: 0 });
    }
    Ok(())
}

// ========== do … +loop ==========

/// Whether `do … +loop` goes on with index `idx`. The direction is fixed by
/// how `start` and `limit` compare: up while the index is below the limit,
/// or down while it is above.
pub open spec fn goes_on(start: i64, limit: i64, idx: i64) -> bool {
    if start < limit {
        idx < limit
    } else {
        idx > limit
    }
}

/// A pass of `do … +loop` with index `idx`, if there is one.
pub open spec fn spec_pass_do_plus_loop(
    s: StateModel,
    start: i64,
    limit: i64,
    idx: i64,
    body: Seq<Seq<char>>,
) -> (StateModel, Outcome) {
    if goes_on(start, limit, idx) {
        (
            s.enter(LoopInfo::DoPlusCountedLoop { start, limit, current: idx }).schedule(
                TaskModel::Stepped { start, limit, idx, body, pos: 0 },
            ),
            Ok(()),
        )
    } else {
        (s, Ok(()))
    }
}

fn pass_do_plus_loop(state: &mut State, start: i64, limit: i64, idx: i64, body: Vec<String>) -> (r:
    Result<(), String>)
    ensures
        (final(state)@, outcome(r)) == spec_pass_do_plus_loop(
            old(state)@,
            start,
            limit,
            idx,
            body.deep_view(),
        ),
{
    let should_continue = if start < limit {
        idx < limit
    } else {
        idx > limit
    };
    if should_continue {
        state.enter(LoopInfo::DoPlusCountedLoop { start, limit, current: idx });
        state.schedule(Task::Stepped { start, limit, idx, body, pos: 0 });
    }
    Ok(())
}

/// The start of `do … +loop`: the first pass has the index `start`.
pub open spec fn spec_start_do_plus_loop(
    s: StateModel,
    start: i64,
    limit: i64,
    body: Seq<Seq<char>>,
) -> (StateModel, Outcome) {
    spec_pass_do_plus_loop(s, start, limit, start, body)
}

/// Starts `do … +loop`.
pub fn start_do_plus_loop(state: &mut State, start: i64, limit: i64, body: Vec<String>) -> (r:
    Result<(), String>)
    ensures
        (final(state)@, outcome(r)) == spec_start_do_plus_loop(
            old(state)@,
            start,
            limit,
            body.deep_view(),
        ),
{
    pass_do_plus_loop(state, start, limit, start, body)
}

/// The end of a pass of `do … +loop`: the frame is left and the step is
/// popped and added to the index, wrapping around. A missing step or one
/// that is no integer is an error.
pub open spec fn spec_end_do_plus_loop(
    s: StateModel,
    start: i64,
    limit: i64,
    idx: i64,
    body: Seq<Seq<char>>,
) -> (StateModel, Outcome) {
    let s1 = s.leave();
    if s1.stack.len() == 0 {
        (s1, Err("+loop: stack underflow (needs step)"@))
    } else {
        match s1.peek(0) {
            ValueModel::Int(step) => spec_pass_do_plus_loop(
                s1.drop(1),
                start,
                limit,
                idx.wrapping_add(step),
                body,
            ),
            _ => (s1.drop(1), Err("+loop: requires integer step"@)),
        }
    }
}

/// Ends a pass of `do … +loop`.
pub fn end_do_plus_loop(state: &mut State, start: i64, limit: i64, idx: i64, body: Vec<String>) -> (r:
    Result<(), String>)
    ensures
        (final(state)@, outcome(r)) == spec_end_do_plus_loop(
            old(state)@,
            start,
            limit,
            idx,
            body.deep_view(),
        ),
{
    state.leave();
    match state.pop() {
        Some(Value::Int(step)) => pass_do_plus_loop(
            state,
            start,
            limit,
            idx.wrapping_add(step),
            body,
        ),
        Some(_) => Err("+loop: requires integer step".to_string()),
        None => Err("+loop: stack underflow (needs step)".to_string()),
    }
}

// ========== each … then ==========

/// The pass of `each … then` for line number `line`, if there is one: the
/// line is pushed as a string and the body is to be replayed.
pub open spec fn spec_pass_each(
    s: StateModel,
    lines: Seq<Seq<char>>,
    line: int,
    body: Seq<Seq<char>>,
) -> (StateModel, Outcome) {
    if 0 <= line < lines.len() && line < usize::MAX {
        (
            s.push(ValueModel::Str(lines[line])).schedule(
                TaskModel::Each { lines, line: (line + 1) as usize, body, pos: 0 },
            ),
            Ok(()),
        )
    } else {
        (s, Ok(()))
    }
}

/// Starts the pass of `each … then` for a line, if there is one.
pub fn pass_each(state: &mut State, lines: Vec<String>, line: usize, body: Vec<String>) -> (r: Result<
    (),
    String,
>)
    ensures
        (final(state)@, outcome(r)) == spec_pass_each(
            old(state)@,
            lines.deep_view(),
            line as int,
            body.deep_view(),
        ),
{
    if line < lines.len() {
        state.push(Value::Str(lines[line].clone()));
        state.schedule(Task::Each { lines, line: line + 1, body, pos: 0 });
    }
    Ok(())
}

/// The start of `each … then` over the lines of `content`.
pub open spec fn spec_start_each(s: StateModel, content: Seq<char>, body: Seq<Seq<char>>) -> (
    StateModel,
    Outcome,
) {
    spec_pass_each(s, split_lines(content), 0, body)
}

/// Starts `each … then`.
pub fn start_each(state: &mut State, content: &str, body: Vec<String>) -> (r: Result<(), String>)
    ensures
        (final(state)@, outcome(r)) == spec_start_each(old(state)@, content@, body.deep_view()),
{
    pass_each(state, lines_of(content), 0, body)
}

// ========== Loop body collection ==========

/// The state with the loop collection set to `(kind, body, depth)`.
pub open spec fn collecting(s: StateModel, kind: LoopType, body: Seq<Seq<char>>, depth: int) -> (
    StateModel,
    Outcome,
) {
    (StateModel { collecting_loop: Some((kind, body, depth as usize)), ..s }, Ok(()))
}

/// A counted loop is closed: two values are popped, the limit first. Where
/// both are integers the loop starts, `plus` telling which form it is.
/// Otherwise it is an error, and what was popped is gone.
pub open spec fn spec_close_counted(s: StateModel, plus: bool, body: Seq<Seq<char>>) -> (
    StateModel,
    Outcome,
) {
    if s.stack.len() >= 2 {
        match (s.peek(0), s.peek(1)) {
            (ValueModel::Int(limit), ValueModel::Int(start)) => if plus {
                spec_start_do_plus_loop(s.drop(2), start, limit, body)
            } else {
                spec_start_do_loop(s.drop(2), start, limit, body)
            },
            _ => (s.drop(2), Err("do: stack underflow (needs start and limit)"@)),
        }
    } else {
        (s.with_stack(Seq::empty()), Err("do: stack underflow (needs start and limit)"@))
    }
}

fn close_counted(state: &mut State, plus: bool, body: Vec<String>) -> (r: Result<(), String>)
    ensures
        (final(state)@, outcome(r)) == spec_close_counted(old(state)@, plus, body.deep_view()),
{
    let first = state.pop();
    let second = state.pop();
    proof {
        if old(state)@.stack.len() >= 2 {
            assert(state@.stack =~= old(state)@.drop(2).stack);
        } else {
            assert(state@.stack =~= Seq::<ValueModel>::empty());
        }
    }
    match (first, second) {
        (Some(Value::Int(limit)), Some(Value::Int(start))) => {
            if plus {
                start_do_plus_loop(state, start, limit, body)
            } else {
                start_do_loop(state, start, limit, body)
            }
        },
        _ => Err("do: stack underflow (needs start and limit)".to_string()),
    }
}

/// True for the keywords that close a loop.
pub open spec fn closes_a_loop(token: Seq<char>) -> bool {
    token == "until"@ || token == "repeat"@ || token == "loop"@ || token == "+loop"@
}

/// What a token does while a loop body is collected. The collection holds
/// the kind of loop, the tokens so far and the nesting depth, which is the
/// number of loops that were opened inside the body and are not closed yet.
///
/// - `begin` and `do` open a loop inside the body: they are kept and the
///   depth goes up by one.
/// - At a depth above 0 a closing keyword, `until`, `repeat`, `loop` or
///   `+loop`, closes a loop inside the body: it is kept and the depth goes
///   down by one.
/// - At depth 0 `until` closes a `begin … until` and starts the loop.
/// - At depth 0 `while` turns a `begin … until` into a `begin … while …
///   repeat`; the marker is kept in the body.
/// - At depth 0 `repeat` closes a `begin … while … repeat`: the body is
///   split at its first `while` and the loop starts.
/// - At depth 0 `loop` and `+loop` close a `do` loop.
/// - Any other token is kept, also a closing keyword of another kind of
///   loop at depth 0.
pub open spec fn spec_collect_loop_token(s: StateModel, token: Seq<char>) -> (StateModel, Outcome)
    recommends
        s.collecting_loop is Some,
{
    let (kind, body, depth) = s.collecting_loop->0;
    let closed = StateModel { collecting_loop: None, ..s };
    let counted = kind == LoopType::DoLoop || kind == LoopType::DoPlusLoop;
    if token == "begin"@ || token == "do"@ {
        if depth == usize::MAX {
            (closed, Err("loop: nesting too deep"@))
        } else {
            collecting(s, kind, body.push(token), depth + 1)
        }
    } else if depth > 0 {
        collecting(
            s,
            kind,
            body.push(token),
            if closes_a_loop(token) {
                depth - 1
            } else {
                depth as int
            },
        )
    } else if token == "until"@ && kind == LoopType::BeginUntil {
        spec_start_begin_until(closed, body)
    } else if token == "while"@ && kind == LoopType::BeginUntil {
        collecting(s, LoopType::BeginWhile, body.push(token), 0)
    } else if token == "repeat"@ && kind == LoopType::BeginWhile {
        match spec_split_while_body(body) {
            Ok((before, after)) => spec_start_begin_while(closed, before, after),
            Err(e) => (closed, Err(e)),
        }
    } else if (token == "loop"@ || token == "+loop"@) && counted {
        spec_close_counted(closed, token == "+loop"@, body)
    } else {
        collecting(s, kind, body.push(token), 0)
    }
}

fn keep_collecting(state: &mut State, kind: LoopType, body: Vec<String>, token: &str, depth: usize)
    requires
        old(state).collecting_loop is None,
    ensures
        final(state)@ == (StateModel {
            collecting_loop: Some((kind, body.deep_view().push(token@), depth)),
            ..old(state)@
        }),
{
    let mut body = body;
    let ghost before = body.deep_view();
    body.push(token.to_string());
    assert(body.deep_view() =~= before.push(token@));
    state.collecting_loop = Some((kind, body, depth));
}

/// Takes one token while a loop body is collected.
pub fn collect_loop_token(state: &mut State, token: &str) -> (r: Result<(), String>)
    requires
        old(state)@.collecting_loop is Some,
    ensures
        (final(state)@, outcome(r)) == spec_collect_loop_token(old(state)@, token@),
{
    let (kind, body, depth) = state.collecting_loop.take().unwrap();
    let counted = kind == LoopType::DoLoop || kind == LoopType::DoPlusLoop;
    let is_until = str_eq(token, "until");
    let is_repeat = str_eq(token, "repeat");
    let is_loop = str_eq(token, "loop");
    let is_plus = str_eq(token, "+loop");
    if str_eq(token, "begin") || str_eq(token, "do") {
        // A loop opens inside the body
        if depth == usize::MAX {
            Err("loop: nesting too deep".to_string())
        } else {
            keep_collecting(state, kind, body, token, depth + 1);
            Ok(())
        }
    } else if depth > 0 {
        // Inside a nested loop: its closing keyword brings the depth down
        if is_until || is_repeat || is_loop || is_plus {
            keep_collecting(state, kind, body, token, depth - 1);
        } else {
            keep_collecting(state, kind, body, token, depth);
        }
        Ok(())
    } else if is_until && kind == LoopType::BeginUntil {
        // End of begin...until loop
        start_begin_until(state, body)
    } else if str_eq(token, "while") && kind == LoopType::BeginUntil {
        // This is actually begin...while...repeat, switch type
        keep_collecting(state, LoopType::BeginWhile, body, token, 0);
        Ok(())
    } else if is_repeat && kind == LoopType::BeginWhile {
        // End of begin...while...repeat
        match split_while_body(&body) {
            Ok((before, after)) => start_begin_while(state, before, after),
            Err(e) => Err(e),
        }
    } else if (is_loop || is_plus) && counted {
        // End of do...loop or do...+loop
        close_counted(state, is_plus, body)
    } else {
        // Regular token
        keep_collecting(state, kind, body, token, 0);
        Ok(())
    }
}

/// What a token does while the body of `each … then` is collected: `then`
/// closes the body and starts the iteration over the lines of the captured
/// text; any other token is kept.
pub open spec fn spec_collect_each_token(s: StateModel, token: Seq<char>) -> (StateModel, Outcome)
    recommends
        s.collecting_each is Some,
{
    let (content, body) = s.collecting_each->0;
    if token == "then"@ {
        spec_start_each(StateModel { collecting_each: None, ..s }, content, body)
    } else {
        (StateModel { collecting_each: Some((content, body.push(token))), ..s }, Ok(()))
    }
}

/// Takes one token while the body of `each … then` is collected.
pub fn collect_each_token(state: &mut State, token: &str) -> (r: Result<(), String>)
    requires
        old(state)@.collecting_each is Some,
    ensures
        (final(state)@, outcome(r)) == spec_collect_each_token(old(state)@, token@),
{
    let (content, mut body) = state.collecting_each.take().unwrap();
    if str_eq(token, "then") {
        start_each(state, content.as_str(), body)
    } else {
        let ghost before = body.deep_view();
        body.push(token.to_string());
        assert(body.deep_view() =~= before.push(token@));
        state.collecting_each = Some((content, body));
        Ok(())
    }
}

// ========== Loop executors ==========

/// What a function that starts work on its own does: it refuses while other
/// work is pending, and otherwise lets the machine run what it started.
pub open spec fn spec_execute(s: StateModel, started: (StateModel, Outcome)) -> (StateModel, Outcome) {
    if !s.idle() {
        (s, Err(engaged()))
    } else {
        spec_settle(started)
    }
}

/// Running `begin … until` on its own.
pub open spec fn spec_execute_begin_until(s: StateModel, body: Seq<Seq<char>>) -> (
    StateModel,
    Outcome,
) {
    spec_execute(s, spec_start_begin_until(s, body))
}

/// Execute a `begin ... until` loop.
///
/// Runs the body, then pops a condition from the stack.
/// If condition is `Int(0)` (false), loops again.
/// If condition is non-zero, exits.
/// Executes at least once (condition checked at end).
pub fn execute_begin_until(state: &mut State, body: &[String]) -> (r: Result<(), String>)
    ensures
        (final(state)@, outcome(r)) == spec_execute_begin_until(old(state)@, body.deep_view()),
{
    if !state.is_idle() {
        return Err(crate::machine::engaged_error());
    }
    let started = start_begin_until(state, copy_strings(body));
    crate::machine::settle(state, started)
}

/// Running `begin … while … repeat` on its own.
pub open spec fn spec_execute_begin_while(
    s: StateModel,
    before_while: Seq<Seq<char>>,
    after_while: Seq<Seq<char>>,
) -> (StateModel, Outcome) {
    spec_execute(s, spec_start_begin_while(s, before_while, after_while))
}

/// Execute a `begin ... while ... repeat` loop.
///
/// Runs `before_while`, pops condition.
/// If condition is non-zero (true), runs `after_while` and repeats.
/// If condition is zero (false), exits.
/// May not execute body if condition is initially false.
pub fn execute_begin_while(
    state: &mut State,
    before_while: &[String],
    after_while: &[String],
) -> (r: Result<(), String>)
    ensures
        (final(state)@, outcome(r)) == spec_execute_begin_while(
            old(state)@,
            before_while.deep_view(),
            after_while.deep_view(),
        ),
{
    if !state.is_idle() {
        return Err(crate::machine::engaged_error());
    }
    let started = start_begin_while(state, copy_strings(before_while), copy_strings(after_while));
    crate::machine::settle(state, started)
}

/// Running `do … loop` on its own.
pub open spec fn spec_execute_do_loop(s: StateModel, start: i64, limit: i64, body: Seq<Seq<char>>) -> (
    StateModel,
    Outcome,
) {
    spec_execute(s, spec_start_do_loop(s, start, limit, body))
}

/// Execute a `do ... loop` counted loop.
///
/// Loops from `start` to `limit - 1` with step 1.
/// The loop index is accessible via `i`.
pub fn execute_do_loop(state: &mut State, start: i64, limit: i64, body: &[String]) -> (r: Result<
    (),
    String,
>)
    ensures
        (final(state)@, outcome(r)) == spec_execute_do_loop(
            old(state)@,
            start,
            limit,
            body.deep_view(),
        ),
{
    if !state.is_idle() {
        return Err(crate::machine::engaged_error());
    }
    let started = start_do_loop(state, start, limit, copy_strings(body));
    crate::machine::settle(state, started)
}

/// Running `do … +loop` on its own.
pub open spec fn spec_execute_do_plus_loop(
    s: StateModel,
    start: i64,
    limit: i64,
    body: Seq<Seq<char>>,
) -> (StateModel, Outcome) {
    spec_execute(s, spec_start_do_plus_loop(s, start, limit, body))
}

/// Execute a `do ... +loop` counted loop with dynamic step.
///
/// Like `do_loop` but pops step from stack after each body execution.
/// Supports ascending (start < limit) and descending (start > limit) loops.
pub fn execute_do_plus_loop(state: &mut State, start: i64, limit: i64, body: &[String]) -> (r:
    Result<(), String>)
    ensures
        (final(state)@, outcome(r)) == spec_execute_do_plus_loop(
            old(state)@,
            start,
            limit,
            body.deep_view(),
        ),
{
    if !state.is_idle() {
        return Err(crate::machine::engaged_error());
    }
    let started = start_do_plus_loop(state, start, limit, copy_strings(body));
    crate::machine::settle(state, started)
}

/// Taking one token while a loop body is collected, and running the loop if
/// the token closes it.
pub open spec fn spec_handle_loop_collection(s: StateModel, token: Seq<char>) -> (
    StateModel,
    Outcome,
) {
    spec_execute(s, spec_collect_loop_token(s, token))
}

/// Handle loop body collection and dispatch.
///
/// Called for each token while `collecting_loop` is active.
/// Tracks nesting depth for inner begin/do pairs and runs the loop when the
/// terminating keyword is found.
pub fn handle_loop_collection(state: &mut State, token: &str) -> (r: Result<(), String>)
    requires
        old(state)@.collecting_loop is Some,
    ensures
        (final(state)@, outcome(r)) == spec_handle_loop_collection(old(state)@, token@),
{
    if !state.is_idle() {
        return Err(crate::machine::engaged_error());
    }
    let started = collect_loop_token(state, token);
    crate::machine::settle(state, started)
}

/// Taking one token while the body of `each … then` is collected, and running
/// the iteration if the token closes it.
pub open spec fn spec_handle_each_collection(s: StateModel, token: Seq<char>) -> (
    StateModel,
    Outcome,
) {
    spec_execute(s, spec_collect_each_token(s, token))
}

/// Handle `each ... then` body collection.
///
/// Collects tokens until `then`, then executes the body for each line
/// of the output content.
pub fn handle_each_collection(state: &mut State, token: &str) -> (r: Result<(), String>)
    requires
        old(state)@.collecting_each is Some,
    ensures
        (final(state)@, outcome(r)) == spec_handle_each_collection(old(state)@, token@),
{
    if !state.is_idle() {
        return Err(crate::machine::engaged_error());
    }
    let started = collect_each_token(state, token);
    crate::machine::settle(state, started)
}

} // verus!
