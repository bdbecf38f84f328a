//! The evaluation machine: the pending work of the interpreter as an explicit
//! stack of tasks, advanced one token at a time.

use vstd::prelude::*;
use crate::builtins::introspection::{
    finish_capture, finish_dollar_basename, finish_dollar_cwd, finish_username,
    spec_finish_capture, spec_finish_dollar_basename, spec_finish_dollar_cwd, spec_finish_username,
};
use crate::builtins::io::{finish_done, spec_finish_done};
use crate::builtins::system::{
    finish_cd_home, finish_env_all, finish_env_join, finish_exec, finish_getenv, finish_pushd,
    finish_pushd_cwd, finish_pushd_home, spec_finish_cd_home, spec_finish_env_all,
    spec_finish_env_join, spec_finish_exec, spec_finish_getenv, spec_finish_pushd,
    spec_finish_pushd_cwd, spec_finish_pushd_home,
};
use crate::eval::{
    finish_cwd, finish_glob, finish_path_var, finish_probe, route_token, spec_finish_cwd,
    spec_finish_glob, spec_finish_path_var, spec_finish_probe, spec_route_token,
};
use crate::host::{Response, ResponseModel};
use crate::loops::{
    end_do_loop, end_do_plus_loop, end_until, end_while_body, pass_each, spec_end_do_loop,
    spec_end_do_plus_loop, spec_end_until, spec_end_while_body, spec_pass_each, spec_test_while,
    test_while,
};
use crate::tokenizer::{Token, TokenModel};
use crate::trace::{report_step, spec_report_step};
use crate::types::{outcome, LoopInfo, Outcome, State, StateModel, Value, ValueModel};

verus! {

/// What to do with the host's answer to the request that is pending.
#[derive(Debug)]
pub enum Wait {
    /// Nothing: the request only had to be carried out.
    Nothing,
    /// `candidates[idx]` is being probed as the executable that the bare word
    /// `token` names.
    Probe { token: String, candidates: Vec<String>, idx: usize },
    /// The working directory was asked for, to resolve the relative command `token`.
    Cwd { token: String },
    /// The search path was asked for, to look the bare word `token` up.
    PathVar { token: String },
    /// `dir` is being listed to expand the pattern `token`, whose last
    /// component is `pattern`.
    Glob { token: String, dir: String, pattern: String },
    /// `cmd` is being run by `exec`.
    Ran { cmd: String },
    /// The file at `path` is being written by `word`.
    Written { word: String, path: String },
    /// The working directory is being changed to `path` by `word`.
    Cd { word: String, path: String },
    /// The home directory was asked for by `cd`, to go to it and then `rest`.
    CdHome { rest: String },
    /// A variable was asked for by `getenv`.
    Getenv,
    /// The variable `key` was asked for, to put `value` behind what it
    /// holds (`append`) or before it.
    EnvJoin { key: String, value: String, append: bool },
    /// All variables were asked for by `env`.
    EnvAll,
    /// The working directory was asked for by `pushd`, which is to go to `path`.
    PushdCwd { path: String },
    /// The home directory was asked for by `pushd`, which came from
    /// `current` and is to go to the home directory and then `rest`.
    PushdHome { current: String, rest: String },
    /// The working directory is being changed to `path` by `pushd`, which
    /// came from `current`.
    Pushd { current: String, path: String },
    /// A command is being run for what it prints.
    Capture(Captured),
    /// The working directory was asked for by `$cwd`.
    DollarCwd,
    /// The working directory was asked for by `$basename`.
    DollarBasename,
    /// The user's name was asked for, under its first name or its `second`.
    Username { second: bool },
}

/// What a command is run for by a prompt word.
#[derive(Clone, Copy, Debug, PartialEq, Eq, Structural)]
pub enum Captured {
    GitBranch,
    Hostname,
    Time,
}

/// The model of a [`Wait`].
pub enum WaitModel {
    Nothing,
    Probe { token: Seq<char>, candidates: Seq<Seq<char>>, idx: usize },
    Cwd { token: Seq<char> },
    PathVar { token: Seq<char> },
    Glob { token: Seq<char>, dir: Seq<char>, pattern: Seq<char> },
    Ran { cmd: Seq<char> },
    Written { word: Seq<char>, path: Seq<char> },
    Cd { word: Seq<char>, path: Seq<char> },
    CdHome { rest: Seq<char> },
    Getenv,
    EnvJoin { key: Seq<char>, value: Seq<char>, append: bool },
    EnvAll,
    PushdCwd { path: Seq<char> },
    PushdHome { current: Seq<char>, rest: Seq<char> },
    Pushd { current: Seq<char>, path: Seq<char> },
    Capture(Captured),
    DollarCwd,
    DollarBasename,
    Username { second: bool },
}

impl DeepView for Wait {
    type V = WaitModel;

    open spec fn deep_view(&self) -> WaitModel {
        match self {
            Wait::Nothing => WaitModel::Nothing,
            Wait::Probe { token, candidates, idx } => WaitModel::Probe {
                token: token@,
                candidates: candidates.deep_view(),
                idx: *idx,
            },
            Wait::Cwd { token } => WaitModel::Cwd { token: token@ },
            Wait::PathVar { token } => WaitModel::PathVar { token: token@ },
            Wait::Glob { token, dir, pattern } => WaitModel::Glob {
                token: token@,
                dir: dir@,
                pattern: pattern@,
            },
            Wait::Ran { cmd } => WaitModel::Ran { cmd: cmd@ },
            Wait::Written { word, path } => WaitModel::Written { word: word@, path: path@ },
            Wait::Cd { word, path } => WaitModel::Cd { word: word@, path: path@ },
            Wait::CdHome { rest } => WaitModel::CdHome { rest: rest@ },
            Wait::Getenv => WaitModel::Getenv,
            Wait::EnvJoin { key, value, append } => WaitModel::EnvJoin {
                key: key@,
                value: value@,
                append: *append,
            },
            Wait::EnvAll => WaitModel::EnvAll,
            Wait::PushdCwd { path } => WaitModel::PushdCwd { path: path@ },
            Wait::PushdHome { current, rest } => WaitModel::PushdHome {
                current: current@,
                rest: rest@,
            },
            Wait::Pushd { current, path } => WaitModel::Pushd { current: current@, path: path@ },
            Wait::Capture(c) => WaitModel::Capture(*c),
            Wait::DollarCwd => WaitModel::DollarCwd,
            Wait::DollarBasename => WaitModel::DollarBasename,
            Wait::Username { second } => WaitModel::Username { second: *second },
        }
    }
}

impl View for Wait {
    type V = WaitModel;

    open spec fn view(&self) -> WaitModel {
        self.deep_view()
    }
}

/// One piece of pending work. A task that replays tokens holds them with the
/// position of the next one; when none is left, what happens depends on the
/// kind of task.
#[derive(Debug)]
pub enum Task {
    /// The tokens of an input line, from `pos` on.
    Line { items: Vec<Token>, pos: usize },
    /// The body of a defined word, replayed unquoted.
    Replay { tokens: Vec<String>, pos: usize },
    /// One pass of `begin … until`; at its end the condition is popped.
    Until { body: Vec<String>, pos: usize },
    /// `begin … while … repeat`: the condition part (`in_body` false), at
    /// whose end the condition is popped, or the body part.
    While { before: Vec<String>, after: Vec<String>, in_body: bool, pos: usize },
    /// One pass of `do … loop` with index `idx`.
    Counted { start: i64, limit: i64, idx: i64, body: Vec<String>, pos: usize },
    /// One pass of `do … +loop` with index `idx`; at its end the step is popped.
    Stepped { start: i64, limit: i64, idx: i64, body: Vec<String>, pos: usize },
    /// `each … then`: the body for line `line - 1`; the lines from `line` on
    /// are still to come.
    Each { lines: Vec<String>, line: usize, body: Vec<String>, pos: usize },
    /// A token that is traced is being executed; when it is done, the step
    /// is reported with the stack as it was before, the `snapshot`.
    Trace { token: String, quoted: bool, snapshot: Vec<Value> },
    /// The host's answer is awaited.
    Await(Wait),
}

/// The model of a [`Task`].
pub enum TaskModel {
    Line { items: Seq<TokenModel>, pos: usize },
    Replay { tokens: Seq<Seq<char>>, pos: usize },
    Until { body: Seq<Seq<char>>, pos: usize },
    While { before: Seq<Seq<char>>, after: Seq<Seq<char>>, in_body: bool, pos: usize },
    Counted { start: i64, limit: i64, idx: i64, body: Seq<Seq<char>>, pos: usize },
    Stepped { start: i64, limit: i64, idx: i64, body: Seq<Seq<char>>, pos: usize },
    Each { lines: Seq<Seq<char>>, line: usize, body: Seq<Seq<char>>, pos: usize },
    Trace { token: Seq<char>, quoted: bool, snapshot: Seq<ValueModel> },
    Await(WaitModel),
}

impl DeepView for Task {
    type V = TaskModel;

    open spec fn deep_view(&self) -> TaskModel {
        match self {
            Task::Line { items, pos } => TaskModel::Line { items: items.deep_view(), pos: *pos },
            Task::Replay { tokens, pos } => TaskModel::Replay {
                tokens: tokens.deep_view(),
                pos: *pos,
            },
            Task::Until { body, pos } => TaskModel::Until { body: body.deep_view(), pos: *pos },
            Task::While { before, after, in_body, pos } => TaskModel::While {
                before: before.deep_view(),
                after: after.deep_view(),
                in_body: *in_body,
                pos: *pos,
            },
            Task::Counted { start, limit, idx, body, pos } => TaskModel::Counted {
                start: *start,
                limit: *limit,
                idx: *idx,
                body: body.deep_view(),
                pos: *pos,
            },
            Task::Stepped { start, limit, idx, body, pos } => TaskModel::Stepped {
                start: *start,
                limit: *limit,
                idx: *idx,
                body: body.deep_view(),
                pos: *pos,
            },
            Task::Each { lines, line, body, pos } => TaskModel::Each {
                lines: lines.deep_view(),
                line: *line,
                body: body.deep_view(),
                pos: *pos,
            },
            Task::Trace { token, quoted, snapshot } => TaskModel::Trace {
                token: token@,
                quoted: *quoted,
                snapshot: snapshot.deep_view(),
            },
            Task::Await(w) => TaskModel::Await(w@),
        }
    }
}

impl View for Task {
    type V = TaskModel;

    open spec fn view(&self) -> TaskModel {
        self.deep_view()
    }
}

/// The frame that goes with a task: a loop that is running has one, with
/// the index of the pass for a counted loop.
pub open spec fn frame_of(task: TaskModel) -> Option<LoopInfo> {
    match task {
        TaskModel::Until { .. } => Some(LoopInfo::BeginUntilLoop),
        TaskModel::While { .. } => Some(LoopInfo::BeginWhileLoop),
        TaskModel::Counted { start, limit, idx, .. } => Some(
            LoopInfo::DoCountedLoop { start, limit, current: idx },
        ),
        TaskModel::Stepped { start, limit, idx, .. } => Some(
            LoopInfo::DoPlusCountedLoop { start, limit, current: idx },
        ),
        _ => None,
    }
}

impl Task {
    /// True for a task that awaits the host's answer.
    pub fn awaits(&self) -> (r: bool)
        ensures
            r == self@ is Await,
    {
        match self {
            Task::Await(_) => true,
            _ => false,
        }
    }

    /// True for a loop that is running, which has a frame on the loop stack.
    pub fn runs_a_loop(&self) -> (r: bool)
        ensures
            r == frame_of(self@) is Some,
    {
        match self {
            Task::Until { .. } => true,
            Task::While { .. } => true,
            Task::Counted { .. } => true,
            Task::Stepped { .. } => true,
            _ => false,
        }
    }
}

// ---------------------------------------------------------------------------
// Steps
// ---------------------------------------------------------------------------

/// How many steps one call of an evaluating function takes at most. A call
/// that uses them up returns with the rest of the work still pending;
/// [`run`] goes on with it.
pub const STEP_BUDGET: u64 = 1000000;

/// What a function that starts work reports while other work is pending.
pub open spec fn engaged() -> Seq<char> {
    "eval: evaluation is already under way"@
}

/// What a function that starts work reports while other work is pending.
pub fn engaged_error() -> (e: String)
    ensures
        e@ == engaged(),
{
    "eval: evaluation is already under way".to_string()
}

/// The state with the topmost task put aside.
pub open spec fn unscheduled(s: StateModel) -> StateModel {
    StateModel { tasks: s.tasks.drop_last(), ..s }
}

/// What the topmost task does next, the task itself being already taken
/// off the pending work. A task with tokens left has the next one routed,
/// after it is put back with its position advanced. A task at its end does
/// what its kind asks for.
pub open spec fn spec_advance(s: StateModel, task: TaskModel) -> (StateModel, Outcome) {
    match task {
        TaskModel::Line { items, pos } => if pos < items.len() {
            spec_route_token(
                s.schedule(TaskModel::Line { items, pos: (pos + 1) as usize }),
                items[pos as int].text,
                items[pos as int].quoted,
            )
        } else {
            (s, Ok(()))
        },
        TaskModel::Replay { tokens, pos } => if pos < tokens.len() {
            spec_route_token(
                s.schedule(TaskModel::Replay { tokens, pos: (pos + 1) as usize }),
                tokens[pos as int],
                false,
            )
        } else {
            (s, Ok(()))
        },
        TaskModel::Until { body, pos } => if pos < body.len() {
            spec_route_token(
                s.schedule(TaskModel::Until { body, pos: (pos + 1) as usize }),
                body[pos as int],
                false,
            )
        } else {
            spec_end_until(s, body)
        },
        TaskModel::While { before, after, in_body, pos } => {
            let tokens = if in_body {
                after
            } else {
                before
            };
            if pos < tokens.len() {
                spec_route_token(
                    s.schedule(
                        TaskModel::While { before, after, in_body, pos: (pos + 1) as usize },
                    ),
                    tokens[pos as int],
                    false,
                )
            } else if in_body {
                spec_end_while_body(s, before, after)
            } else {
                spec_test_while(s, before, after)
            }
        },
        TaskModel::Counted { start, limit, idx, body, pos } => if pos < body.len() {
            spec_route_token(
                s.schedule(
                    TaskModel::Counted { start, limit, idx, body, pos: (pos + 1) as usize },
                ),
                body[pos as int],
                false,
            )
        } else {
            spec_end_do_loop(s, start, limit, idx, body)
        },
        TaskModel::Stepped { start, limit, idx, body, pos } => if pos < body.len() {
            spec_route_token(
                s.schedule(
                    TaskModel::Stepped { start, limit, idx, body, pos: (pos + 1) as usize },
                ),
                body[pos as int],
                false,
            )
        } else {
            spec_end_do_plus_loop(s, start, limit, idx, body)
        },
        TaskModel::Each { lines, line, body, pos } => if pos < body.len() {
            spec_route_token(
                s.schedule(TaskModel::Each { lines, line, body, pos: (pos + 1) as usize }),
                body[pos as int],
                false,
            )
        } else {
            spec_pass_each(s, lines, line as int, body)
        },
        TaskModel::Trace { token, quoted, snapshot } => spec_report_step(
            s,
            token,
            quoted,
            snapshot,
        ),
        TaskModel::Await(_) => (s, Err("eval: the host has not been asked"@)),
    }
}

/// One step of the machine: the topmost task advances. An error gives up
/// all pending work, and the loops that were running leave their frames.
/// Without pending work nothing happens.
pub open spec fn spec_step(s: StateModel) -> (StateModel, Outcome) {
    if s.tasks.len() == 0 {
        (s, Ok(()))
    } else {
        let (s1, r) = spec_advance(unscheduled(s), s.tasks.last());
        if r is Err {
            (s1.abort(), r)
        } else {
            (s1, r)
        }
    }
}

fn advance(state: &mut State, task: Task) -> (r: Result<(), String>)
    ensures
        (final(state)@, outcome(r)) == spec_advance(old(state)@, task@),
{
    match task {
        Task::Line { items, pos } => {
            if pos < items.len() {
                let text = items[pos].text.clone();
                let quoted = items[pos].quoted;
                state.schedule(Task::Line { items, pos: pos + 1 });
                route_token(state, text.as_str(), quoted)
            } else {
                Ok(())
            }
        },
        Task::Replay { tokens, pos } => {
            if pos < tokens.len() {
                let text = tokens[pos].clone();
                state.schedule(Task::Replay { tokens, pos: pos + 1 });
                route_token(state, text.as_str(), false)
            } else {
                Ok(())
            }
        },
        Task::Until { body, pos } => {
            if pos < body.len() {
                let text = body[pos].clone();
                state.schedule(Task::Until { body, pos: pos + 1 });
                route_token(state, text.as_str(), false)
            } else {
                end_until(state, body)
            }
        },
        Task::While { before, after, in_body, pos } => {
            let n = if in_body {
                after.len()
            } else {
                before.len()
            };
            if pos < n {
                let text = if in_body {
                    after[pos].clone()
                } else {
                    before[pos].clone()
                };
                state.schedule(Task::While { before, after, in_body, pos: pos + 1 });
                route_token(state, text.as_str(), false)
            } else if in_body {
                end_while_body(state, before, after)
            } else {
                test_while(state, before, after)
            }
        },
        Task::Counted { start, limit, idx, body, pos } => {
            if pos < body.len() {
                let text = body[pos].clone();
                state.schedule(Task::Counted { start, limit, idx, body, pos: pos + 1 });
                route_token(state, text.as_str(), false)
            } else {
                end_do_loop(state, start, limit, idx, body)
            }
        },
        Task::Stepped { start, limit, idx, body, pos } => {
            if pos < body.len() {
                let text = body[pos].clone();
                state.schedule(Task::Stepped { start, limit, idx, body, pos: pos + 1 });
                route_token(state, text.as_str(), false)
            } else {
                end_do_plus_loop(state, start, limit, idx, body)
            }
        },
        Task::Each { lines, line, body, pos } => {
            if pos < body.len() {
                let text = body[pos].clone();
                state.schedule(Task::Each { lines, line, body, pos: pos + 1 });
                route_token(state, text.as_str(), false)
            } else {
                pass_each(state, lines, line, body)
            }
        },
        Task::Trace { token, quoted, snapshot } => report_step(
            state,
            token.as_str(),
            quoted,
            snapshot.as_slice(),
        ),
        Task::Await(_) => Err("eval: the host has not been asked".to_string()),
    }
}

/// Takes one step.
pub fn step(state: &mut State) -> (r: Result<(), String>)
    ensures
        (final(state)@, outcome(r)) == spec_step(old(state)@),
{
    let task = match state.tasks.pop() {
        Some(task) => task,
        None => {
            return Ok(());
        },
    };
    assert(state@ == unscheduled(old(state)@)) by {
        assert(state@.tasks =~= old(state)@.tasks.drop_last());
    }
    match advance(state, task) {
        Ok(()) => Ok(()),
        Err(e) => {
            state.abort();
            Err(e)
        },
    }
}

/// Steps taken one after another, at most `budget` of them, until no work
/// is pending, the host is asked for something, or a step fails.
pub open spec fn spec_run(s: StateModel, budget: nat) -> (StateModel, Outcome)
    decreases budget,
{
    if budget == 0 || s.tasks.len() == 0 || s.request is Some {
        (s, Ok(()))
    } else {
        let (s1, r) = spec_step(s);
        if r is Err {
            (s1, r)
        } else {
            spec_run(s1, (budget - 1) as nat)
        }
    }
}

/// Goes on with the pending work, for at most `budget` steps.
pub fn run(state: &mut State, budget: u64) -> (r: Result<(), String>)
    ensures
        (final(state)@, outcome(r)) == spec_run(old(state)@, budget as nat),
{
    let mut left = budget;
    while left > 0 && state.tasks.len() > 0 && state.request.is_none()
        invariant
            spec_run(state@, left as nat) == spec_run(old(state)@, budget as nat),
        decreases left,
    {
        match step(state) {
            Ok(()) => {},
            Err(e) => {
                return Err(e);
            },
        }
        left = left - 1;
    }
    Ok(())
}

/// What becomes of work that was just started: if starting it failed, all
/// pending work is given up; otherwise the machine runs within the budget
/// of one call.
pub open spec fn spec_settle(started: (StateModel, Outcome)) -> (StateModel, Outcome) {
    if started.1 is Err {
        (started.0.abort(), started.1)
    } else {
        spec_run(started.0, STEP_BUDGET as nat)
    }
}

/// Lets the machine run what was just started, or gives up if starting it
/// failed.
pub fn settle(state: &mut State, started: Result<(), String>) -> (r: Result<(), String>)
    ensures
        (final(state)@, outcome(r)) == spec_settle((old(state)@, outcome(started))),
{
    match started {
        Ok(()) => run(state, STEP_BUDGET),
        Err(e) => {
            state.abort();
            Err(e)
        },
    }
}

/// Whether evaluation can go on, and who has to act.
#[derive(Clone, Copy, Debug, PartialEq, Eq, Structural)]
pub enum Status {
    /// No work is pending.
    Idle,
    /// Work is pending; [`run`] goes on with it.
    Runnable,
    /// The host has to answer the pending request; [`resume`] takes the answer.
    Waiting,
}

/// Whether evaluation can go on, and who has to act: the host while a request
/// is pending, the machine while work is pending, nobody otherwise.
pub open spec fn spec_status(s: StateModel) -> Status {
    if s.request is Some {
        Status::Waiting
    } else if s.tasks.len() > 0 {
        Status::Runnable
    } else {
        Status::Idle
    }
}

/// Tells whether evaluation can go on, and who has to act.
pub fn status(state: &State) -> (r: Status)
    ensures
        r == spec_status(state@),
{
    if state.request.is_some() {
        Status::Waiting
    } else if state.tasks.len() > 0 {
        Status::Runnable
    } else {
        Status::Idle
    }
}

// ---------------------------------------------------------------------------
// Answers of the host
// ---------------------------------------------------------------------------

/// What becomes of the host's answer, by what it was awaited for.
#[verifier::opaque]
pub open spec fn spec_finish(s: StateModel, wait: WaitModel, response: ResponseModel) -> (
    StateModel,
    Outcome,
) {
    match wait {
        WaitModel::Nothing => match response {
            ResponseModel::Failed(e) => (s, Err(e)),
            _ => (s, Ok(())),
        },
        WaitModel::Probe { token, candidates, idx } => spec_finish_probe(
            s,
            token,
            candidates,
            idx,
            response,
        ),
        WaitModel::Cwd { token } => spec_finish_cwd(s, token, response),
        WaitModel::PathVar { token } => spec_finish_path_var(s, token, response),
        WaitModel::Glob { token, dir, pattern } => spec_finish_glob(
            s,
            token,
            dir,
            pattern,
            response,
        ),
        WaitModel::Ran { cmd } => spec_finish_exec(s, cmd, response),
        WaitModel::Written { word, path } => spec_finish_done(s, word, path, response),
        WaitModel::Cd { word, path } => spec_finish_done(s, word, path, response),
        WaitModel::CdHome { rest } => spec_finish_cd_home(s, rest, response),
        WaitModel::Getenv => spec_finish_getenv(s, response),
        WaitModel::EnvJoin { key, value, append } => spec_finish_env_join(
            s,
            key,
            value,
            append,
            response,
        ),
        WaitModel::EnvAll => spec_finish_env_all(s, response),
        WaitModel::PushdCwd { path } => spec_finish_pushd_cwd(s, path, response),
        WaitModel::PushdHome { current, rest } => spec_finish_pushd_home(
            s,
            current,
            rest,
            response,
        ),
        WaitModel::Pushd { current, path } => spec_finish_pushd(s, current, path, response),
        WaitModel::Capture(what) => spec_finish_capture(s, what, response),
        WaitModel::DollarCwd => spec_finish_dollar_cwd(s, response),
        WaitModel::DollarBasename => spec_finish_dollar_basename(s, response),
        WaitModel::Username { second } => spec_finish_username(s, second, response),
    }
}

/// Hands the host's answer to what awaited it.
pub fn finish(state: &mut State, wait: Wait, response: Response) -> (r: Result<(), String>)
    ensures
        (final(state)@, outcome(r)) == spec_finish(old(state)@, wait@, response@),
{
    reveal(spec_finish);
    match wait {
        Wait::Nothing => match response {
            Response::Failed(e) => Err(e),
            _ => Ok(()),
        },
        Wait::Probe { token, candidates, idx } => finish_probe(
            state,
            token,
            candidates,
            idx,
            response,
        ),
        Wait::Cwd { token } => finish_cwd(state, token, response),
        Wait::PathVar { token } => finish_path_var(state, token, response),
        Wait::Glob { token, dir, pattern } => finish_glob(
            state,
            token,
            dir.as_str(),
            pattern.as_str(),
            response,
        ),
        Wait::Ran { cmd } => finish_exec(state, cmd.as_str(), response),
        Wait::Written { word, path } => finish_done(state, word.as_str(), path.as_str(), response),
        Wait::Cd { word, path } => finish_done(state, word.as_str(), path.as_str(), response),
        Wait::CdHome { rest } => finish_cd_home(state, rest.as_str(), response),
        Wait::Getenv => finish_getenv(state, response),
        Wait::EnvJoin { key, value, append } => finish_env_join(state, key, value, append, response),
        Wait::EnvAll => finish_env_all(state, response),
        Wait::PushdCwd { path } => finish_pushd_cwd(state, path, response),
        Wait::PushdHome { current, rest } => finish_pushd_home(
            state,
            current,
            rest.as_str(),
            response,
        ),
        Wait::Pushd { current, path } => finish_pushd(state, current, path.as_str(), response),
        Wait::Capture(what) => finish_capture(state, what, response),
        Wait::DollarCwd => finish_dollar_cwd(state, response),
        Wait::DollarBasename => finish_dollar_basename(state, response),
        Wait::Username { second } => finish_username(state, second, response),
    }
}

/// The host answers. Without a pending request this is an error and
/// nothing changes. Otherwise the request is settled; the task that awaits
/// the answer takes it, and the machine runs on. Where no such task is on
/// top of the pending work, all of it is given up.
pub open spec fn spec_resume(s: StateModel, response: ResponseModel) -> (StateModel, Outcome) {
    if s.request is None {
        (s, Err("resume: nothing was asked of the host"@))
    } else {
        let answered = StateModel { request: None, ..s };
        if answered.tasks.len() > 0 && answered.tasks.last() is Await {
            spec_settle(spec_finish(unscheduled(answered), answered.tasks.last()->Await_0, response))
        } else {
            (answered.abort(), Err("resume: no task awaits the answer"@))
        }
    }
}

/// Hands the host's answer to the pending request over and goes on.
pub fn resume(state: &mut State, response: Response) -> (r: Result<(), String>)
    ensures
        (final(state)@, outcome(r)) == spec_resume(old(state)@, response@),
{
    if state.request.is_none() {
        return Err("resume: nothing was asked of the host".to_string());
    }
    state.request = None;
    let ghost answered = state@;
    let n = state.tasks.len();
    if n == 0 || !state.tasks[n - 1].awaits() {
        state.abort();
        return Err("resume: no task awaits the answer".to_string());
    }
    assert(answered.tasks.last() == state.tasks@[n - 1]@);
    match state.tasks.pop() {
        Some(Task::Await(wait)) => {
            assert(state@ == unscheduled(answered)) by {
                assert(state@.tasks =~= answered.tasks.drop_last());
            }
            let finished = finish(state, wait, response);
            settle(state, finished)
        },
        _ => Ok(()),
    }
}

} // verus!
