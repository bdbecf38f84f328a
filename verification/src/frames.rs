//! Loop frames and loop tasks go together: as long as no error occurs,
//! every loop that is running has its frame on the loop stack, innermost
//! last, and nothing else is put there.

use vstd::prelude::*;
use crate::builtins::computation::{frame_index, spec_loop_i};
use crate::builtins::spec_run_builtin;
use crate::eval::{
    spec_expand_or_push, spec_find_in_path, spec_handle_token_execution, spec_load_line,
    spec_note_for_trace, spec_route_token, spec_run_word,
};
use crate::host::ResponseModel;
use crate::loops::{spec_collect_each_token, spec_collect_loop_token};
use crate::machine::{
    frame_of, spec_advance, spec_finish, spec_resume, spec_run, spec_settle, spec_step,
    unscheduled, TaskModel, WaitModel,
};
use crate::types::{Builtin, LoopInfo, Outcome, StateModel, ValueModel, WordModel};

verus! {

/// The frames that go with the pending work, innermost last.
pub open spec fn frames_of(tasks: Seq<TaskModel>) -> Seq<LoopInfo>
    decreases tasks.len(),
{
    if tasks.len() == 0 {
        Seq::empty()
    } else {
        match frame_of(tasks.last()) {
            Some(frame) => frames_of(tasks.drop_last()).push(frame),
            None => frames_of(tasks.drop_last()),
        }
    }
}

/// The loop stack holds `base` and, on top of it, the frames of the loops
/// that are running.
pub open spec fn framed(s: StateModel, base: Seq<LoopInfo>) -> bool {
    s.loop_stack == base + frames_of(s.tasks)
}

/// Nothing happened to the loop stack nor to the loops that are running.
pub open spec fn same_frames(s: StateModel, t: StateModel) -> bool {
    t.loop_stack == s.loop_stack && frames_of(t.tasks) == frames_of(s.tasks)
}

proof fn lemma_push_task(tasks: Seq<TaskModel>, task: TaskModel)
    ensures
        frames_of(tasks.push(task)) == match frame_of(task) {
            Some(frame) => frames_of(tasks).push(frame),
            None => frames_of(tasks),
        },
{
    assert(tasks.push(task).drop_last() =~= tasks);
}

proof fn lemma_stack_words(s: StateModel, b: Builtin)
    requires
        b == Builtin::Dup || b == Builtin::Swap || b == Builtin::Drop || b == Builtin::Clear || b
            == Builtin::Over || b == Builtin::Rot || b == Builtin::ToOutput || b
            == Builtin::ToString || b == Builtin::ExitCode || b == Builtin::LoopI || b
            == Builtin::LoopJ || b == Builtin::DollarStack || b == Builtin::DollarIn || b
            == Builtin::DollarOut || b == Builtin::DollarExitcode || b == Builtin::Concat || b
            == Builtin::CondPrefix || b == Builtin::CondSuffix || b == Builtin::CondWrap || b
            == Builtin::Not || b == Builtin::MulDiv || b == Builtin::Eq || b == Builtin::Neq,
    ensures
        same_frames(s, spec_run_builtin(s, b).0),
{
    reveal(spec_run_builtin);
}

proof fn lemma_integer_words(s: StateModel, b: Builtin)
    requires
        b == Builtin::Add || b == Builtin::Sub || b == Builtin::Mul || b == Builtin::Div || b
            == Builtin::Mod || b == Builtin::DivMod || b == Builtin::Gt || b == Builtin::Lt || b
            == Builtin::Gte || b == Builtin::Lte || b == Builtin::And || b == Builtin::Or || b
            == Builtin::Xor,
    ensures
        same_frames(s, spec_run_builtin(s, b).0),
{
    reveal(spec_run_builtin);
}

proof fn lemma_asking_keeps_frames(s: StateModel, t: StateModel)
    requires
        t.loop_stack == s.loop_stack,
        t.tasks == s.tasks || (t.tasks.len() > 0 && t.tasks.drop_last() == s.tasks
            && t.tasks.last() is Await),
    ensures
        same_frames(s, t),
{
    if t.tasks != s.tasks {
        lemma_push_task(s.tasks, t.tasks.last());
        assert(s.tasks.push(t.tasks.last()) =~= t.tasks);
    }
}

proof fn lemma_exec_word(s: StateModel)
    ensures
        same_frames(s, crate::builtins::system::spec_exec_word(s).0),
{
    let t = crate::builtins::system::spec_exec_word(s).0;
    if t.tasks != s.tasks {
        assert(t.tasks.drop_last() =~= s.tasks);
    }
    lemma_asking_keeps_frames(s, t);
}

proof fn lemma_host_words(s: StateModel, b: Builtin)
    requires
        b == Builtin::Dot || b == Builtin::Type || b == Builtin::DotS || b == Builtin::WriteFile
            || b == Builtin::AppendFile || b == Builtin::Exec || b == Builtin::Cd || b
            == Builtin::Getenv || b == Builtin::Setenv || b == Builtin::Unsetenv || b
            == Builtin::EnvAppend || b == Builtin::EnvPrepend || b == Builtin::Env || b
            == Builtin::Pushd || b == Builtin::Popd || b == Builtin::Words || b == Builtin::Help
            || b == Builtin::See || b == Builtin::DollarGitbranch || b == Builtin::DollarCwd || b
            == Builtin::DollarBasename || b == Builtin::DollarHostname || b
            == Builtin::DollarUsername || b == Builtin::DollarTime || b == Builtin::Trace,
    ensures
        same_frames(s, spec_run_builtin(s, b).0),
{
    reveal(spec_run_builtin);
    let t = spec_run_builtin(s, b).0;
    if b == Builtin::Exec {
        lemma_exec_word(s);
    } else {
        if t.tasks != s.tasks {
            assert(t.tasks.drop_last() =~= s.tasks);
        }
        lemma_asking_keeps_frames(s, t);
    }
}

/// No native word touches the loop stack or the loops that are running.
pub proof fn a_native_word_keeps_the_frames(s: StateModel, b: Builtin)
    ensures
        same_frames(s, spec_run_builtin(s, b).0),
{
    match b {
        Builtin::Dup | Builtin::Swap | Builtin::Drop | Builtin::Clear | Builtin::Over
        | Builtin::Rot | Builtin::ToOutput | Builtin::ToString | Builtin::ExitCode
        | Builtin::LoopI | Builtin::LoopJ | Builtin::DollarStack | Builtin::DollarIn
        | Builtin::DollarOut | Builtin::DollarExitcode | Builtin::Concat | Builtin::CondPrefix
        | Builtin::CondSuffix | Builtin::CondWrap | Builtin::Not | Builtin::MulDiv | Builtin::Eq
        | Builtin::Neq => lemma_stack_words(s, b),
        Builtin::Add | Builtin::Sub | Builtin::Mul | Builtin::Div | Builtin::Mod
        | Builtin::DivMod | Builtin::Gt | Builtin::Lt | Builtin::Gte | Builtin::Lte
        | Builtin::And | Builtin::Or | Builtin::Xor => lemma_integer_words(s, b),
        _ => lemma_host_words(s, b),
    }
}

proof fn lemma_lookup(s: StateModel, token: Seq<char>)
    ensures
        same_frames(s, spec_find_in_path(s, token).0),
        same_frames(s, spec_expand_or_push(s, token).0),
{
    let t = spec_find_in_path(s, token).0;
    if t.tasks != s.tasks {
        assert(t.tasks.drop_last() =~= s.tasks);
    }
    lemma_asking_keeps_frames(s, t);
    let u = spec_expand_or_push(s, token).0;
    if u.tasks != s.tasks {
        assert(u.tasks.drop_last() =~= s.tasks);
    }
    lemma_asking_keeps_frames(s, u);
}

proof fn lemma_run_word(s: StateModel, word: WordModel)
    ensures
        same_frames(s, spec_run_word(s, word).0),
{
    match word {
        WordModel::Builtin(b, _) => a_native_word_keeps_the_frames(s, b),
        WordModel::Defined(tokens) => {
            lemma_push_task(s.tasks, TaskModel::Replay { tokens, pos: 0 });
        },
        WordModel::ShellCmd(cmd) => lemma_exec_word(s.push(ValueModel::Str(cmd))),
    }
}

proof fn lemma_token_execution(s: StateModel, token: Seq<char>, is_quoted: bool)
    ensures
        same_frames(s, spec_handle_token_execution(s, token, is_quoted).0),
{
    lemma_lookup(s, token);
    if s.dict.contains_key(token) {
        lemma_run_word(s, s.dict[token]);
    }
}

proof fn lemma_collect_loop(s: StateModel, token: Seq<char>, base: Seq<LoopInfo>)
    requires
        framed(s, base),
        s.collecting_loop is Some,
    ensures
        framed(spec_collect_loop_token(s, token).0, base),
{
    let t = spec_collect_loop_token(s, token).0;
    if t.tasks != s.tasks {
        assert(t.tasks.drop_last() =~= s.tasks);
        lemma_push_task(s.tasks, t.tasks.last());
        assert(s.tasks.push(t.tasks.last()) =~= t.tasks);
        assert(t.loop_stack =~= base + frames_of(t.tasks));
    }
}

proof fn lemma_collect_each(s: StateModel, token: Seq<char>, base: Seq<LoopInfo>)
    requires
        framed(s, base),
        s.collecting_each is Some,
    ensures
        framed(spec_collect_each_token(s, token).0, base),
{
    let t = spec_collect_each_token(s, token).0;
    if t.tasks != s.tasks {
        assert(t.tasks.drop_last() =~= s.tasks);
        lemma_push_task(s.tasks, t.tasks.last());
        assert(s.tasks.push(t.tasks.last()) =~= t.tasks);
    }
}

/// Routing a token keeps frames and running loops together, whether the
/// token is collected, skipped or executed, and whether or not that fails.
pub proof fn routing_keeps_the_frames(
    s: StateModel,
    token: Seq<char>,
    is_quoted: bool,
    base: Seq<LoopInfo>,
)
    requires
        framed(s, base),
    ensures
        framed(spec_route_token(s, token, is_quoted).0, base),
{
    if s.collecting_each is Some {
        lemma_collect_each(s, token, base);
    } else if s.collecting_loop is Some {
        lemma_collect_loop(s, token, base);
    } else if s.defining is Some {
    } else if s.control_flow is Skipping {
    } else {
        let traced = spec_note_for_trace(s, token, is_quoted);
        if s.trace > 0 {
            lemma_push_task(
                s.tasks,
                TaskModel::Trace { token, quoted: is_quoted, snapshot: s.stack },
            );
        }
        assert(same_frames(s, traced));
        lemma_token_execution(traced, token, is_quoted);
    }
}

/// Giving up all pending work leaves the loop stack without the frames
/// of the loops that were running.
pub proof fn giving_up_leaves_no_frames(s: StateModel, base: Seq<LoopInfo>)
    requires
        framed(s, base),
    ensures
        s.abort().tasks.len() == 0,
        s.abort().loop_stack == base,
        framed(s.abort(), base),
    decreases s.tasks.len(),
{
    if s.tasks.len() == 0 {
        assert(base + frames_of(s.tasks) =~= base);
    } else {
        let rest = StateModel { tasks: s.tasks.drop_last(), ..s };
        match frame_of(s.tasks.last()) {
            Some(frame) => {
                let inner = frames_of(rest.tasks);
                assert((base + inner.push(frame)).drop_last() =~= base + inner);
                giving_up_leaves_no_frames(rest.leave(), base);
            },
            None => {
                giving_up_leaves_no_frames(rest, base);
            },
        }
    }
}

/// The topmost task advances, with or without an error, and frames and
/// running loops stay together.
proof fn lemma_advance(s: StateModel, base: Seq<LoopInfo>)
    requires
        framed(s, base),
        s.tasks.len() > 0,
    ensures
        framed(spec_advance(unscheduled(s), s.tasks.last()).0, base),
{
    if s.tasks.len() > 0 {
        let task = s.tasks.last();
        let rest = unscheduled(s);
        assert(s.tasks =~= rest.tasks.push(task));
        lemma_push_task(rest.tasks, task);
        let inner = frames_of(rest.tasks);
        // The task with tokens left goes back with its position advanced,
        // which changes nothing about its frame.
        let next: Option<(TaskModel, Seq<char>, bool)> = match task {
            TaskModel::Line { items, pos } => if pos < items.len() {
                Some(
                    (
                        TaskModel::Line { items, pos: (pos + 1) as usize },
                        items[pos as int].text,
                        items[pos as int].quoted,
                    ),
                )
            } else {
                None
            },
            TaskModel::Replay { tokens, pos } => if pos < tokens.len() {
                Some(
                    (
                        TaskModel::Replay { tokens, pos: (pos + 1) as usize },
                        tokens[pos as int],
                        false,
                    ),
                )
            } else {
                None
            },
            TaskModel::Until { body, pos } => if pos < body.len() {
                Some((TaskModel::Until { body, pos: (pos + 1) as usize }, body[pos as int], false))
            } else {
                None
            },
            TaskModel::While { before, after, in_body, pos } => {
                let tokens = if in_body {
                    after
                } else {
                    before
                };
                if pos < tokens.len() {
                    Some(
                        (
                            TaskModel::While { before, after, in_body, pos: (pos + 1) as usize },
                            tokens[pos as int],
                            false,
                        ),
                    )
                } else {
                    None
                }
            },
            TaskModel::Counted { start, limit, idx, body, pos } => if pos < body.len() {
                Some(
                    (
                        TaskModel::Counted { start, limit, idx, body, pos: (pos + 1) as usize },
                        body[pos as int],
                        false,
                    ),
                )
            } else {
                None
            },
            TaskModel::Stepped { start, limit, idx, body, pos } => if pos < body.len() {
                Some(
                    (
                        TaskModel::Stepped { start, limit, idx, body, pos: (pos + 1) as usize },
                        body[pos as int],
                        false,
                    ),
                )
            } else {
                None
            },
            TaskModel::Each { lines, line, body, pos } => if pos < body.len() {
                Some(
                    (
                        TaskModel::Each { lines, line, body, pos: (pos + 1) as usize },
                        body[pos as int],
                        false,
                    ),
                )
            } else {
                None
            },
            _ => None,
        };
        match next {
            Some((advanced, token, quoted)) => {
                let back = rest.schedule(advanced);
                lemma_push_task(rest.tasks, advanced);
                assert(frame_of(advanced) == frame_of(task));
                assert(framed(back, base));
                assert(spec_advance(rest, task) == spec_route_token(back, token, quoted));
                routing_keeps_the_frames(back, token, quoted, base);
            },
            None => {
                lemma_task_end(rest, task, base, inner);
            },
        }
    }
}

/// A step keeps frames and running loops together. If the step fails, no
/// task is left and the loop stack holds what it held below the loops
/// that were running.
pub proof fn a_step_keeps_the_frames(s: StateModel, base: Seq<LoopInfo>)
    requires
        framed(s, base),
    ensures
        framed(spec_step(s).0, base),
        spec_step(s).1 is Err ==> spec_step(s).0.tasks.len() == 0 && spec_step(s).0.loop_stack
            == base,
{
    if s.tasks.len() > 0 {
        lemma_advance(s, base);
        let advanced = spec_advance(unscheduled(s), s.tasks.last());
        if advanced.1 is Err {
            giving_up_leaves_no_frames(advanced.0, base);
        }
    }
}

proof fn lemma_task_end(rest: StateModel, task: TaskModel, base: Seq<LoopInfo>, inner: Seq<LoopInfo>)
    requires
        inner == frames_of(rest.tasks),
        rest.loop_stack == base + match frame_of(task) {
            Some(frame) => inner.push(frame),
            None => inner,
        },
        match task {
            TaskModel::Line { items, pos } => pos >= items.len(),
            TaskModel::Replay { tokens, pos } => pos >= tokens.len(),
            TaskModel::Until { body, pos } => pos >= body.len(),
            TaskModel::While { before, after, in_body, pos } => pos >= (if in_body {
                after
            } else {
                before
            }).len(),
            TaskModel::Counted { body, pos, .. } => pos >= body.len(),
            TaskModel::Stepped { body, pos, .. } => pos >= body.len(),
            TaskModel::Each { body, pos, .. } => pos >= body.len(),
            _ => true,
        },
    ensures
        framed(spec_advance(rest, task).0, base),
{
    let t = spec_advance(rest, task).0;
    match frame_of(task) {
        Some(frame) => {
            assert((base + inner.push(frame)).drop_last() =~= base + inner);
            assert(rest.leave().loop_stack == base + inner);
        },
        None => {},
    }
    if t.tasks != rest.tasks {
        assert(t.tasks.drop_last() =~= rest.tasks);
        lemma_push_task(rest.tasks, t.tasks.last());
        assert(rest.tasks.push(t.tasks.last()) =~= t.tasks);
        match frame_of(t.tasks.last()) {
            Some(frame) => {
                assert(t.loop_stack =~= (base + inner).push(frame));
                assert((base + inner).push(frame) =~= base + inner.push(frame));
            },
            None => {},
        }
    }
}

/// A run keeps frames and running loops together. If the run fails, no
/// task is left and the loop stack holds what it held below the loops
/// that were running.
pub proof fn a_run_keeps_the_frames(s: StateModel, budget: nat, base: Seq<LoopInfo>)
    requires
        framed(s, base),
    ensures
        framed(spec_run(s, budget).0, base),
        spec_run(s, budget).1 is Err ==> spec_run(s, budget).0.tasks.len() == 0 && spec_run(
            s,
            budget,
        ).0.loop_stack == base,
    decreases budget,
{
    if !(budget == 0 || s.tasks.len() == 0 || s.request is Some) {
        a_step_keeps_the_frames(s, base);
        if spec_step(s).1 is Ok {
            a_run_keeps_the_frames(spec_step(s).0, (budget - 1) as nat, base);
        }
    }
}

proof fn lemma_settle(started: (StateModel, Outcome), base: Seq<LoopInfo>)
    requires
        framed(started.0, base),
    ensures
        framed(spec_settle(started).0, base),
        spec_settle(started).1 is Err ==> spec_settle(started).0.tasks.len() == 0 && spec_settle(
            started,
        ).0.loop_stack == base,
{
    if started.1 is Err {
        giving_up_leaves_no_frames(started.0, base);
    } else {
        a_run_keeps_the_frames(started.0, crate::machine::STEP_BUDGET as nat, base);
    }
}

/// A line that is evaluated leaves the loop stack as it was, whether or
/// not it fails, and so does every pass of a loop on the way: when no
/// work is left, the loop stack holds what it held before the line. In
/// particular `i` and `j` find no frame of a loop that has come to its end
/// or was given up.
pub proof fn a_line_leaves_no_frames(s: StateModel, line: Seq<char>)
    requires
        s.idle(),
    ensures
        framed(crate::eval::spec_eval_line(s, line).0, s.loop_stack),
        crate::eval::spec_eval_line(s, line).0.tasks.len() == 0 ==> crate::eval::spec_eval_line(
            s,
            line,
        ).0.loop_stack == s.loop_stack,
        crate::eval::spec_eval_line(s, line).1 is Err ==> crate::eval::spec_eval_line(
            s,
            line,
        ).0.tasks.len() == 0,
{
    let loaded = spec_load_line(s, line);
    lemma_push_task(s.tasks, loaded.tasks.last());
    assert(s.tasks.push(loaded.tasks.last()) =~= loaded.tasks);
    assert(s.loop_stack + frames_of(s.tasks) =~= s.loop_stack);
    assert(framed(loaded, s.loop_stack));
    lemma_settle((loaded, Ok(())), s.loop_stack);
    let done = crate::eval::spec_eval_line(s, line).0;
    if done.tasks.len() == 0 {
        assert(s.loop_stack + frames_of(done.tasks) =~= s.loop_stack);
    }
}

/// A token that is evaluated leaves the loop stack as it was once no work
/// is left, whether or not it fails.
pub proof fn a_token_leaves_no_frames(s: StateModel, token: Seq<char>, is_quoted: bool)
    requires
        s.idle(),
    ensures
        framed(crate::eval::spec_eval_token(s, token, is_quoted).0, s.loop_stack),
        crate::eval::spec_eval_token(s, token, is_quoted).0.tasks.len() == 0
            ==> crate::eval::spec_eval_token(s, token, is_quoted).0.loop_stack == s.loop_stack,
{
    assert(s.loop_stack + frames_of(s.tasks) =~= s.loop_stack);
    routing_keeps_the_frames(s, token, is_quoted, s.loop_stack);
    lemma_settle(spec_route_token(s, token, is_quoted), s.loop_stack);
    let done = crate::eval::spec_eval_token(s, token, is_quoted).0;
    if done.tasks.len() == 0 {
        assert(s.loop_stack + frames_of(done.tasks) =~= s.loop_stack);
    }
}

proof fn lemma_finish(s: StateModel, wait: WaitModel, response: ResponseModel)
    ensures
        same_frames(s, spec_finish(s, wait, response).0),
{
    reveal(spec_finish);
    let t = spec_finish(s, wait, response).0;
    match wait {
        WaitModel::Probe { token, candidates, idx } => {
            lemma_lookup(s, token);
            if idx < candidates.len() {
                lemma_exec_word(s.push(ValueModel::Str(candidates[idx as int])));
            }
            if t.tasks != s.tasks {
                assert(t.tasks.drop_last() =~= s.tasks);
            }
            lemma_asking_keeps_frames(s, t);
        },
        WaitModel::Cwd { token } => {
            lemma_lookup(s, token);
            if t.tasks != s.tasks {
                assert(t.tasks.drop_last() =~= s.tasks);
            }
            lemma_asking_keeps_frames(s, t);
        },
        WaitModel::PathVar { token } => {
            lemma_lookup(s, token);
            if t.tasks != s.tasks {
                assert(t.tasks.drop_last() =~= s.tasks);
            }
            lemma_asking_keeps_frames(s, t);
        },
        _ => {
            if t.tasks != s.tasks {
                assert(t.tasks.drop_last() =~= s.tasks);
            }
            lemma_asking_keeps_frames(s, t);
        },
    }
}

/// The host's answer is taken and the machine runs on, and frames and
/// running loops stay together.
pub proof fn resuming_keeps_the_frames(s: StateModel, response: ResponseModel, base: Seq<LoopInfo>)
    requires
        framed(s, base),
    ensures
        framed(spec_resume(s, response).0, base),
{
    if s.request is Some {
        let answered = StateModel { request: None, ..s };
        if answered.tasks.len() > 0 && answered.tasks.last() is Await {
            let rest = unscheduled(answered);
            assert(answered.tasks =~= rest.tasks.push(answered.tasks.last()));
            lemma_push_task(rest.tasks, answered.tasks.last());
            assert(framed(rest, base));
            let wait = answered.tasks.last()->Await_0;
            lemma_finish(rest, wait, response);
            lemma_settle(spec_finish(rest, wait, response), base);
        } else {
            giving_up_leaves_no_frames(answered, base);
        }
    }
}

/// While the body of a counted loop is replayed, also by way of defined
/// words, `i` pushes the index of the pass that is under way: the index
/// that the innermost running loop holds.
pub proof fn i_is_the_index_of_the_innermost_running_loop(
    s: StateModel,
    base: Seq<LoopInfo>,
    frame: LoopInfo,
)
    requires
        framed(s, base),
        frames_of(s.tasks).len() > 0,
        frames_of(s.tasks).last() == frame,
    ensures
        spec_loop_i(s) == match frame_index(frame) {
            Some(index) => (s.push(ValueModel::Int(index)), Ok::<(), Seq<char>>(())),
            None => (
                s,
                Err::<(), Seq<char>>("i: loop index not available (not a counted loop)"@),
            ),
        },
{
    assert(s.loop_stack.last() == frame);
}

} // verus!
