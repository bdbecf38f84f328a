//! Words that reach outside the interpreter: running commands, the exit
//! code, the working directory and the environment. Each asks the host and
//! says here what becomes of the answer.

use vstd::prelude::*;
use crate::host::{reason, why, Request, RequestModel, Response, ResponseModel};
use crate::machine::{Wait, WaitModel};
use crate::eval::{as_strings, push_strings};
use crate::text::{chars_of, join2, join3, sort_strings, sorted, starts_with_char, string_of};
use crate::types::{busy, outcome, Outcome, State, StateModel, Value, ValueModel};

verus! {

// ========== exec ==========

/// What `exec` takes from the stack: the values that stay, the arguments and
/// the standard input of the command, all in stack order.
pub struct Gathered {
    pub rest: Seq<ValueModel>,
    pub args: Seq<Seq<char>>,
    pub stdin: Seq<char>,
}

/// Walks the stack from the top. Every output is standard input. Every
/// string or integer is an argument, until as many as `limit` allows have
/// been taken: the next one stays, with all that lies below it.
pub open spec fn gather(stack: Seq<ValueModel>, limit: Option<usize>, count: nat) -> Gathered
    decreases stack.len(),
{
    if stack.len() == 0 {
        Gathered { rest: Seq::empty(), args: Seq::empty(), stdin: Seq::empty() }
    } else {
        match stack.last() {
            ValueModel::Output(text) => {
                let below = gather(stack.drop_last(), limit, count);
                Gathered { stdin: below.stdin + text, ..below }
            },
            v => if limit is Some && count >= limit->0 {
                Gathered { rest: stack, args: Seq::empty(), stdin: Seq::empty() }
            } else {
                let below = gather(stack.drop_last(), limit, count + 1);
                Gathered { args: below.args.push(v.text()), ..below }
            },
        }
    }
}

/// The texts of `parts` in a row, last first.
pub open spec fn joined_backwards(parts: Seq<Seq<char>>) -> Seq<char>
    decreases parts.len(),
{
    if parts.len() == 0 {
        Seq::empty()
    } else {
        parts.last() + joined_backwards(parts.drop_last())
    }
}

/// `exec` takes the command name from the top of the stack, then an
/// optional integer that limits how many arguments are taken, then gathers
/// arguments and standard input, and asks the host to run the command.
pub open spec fn spec_exec_word(s: StateModel) -> (StateModel, Outcome) {
    if s.request is Some {
        (s, Err(busy("exec"@)))
    } else if s.stack.len() == 0 {
        (s, Err("exec: stack underflow"@))
    } else {
        match s.peek(0) {
            ValueModel::Str(cmd) => {
                let s1 = s.drop(1);
                let limit: Option<usize> = if s1.stack.len() > 0 {
                    match s1.peek(0) {
                        ValueModel::Int(n) => Some(n as usize),
                        _ => None,
                    }
                } else {
                    None
                };
                let s2 = if limit is Some {
                    s1.drop(1)
                } else {
                    s1
                };
                let g = gather(s2.stack, limit, 0);
                (
                    s2.with_stack(g.rest).ask(
                        RequestModel::Run {
                            cmd,
                            args: g.args,
                            stdin: if g.stdin.len() == 0 {
                                None
                            } else {
                                Some(g.stdin)
                            },
                            quiet: false,
                        },
                        WaitModel::Ran { cmd },
                    ),
                    Ok(()),
                )
            },
            _ => (s, Err("exec: top of stack must be a string (command name)"@)),
        }
    }
}

fn reversed(v: &Vec<String>) -> (r: Vec<String>)
    ensures
        r.deep_view() == v.deep_view().reverse(),
{
    let mut r: Vec<String> = Vec::new();
    let mut i: usize = v.len();
    while i > 0
        invariant
            i <= v.len(),
            r.len() == v.len() - i,
            forall|k: int| 0 <= k < r.len() ==> r@[k]@ == v@[v.len() - 1 - k]@,
        decreases i,
    {
        i = i - 1;
        r.push(v[i].clone());
    }
    assert(r.deep_view() =~= v.deep_view().reverse());
    r
}

fn join_backwards(parts: &Vec<String>) -> (r: String)
    ensures
        r@ == joined_backwards(parts.deep_view()),
{
    let mut r = String::new();
    let mut i: usize = parts.len();
    assert(parts.deep_view().take(parts.len() as int) =~= parts.deep_view());
    while i > 0
        invariant
            i <= parts.len(),
            r@ + joined_backwards(parts.deep_view().take(i as int)) == joined_backwards(
                parts.deep_view(),
            ),
        decreases i,
    {
        proof {
            let t = parts.deep_view().take(i as int);
            assert(t.drop_last() =~= parts.deep_view().take(i - 1));
            assert(t.last() == parts@[i - 1]@);
            assert(r@ + (t.last() + joined_backwards(t.drop_last())) =~= (r@ + t.last())
                + joined_backwards(t.drop_last()));
        }
        i = i - 1;
        r.append(parts[i].as_str());
    }
    assert(r@ + Seq::<char>::empty() =~= r@);
    r
}

/// `exec` ( args... cmd -- output ) Execute shell command with arguments from stack.
///
/// Stack layout: top is the command, below it are arguments and optional depth limit.
/// - `Output` values on the stack are concatenated and piped as stdin.
/// - `Str` and `Int` values are collected as command arguments.
/// - An `Int` immediately after the command name acts as a depth limit.
pub fn exec_word(state: &mut State) -> (r: Result<(), String>)
    ensures
        (final(state)@, outcome(r)) == spec_exec_word(old(state)@),
{
    if state.request.is_some() {
        return Err(join2("exec", ": a request to the host is pending"));
    }
    let cmd = match state.pop() {
        Some(Value::Str(s)) => s,
        Some(other) => {
            state.push(other);
            assert(state@.stack =~= old(state)@.stack);
            return Err("exec: top of stack must be a string (command name)".to_string());
        },
        None => return Err("exec: stack underflow".to_string()),
    };
    let n = state.stack.len();
    let mut limit: Option<usize> = None;
    if n > 0 {
        if let Value::Int(k) = &state.stack[n - 1] {
            limit = Some(#[verifier::truncate] (*k as usize));
        }
    }
    if limit.is_some() {
        let _ = state.pop();
    }
    let ghost s2 = state@;
    let ghost full = gather(s2.stack, limit, 0);
    assert(s2.stack.len() == state.stack.len());
    // Arguments and input parts, topmost first.
    let mut args: Vec<String> = Vec::new();
    let mut parts: Vec<String> = Vec::new();
    let mut count: usize = 0;
    proof {
        assert(full.args + args.deep_view().reverse() =~= full.args);
        assert(full.stdin + joined_backwards(parts.deep_view()) =~= full.stdin);
    }
    loop
        invariant
            state@ == s2.with_stack(state@.stack),
            s2.stack.len() <= usize::MAX,
            count + state@.stack.len() <= s2.stack.len(),
            full == gather(s2.stack, limit, 0),
            full.rest == gather(state@.stack, limit, count as nat).rest,
            full.args == gather(state@.stack, limit, count as nat).args + args.deep_view().reverse(),
            full.stdin == gather(state@.stack, limit, count as nat).stdin + joined_backwards(
                parts.deep_view(),
            ),
        ensures
            gather(state@.stack, limit, count as nat).args == Seq::<Seq<char>>::empty(),
            gather(state@.stack, limit, count as nat).stdin == Seq::<char>::empty(),
            gather(state@.stack, limit, count as nat).rest == state@.stack,
        decreases state@.stack.len(),
    {
        let ghost cur = state@.stack;
        let ghost g = gather(cur, limit, count as nat);
        let ghost args0 = args.deep_view();
        let ghost parts0 = parts.deep_view();
        match state.pop() {
            None => {
                assert(state@.stack =~= Seq::<ValueModel>::empty());
                break ;
            },
            Some(Value::Output(text)) => {
                proof {
                    let below = gather(cur.drop_last(), limit, count as nat);
                    assert(state@.stack =~= cur.drop_last());
                    assert(parts0.push(text@).drop_last() =~= parts0);
                    assert((below.stdin + text@) + joined_backwards(parts0) =~= below.stdin + (text@
                        + joined_backwards(parts0)));
                }
                parts.push(text);
                assert(parts.deep_view() =~= parts0.push(text@));
            },
            Some(val) => {
                let stop = match limit {
                    Some(l) => count >= l,
                    None => false,
                };
                if stop {
                    state.push(val);
                    assert(state@.stack =~= cur);
                    break ;
                }
                proof {
                    let below = gather(cur.drop_last(), limit, count as nat + 1);
                    assert(state@.stack =~= cur.drop_last());
                    assert(args0.push(val@.text()).reverse() =~= seq![val@.text()] + args0.reverse());
                    assert(below.args.push(val@.text()) + args0.reverse() =~= below.args + (
                    seq![val@.text()] + args0.reverse()));
                }
                let text = val.to_string();
                args.push(text);
                assert(args.deep_view() =~= args0.push(val@.text()));
                count = count + 1;
            },
        }
    }
    let args = reversed(&args);
    let data = join_backwards(&parts);
    let stdin = if data.as_str().is_empty() {
        None
    } else {
        Some(data)
    };
    proof {
        assert(full.args =~= args.deep_view());
        assert(full.stdin =~= data@);
    }
    let wait = Wait::Ran { cmd: cmd.clone() };
    state.ask(Request::Run { cmd, args, stdin, quiet: false }, wait);
    Ok(())
}

/// What becomes of the host's answer to `exec`: the output of the command
/// is pushed and its exit code kept, 128 where a signal ended it. Where the
/// command could not be run the exit code is 127.
pub open spec fn spec_finish_exec(s: StateModel, cmd: Seq<char>, response: ResponseModel) -> (
    StateModel,
    Outcome,
) {
    match response {
        ResponseModel::Ran { stdout, code } => (
            StateModel {
                last_exit_code: match code {
                    Some(c) => c,
                    None => 128,
                },
                ..s
            }.push(ValueModel::Output(stdout)),
            Ok(()),
        ),
        _ => (
            StateModel { last_exit_code: 127, ..s },
            Err("exec: "@ + cmd + ": "@ + why(response)),
        ),
    }
}

/// Takes the host's answer to `exec`.
pub fn finish_exec(state: &mut State, cmd: &str, response: Response) -> (r: Result<(), String>)
    ensures
        (final(state)@, outcome(r)) == spec_finish_exec(old(state)@, cmd@, response@),
{
    match response {
        Response::Ran { stdout, code } => {
            state.last_exit_code = match code {
                Some(c) => c,
                None => 128,
            };
            state.push(Value::Output(stdout));
            Ok(())
        },
        other => {
            state.last_exit_code = 127;
            let mut msg = crate::text::join3("exec: ", cmd, ": ");
            msg.append(reason(other).as_str());
            Err(msg)
        },
    }
}

/// `?` pushes the exit code of the last command.
pub open spec fn spec_exit_code(s: StateModel) -> (StateModel, Outcome) {
    (s.push(ValueModel::Int(s.last_exit_code as i64)), Ok(()))
}

/// `?` ( -- code ) Push exit code of last command.
pub fn exit_code(state: &mut State) -> (r: Result<(), String>)
    ensures
        (final(state)@, outcome(r)) == spec_exit_code(old(state)@),
{
    state.push(Value::Int(state.last_exit_code as i64));
    Ok(())
}

// ========== Directories ==========

/// True when a path begins with `~`, which stands for the home directory.
pub open spec fn has_tilde(path: Seq<char>) -> bool {
    path.len() > 0 && path[0] == '~'
}

/// A path that begins with `~`, with the home directory in its place. Where
/// the home directory is not known the path stays as it is.
pub open spec fn spec_expand_tilde(path: Seq<char>, home: Option<Seq<char>>) -> Seq<char> {
    match home {
        Some(h) => if has_tilde(path) {
            h + path.skip(1)
        } else {
            path
        },
        None => path,
    }
}

/// Expand `~` to the home directory at the start of a path.
pub fn expand_tilde(path: &str, home: Option<&str>) -> (r: String)
    ensures
        r@ == spec_expand_tilde(path@, home.deep_view()),
{
    match home {
        Some(h) => {
            let v = chars_of(path);
            if v.len() > 0 && v[0] == '~' {
                let rest = string_of(&v, 1, v.len());
                assert(v@.subrange(1, v.len() as int) =~= path@.skip(1));
                join2(h, rest.as_str())
            } else {
                path.to_string()
            }
        },
        None => path.to_string(),
    }
}

/// The home directory that the host's answer gives, if it gives one.
pub open spec fn home_of(response: ResponseModel) -> Option<Seq<char>> {
    match response {
        ResponseModel::Text(h) => Some(h),
        _ => None,
    }
}

fn expand_with(path: &str, response: Response) -> (r: String)
    ensures
        r@ == spec_expand_tilde(path@, home_of(response@)),
{
    match response {
        Response::Text(h) => expand_tilde(path, Some(h.as_str())),
        _ => expand_tilde(path, None),
    }
}

/// The state after asking for the working directory to be changed to
/// `path` on behalf of `word`.
pub open spec fn changing_dir(s: StateModel, word: Seq<char>, path: Seq<char>) -> (
    StateModel,
    Outcome,
) {
    (s.ask(RequestModel::ChangeDir(path), WaitModel::Cd { word, path }), Ok(()))
}

fn change_dir(state: &mut State, word: &str, path: String)
    ensures
        (final(state)@, Ok::<(), Seq<char>>(())) == changing_dir(old(state)@, word@, path@),
{
    let wait = Wait::Cd { word: word.to_string(), path: path.clone() };
    state.ask(Request::ChangeDir(path), wait);
}

/// `cd` pops a path and asks for the working directory to be changed to
/// it. For a path that begins with `~` the home directory is asked for
/// first. A value that is no string is an error, and is gone.
pub open spec fn spec_cd(s: StateModel) -> (StateModel, Outcome) {
    if s.request is Some {
        (s, Err(busy("cd"@)))
    } else if s.stack.len() == 0 {
        (s, Err("cd: stack underflow"@))
    } else {
        match s.peek(0) {
            ValueModel::Str(path) => if has_tilde(path) {
                (
                    s.drop(1).ask(
                        RequestModel::EnvVar("HOME"@),
                        WaitModel::CdHome { rest: path },
                    ),
                    Ok(()),
                )
            } else {
                changing_dir(s.drop(1), "cd"@, path)
            },
            _ => (s.drop(1), Err("cd: requires string"@)),
        }
    }
}

/// `cd` ( path -- ) Change directory.
pub fn cd(state: &mut State) -> (r: Result<(), String>)
    ensures
        (final(state)@, outcome(r)) == spec_cd(old(state)@),
{
    if state.request.is_some() {
        return Err(join2("cd", ": a request to the host is pending"));
    }
    match state.pop() {
        None => Err("cd: stack underflow".to_string()),
        Some(Value::Str(path)) => {
            if starts_with_char(path.as_str(), '~') {
                state.ask(Request::EnvVar("HOME".to_string()), Wait::CdHome { rest: path });
            } else {
                change_dir(state, "cd", path);
            }
            Ok(())
        },
        Some(_) => Err("cd: requires string".to_string()),
    }
}

/// The answer to `cd`'s question for the home directory: the change to
/// the expanded path is asked for.
pub open spec fn spec_finish_cd_home(s: StateModel, path: Seq<char>, response: ResponseModel) -> (
    StateModel,
    Outcome,
) {
    changing_dir(s, "cd"@, spec_expand_tilde(path, home_of(response)))
}

/// Takes the answer to `cd`'s question for the home directory.
pub fn finish_cd_home(state: &mut State, path: &str, response: Response) -> (r: Result<(), String>)
    ensures
        (final(state)@, outcome(r)) == spec_finish_cd_home(old(state)@, path@, response@),
{
    change_dir(state, "cd", expand_with(path, response));
    Ok(())
}

/// `pushd` pops a path and asks for the working directory, which is the
/// one to come back to. A value that is no string stays where it is.
pub open spec fn spec_pushd(s: StateModel) -> (StateModel, Outcome) {
    if s.request is Some {
        (s, Err(busy("pushd"@)))
    } else if s.stack.len() == 0 {
        (s, Err("pushd: stack underflow"@))
    } else {
        match s.peek(0) {
            ValueModel::Str(path) => (
                s.drop(1).ask(RequestModel::CurrentDir, WaitModel::PushdCwd { path }),
                Ok(()),
            ),
            _ => (s, Err("pushd: requires string"@)),
        }
    }
}

/// `pushd` ( path -- ) Push current directory and change to path.
pub fn pushd(state: &mut State) -> (r: Result<(), String>)
    ensures
        (final(state)@, outcome(r)) == spec_pushd(old(state)@),
{
    if state.request.is_some() {
        return Err(join2("pushd", ": a request to the host is pending"));
    }
    match state.pop() {
        None => Err("pushd: stack underflow".to_string()),
        Some(Value::Str(path)) => {
            state.ask(Request::CurrentDir, Wait::PushdCwd { path });
            Ok(())
        },
        Some(other) => {
            state.push(other);
            assert(state@.stack =~= old(state)@.stack);
            Err("pushd: requires string".to_string())
        },
    }
}

/// The state after `pushd`, which came from `current`, asks for the
/// working directory to be changed to `path`.
pub open spec fn pushing_dir(s: StateModel, current: Seq<char>, path: Seq<char>) -> (
    StateModel,
    Outcome,
) {
    (s.ask(RequestModel::ChangeDir(path), WaitModel::Pushd { current, path }), Ok(()))
}

/// The answer to `pushd`'s question for the working directory. With it,
/// the change is asked for, after the home directory where the path
/// begins with `~`. Without it `pushd` fails.
pub open spec fn spec_finish_pushd_cwd(s: StateModel, path: Seq<char>, response: ResponseModel) -> (
    StateModel,
    Outcome,
) {
    match response {
        ResponseModel::Text(current) => if has_tilde(path) {
            (
                s.ask(
                    RequestModel::EnvVar("HOME"@),
                    WaitModel::PushdHome { current, rest: path },
                ),
                Ok(()),
            )
        } else {
            pushing_dir(s, current, path)
        },
        _ => (s, Err("pushd: "@ + why(response))),
    }
}

/// Takes the answer to `pushd`'s question for the working directory.
pub fn finish_pushd_cwd(state: &mut State, path: String, response: Response) -> (r: Result<
    (),
    String,
>)
    ensures
        (final(state)@, outcome(r)) == spec_finish_pushd_cwd(old(state)@, path@, response@),
{
    match response {
        Response::Text(current) => {
            if starts_with_char(path.as_str(), '~') {
                state.ask(
                    Request::EnvVar("HOME".to_string()),
                    Wait::PushdHome { current, rest: path },
                );
            } else {
                let wait = Wait::Pushd { current, path: path.clone() };
                state.ask(Request::ChangeDir(path), wait);
            }
            Ok(())
        },
        other => Err(join2("pushd: ", reason(other).as_str())),
    }
}

/// The answer to `pushd`'s question for the home directory.
pub open spec fn spec_finish_pushd_home(
    s: StateModel,
    current: Seq<char>,
    path: Seq<char>,
    response: ResponseModel,
) -> (StateModel, Outcome) {
    pushing_dir(s, current, spec_expand_tilde(path, home_of(response)))
}

/// Takes the answer to `pushd`'s question for the home directory.
pub fn finish_pushd_home(state: &mut State, current: String, path: &str, response: Response) -> (r:
    Result<(), String>)
    ensures
        (final(state)@, outcome(r)) == spec_finish_pushd_home(
            old(state)@,
            current@,
            path@,
            response@,
        ),
{
    let expanded = expand_with(path, response);
    let wait = Wait::Pushd { current, path: expanded.clone() };
    state.ask(Request::ChangeDir(expanded), wait);
    Ok(())
}

/// The answer to `pushd`'s change of directory: once it is made, the
/// directory that `pushd` came from goes on the directory stack.
pub open spec fn spec_finish_pushd(
    s: StateModel,
    current: Seq<char>,
    path: Seq<char>,
    response: ResponseModel,
) -> (StateModel, Outcome) {
    match response {
        ResponseModel::Done => (StateModel { dir_stack: s.dir_stack.push(current), ..s }, Ok(())),
        _ => (s, Err("pushd: "@ + path + ": "@ + why(response))),
    }
}

/// Takes the answer to `pushd`'s change of directory.
pub fn finish_pushd(state: &mut State, current: String, path: &str, response: Response) -> (r: Result<
    (),
    String,
>)
    ensures
        (final(state)@, outcome(r)) == spec_finish_pushd(old(state)@, current@, path@, response@),
{
    match response {
        Response::Done => {
            state.dir_stack.push(current);
            assert(state@.dir_stack =~= old(state)@.dir_stack.push(current@));
            Ok(())
        },
        other => {
            let mut msg = join3("pushd: ", path, ": ");
            msg.append(reason(other).as_str());
            Err(msg)
        },
    }
}

/// `popd` takes the last directory off the directory stack and asks for
/// the working directory to be changed to it.
pub open spec fn spec_popd(s: StateModel) -> (StateModel, Outcome) {
    if s.request is Some {
        (s, Err(busy("popd"@)))
    } else if s.dir_stack.len() == 0 {
        (s, Err("popd: directory stack empty"@))
    } else {
        changing_dir(
            StateModel { dir_stack: s.dir_stack.drop_last(), ..s },
            "popd"@,
            s.dir_stack.last(),
        )
    }
}

/// `popd` ( -- ) Pop directory from stack and change to it.
pub fn popd(state: &mut State) -> (r: Result<(), String>)
    ensures
        (final(state)@, outcome(r)) == spec_popd(old(state)@),
{
    if state.request.is_some() {
        return Err(join2("popd", ": a request to the host is pending"));
    }
    match state.dir_stack.pop() {
        Some(dir) => {
            assert(state@.dir_stack =~= old(state)@.dir_stack.drop_last());
            change_dir(state, "popd", dir);
            Ok(())
        },
        None => Err("popd: directory stack empty".to_string()),
    }
}

// ========== Environment variables ==========

/// `getenv` pops the name of a variable and asks for its value. A value
/// that is no string stays where it is.
pub open spec fn spec_getenv(s: StateModel) -> (StateModel, Outcome) {
    if s.request is Some {
        (s, Err(busy("getenv"@)))
    } else if s.stack.len() == 0 {
        (s, Err("getenv: stack underflow"@))
    } else {
        match s.peek(0) {
            ValueModel::Str(key) => (
                s.drop(1).ask(RequestModel::EnvVar(key), WaitModel::Getenv),
                Ok(()),
            ),
            _ => (s, Err("getenv: requires string"@)),
        }
    }
}

/// `getenv` ( key -- value ) Get environment variable (empty string if unset).
pub fn getenv(state: &mut State) -> (r: Result<(), String>)
    ensures
        (final(state)@, outcome(r)) == spec_getenv(old(state)@),
{
    if state.request.is_some() {
        return Err(join2("getenv", ": a request to the host is pending"));
    }
    match state.pop() {
        None => Err("getenv: stack underflow".to_string()),
        Some(Value::Str(key)) => {
            state.ask(Request::EnvVar(key), Wait::Getenv);
            Ok(())
        },
        Some(other) => {
            state.push(other);
            assert(state@.stack =~= old(state)@.stack);
            Err("getenv: requires string".to_string())
        },
    }
}

/// The answer to `getenv`: the value is pushed as a string, the empty
/// string where the variable is not set.
pub open spec fn spec_finish_getenv(s: StateModel, response: ResponseModel) -> (StateModel, Outcome) {
    match response {
        ResponseModel::Text(value) => (s.push(ValueModel::Str(value)), Ok(())),
        _ => (s.push(ValueModel::Str(Seq::empty())), Ok(())),
    }
}

/// Takes the answer to `getenv`.
pub fn finish_getenv(state: &mut State, response: Response) -> (r: Result<(), String>)
    ensures
        (final(state)@, outcome(r)) == spec_finish_getenv(old(state)@, response@),
{
    match response {
        Response::Text(value) => state.push(Value::Str(value)),
        _ => state.push(Value::Str(String::new())),
    }
    Ok(())
}

/// The two strings that a word on variables takes: the value below, the
/// name of the variable on top. With anything else the stack stays as it
/// is.
pub open spec fn spec_pop_value_key(s: StateModel, op: Seq<char>) -> (
    StateModel,
    Result<(Seq<char>, Seq<char>), Seq<char>>,
) {
    if s.request is Some {
        (s, Err(busy(op)))
    } else if s.stack.len() < 2 {
        (s, Err(op + ": stack underflow"@))
    } else {
        match (s.peek(1), s.peek(0)) {
            (ValueModel::Str(value), ValueModel::Str(key)) => (s.drop(2), Ok((value, key))),
            _ => (s, Err(op + ": requires two strings (value key)"@)),
        }
    }
}

/// The model of a result that holds two strings.
pub open spec fn texts_outcome(r: Result<(String, String), String>) -> Result<
    (Seq<char>, Seq<char>),
    Seq<char>,
> {
    match r {
        Ok(p) => Ok((p.0@, p.1@)),
        Err(e) => Err(e@),
    }
}

fn pop_value_key(state: &mut State, op: &str) -> (r: Result<(String, String), String>)
    ensures
        (final(state)@, texts_outcome(r)) == spec_pop_value_key(old(state)@, op@),
{
    if state.request.is_some() {
        return Err(join2(op, ": a request to the host is pending"));
    }
    if state.stack.len() < 2 {
        return Err(join2(op, ": stack underflow"));
    }
    let key = state.pop().unwrap();
    let value = state.pop().unwrap();
    assert(state@.stack =~= old(state)@.drop(2).stack);
    match (value, key) {
        (Value::Str(v), Value::Str(k)) => Ok((v, k)),
        (v, k) => {
            state.push(v);
            state.push(k);
            assert(state@.stack =~= old(state)@.stack);
            Err(join2(op, ": requires two strings (value key)"))
        },
    }
}

/// `setenv` takes a value and a name and asks for the variable to be set.
pub open spec fn spec_setenv(s: StateModel) -> (StateModel, Outcome) {
    match spec_pop_value_key(s, "setenv"@) {
        (s1, Ok((value, key))) => (
            s1.ask(RequestModel::SetEnv { key, value }, WaitModel::Nothing),
            Ok(()),
        ),
        (s1, Err(e)) => (s1, Err(e)),
    }
}

/// `setenv` ( value key -- ) Set environment variable.
pub fn setenv(state: &mut State) -> (r: Result<(), String>)
    ensures
        (final(state)@, outcome(r)) == spec_setenv(old(state)@),
{
    let (value, key) = pop_value_key(state, "setenv")?;
    state.ask(Request::SetEnv { key, value }, Wait::Nothing);
    Ok(())
}

/// `unsetenv` pops a name and asks for the variable to be removed. A
/// value that is no string stays where it is.
pub open spec fn spec_unsetenv(s: StateModel) -> (StateModel, Outcome) {
    if s.request is Some {
        (s, Err(busy("unsetenv"@)))
    } else if s.stack.len() == 0 {
        (s, Err("unsetenv: stack underflow"@))
    } else {
        match s.peek(0) {
            ValueModel::Str(key) => (
                s.drop(1).ask(RequestModel::UnsetEnv(key), WaitModel::Nothing),
                Ok(()),
            ),
            _ => (s, Err("unsetenv: requires string"@)),
        }
    }
}

/// `unsetenv` ( key -- ) Unset environment variable.
pub fn unsetenv(state: &mut State) -> (r: Result<(), String>)
    ensures
        (final(state)@, outcome(r)) == spec_unsetenv(old(state)@),
{
    if state.request.is_some() {
        return Err(join2("unsetenv", ": a request to the host is pending"));
    }
    match state.pop() {
        None => Err("unsetenv: stack underflow".to_string()),
        Some(Value::Str(key)) => {
            state.ask(Request::UnsetEnv(key), Wait::Nothing);
            Ok(())
        },
        Some(other) => {
            state.push(other);
            assert(state@.stack =~= old(state)@.stack);
            Err("unsetenv: requires string".to_string())
        },
    }
}

/// A word that takes a value and a name and asks for what the variable
/// holds, to join the value to it.
pub open spec fn spec_env_join(s: StateModel, op: Seq<char>, append: bool) -> (StateModel, Outcome) {
    match spec_pop_value_key(s, op) {
        (s1, Ok((value, key))) => (
            s1.ask(RequestModel::EnvVar(key), WaitModel::EnvJoin { key, value, append }),
            Ok(()),
        ),
        (s1, Err(e)) => (s1, Err(e)),
    }
}

fn env_join(state: &mut State, op: &str, append: bool) -> (r: Result<(), String>)
    ensures
        (final(state)@, outcome(r)) == spec_env_join(old(state)@, op@, append),
{
    let (value, key) = pop_value_key(state, op)?;
    state.ask(Request::EnvVar(key.clone()), Wait::EnvJoin { key, value, append });
    Ok(())
}

/// `env-append` joins a value behind what a variable holds.
pub open spec fn spec_env_append(s: StateModel) -> (StateModel, Outcome) {
    spec_env_join(s, "env-append"@, true)
}

/// `env-append` ( value key -- ) Append value to colon-separated env var.
pub fn env_append(state: &mut State) -> (r: Result<(), String>)
    ensures
        (final(state)@, outcome(r)) == spec_env_append(old(state)@),
{
    env_join(state, "env-append", true)
}

/// `env-prepend` joins a value before what a variable holds.
pub open spec fn spec_env_prepend(s: StateModel) -> (StateModel, Outcome) {
    spec_env_join(s, "env-prepend"@, false)
}

/// `env-prepend` ( value key -- ) Prepend value to colon-separated env var.
pub fn env_prepend(state: &mut State) -> (r: Result<(), String>)
    ensures
        (final(state)@, outcome(r)) == spec_env_prepend(old(state)@),
{
    env_join(state, "env-prepend", false)
}

/// What a colon-separated variable holds after `value` is joined to it:
/// behind what it held and a colon, or before a colon and what it held;
/// the value alone where the variable was not set.
pub open spec fn joined_value(value: Seq<char>, append: bool, response: ResponseModel) -> Seq<char> {
    match response {
        ResponseModel::Text(existing) => if append {
            existing + ":"@ + value
        } else {
            value + ":"@ + existing
        },
        _ => value,
    }
}

/// The answer to the question for what a variable holds: the variable is
/// set to the joined value.
pub open spec fn spec_finish_env_join(
    s: StateModel,
    key: Seq<char>,
    value: Seq<char>,
    append: bool,
    response: ResponseModel,
) -> (StateModel, Outcome) {
    (
        s.ask(
            RequestModel::SetEnv { key, value: joined_value(value, append, response) },
            WaitModel::Nothing,
        ),
        Ok(()),
    )
}

/// Takes the answer to the question for what a variable holds.
pub fn finish_env_join(
    state: &mut State,
    key: String,
    value: String,
    append: bool,
    response: Response,
) -> (r: Result<(), String>)
    ensures
        (final(state)@, outcome(r)) == spec_finish_env_join(
            old(state)@,
            key@,
            value@,
            append,
            response@,
        ),
{
    let joined = match response {
        Response::Text(existing) => {
            if append {
                join3(existing.as_str(), ":", value.as_str())
            } else {
                join3(value.as_str(), ":", existing.as_str())
            }
        },
        _ => value,
    };
    state.ask(Request::SetEnv { key, value: joined }, Wait::Nothing);
    Ok(())
}

/// `env` asks for all variables.
pub open spec fn spec_env_all(s: StateModel) -> (StateModel, Outcome) {
    if s.request is Some {
        (s, Err(busy("env"@)))
    } else {
        (s.ask(RequestModel::EnvVars, WaitModel::EnvAll), Ok(()))
    }
}

/// `env` ( -- vars... ) Push all environment variables onto stack.
pub fn env_all(state: &mut State) -> (r: Result<(), String>)
    ensures
        (final(state)@, outcome(r)) == spec_env_all(old(state)@),
{
    if state.request.is_some() {
        return Err(join2("env", ": a request to the host is pending"));
    }
    state.ask(Request::EnvVars, Wait::EnvAll);
    Ok(())
}

/// Each variable as `name=value`.
pub open spec fn assignments(pairs: Seq<(Seq<char>, Seq<char>)>) -> Seq<Seq<char>> {
    pairs.map_values(|p: (Seq<char>, Seq<char>)| p.0 + "="@ + p.1)
}

/// The answer to `env`: each variable is pushed as a string of the form
/// `name=value`, in the order of strings.
pub open spec fn spec_finish_env_all(s: StateModel, response: ResponseModel) -> (StateModel, Outcome) {
    match response {
        ResponseModel::Pairs(pairs) => (
            s.with_stack(s.stack + as_strings(sorted(assignments(pairs)))),
            Ok(()),
        ),
        _ => (s, Err("env: "@ + why(response))),
    }
}

/// Takes the answer to `env`.
pub fn finish_env_all(state: &mut State, response: Response) -> (r: Result<(), String>)
    ensures
        (final(state)@, outcome(r)) == spec_finish_env_all(old(state)@, response@),
{
    match response {
        Response::Pairs(pairs) => {
            let mut vars: Vec<String> = Vec::new();
            let mut i: usize = 0;
            while i < pairs.len()
                invariant
                    i <= pairs.len(),
                    vars.len() == i,
                    forall|k: int| 0 <= k < i ==> vars@[k]@ == pairs@[k].0@ + "="@ + pairs@[k].1@,
                decreases pairs.len() - i,
            {
                vars.push(join3(pairs[i].0.as_str(), "=", pairs[i].1.as_str()));
                i = i + 1;
            }
            assert(vars.deep_view() =~= assignments(pairs.deep_view()));
            let vars = sort_strings(vars);
            push_strings(state, &vars);
            Ok(())
        },
        other => Err(join2("env: ", reason(other).as_str())),
    }
}

} // verus!
