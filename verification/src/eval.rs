//! The token dispatcher: the decision, for one token, whether it is collected
//! into an open construct, skipped, or executed, and what executing it means.

use vstd::prelude::*;
use crate::builtins::system::{exec_word, spec_exec_word};
use crate::builtins::{run_builtin, spec_run_builtin};
use crate::glob::{
    expand_names, glob_dir, glob_file_pattern, glob_results, has_glob_chars, spec_has_glob_chars,
    split_pattern,
};
use crate::host::{Request, RequestModel, Response, ResponseModel};
use crate::loops::{
    collect_each_token, collect_loop_token, spec_collect_each_token, spec_collect_loop_token,
};
use crate::machine::{engaged, engaged_error, settle, spec_settle, Task, TaskModel, Wait, WaitModel};
use crate::text::{
    chars_of, has_char, join2, join3, parse_int, split_at_char, split_on, starts_with_char, str_eq,
    to_int,
};
use crate::tokenizer::{spec_tokenize, tokenize};
use crate::types::{
    busy, outcome, pending_name, ControlFlow, LoopType, Outcome, SkipTarget, State, StateModel,
    Value, ValueModel, Word, WordModel,
};

verus! {

// ========== PATH lookup ==========

/// `cmd` as a path below `cwd`: the two joined by a slash, unless `cwd` is
/// empty or ends with one.
pub open spec fn join_path(cwd: Seq<char>, cmd: Seq<char>) -> Seq<char> {
    if cwd.len() == 0 || cwd.last() == '/' {
        cwd + cmd
    } else {
        cwd + "/"@ + cmd
    }
}

fn path_below(cwd: &str, cmd: &str) -> (r: String)
    ensures
        r@ == join_path(cwd@, cmd@),
{
    let v = chars_of(cwd);
    if v.len() == 0 || v[v.len() - 1] == '/' {
        join2(cwd, cmd)
    } else {
        join3(cwd, "/", cmd)
    }
}

/// Where a command may be found on the search path: in each directory of
/// the path, in order, under its own name.
pub open spec fn candidates_in(dirs: Seq<Seq<char>>, cmd: Seq<char>) -> Seq<Seq<char>> {
    dirs.map_values(|dir: Seq<char>| dir + "/"@ + cmd)
}

fn candidates(path: &str, cmd: &str) -> (r: Vec<String>)
    ensures
        r.deep_view() == candidates_in(split_on(path@, ':'), cmd@),
{
    let dirs = split_at_char(path, ':');
    let mut r: Vec<String> = Vec::new();
    let mut i: usize = 0;
    while i < dirs.len()
        invariant
            i <= dirs.len(),
            r.len() == i,
            forall|k: int| 0 <= k < i ==> r@[k]@ == dirs@[k]@ + "/"@ + cmd@,
        decreases dirs.len() - i,
    {
        r.push(join3(dirs[i].as_str(), "/", cmd));
        i = i + 1;
    }
    assert(r.deep_view() =~= candidates_in(dirs.deep_view(), cmd@));
    r
}

/// The state after asking whether `candidates[idx]` is the executable that
/// the bare word `token` names.
pub open spec fn probing(s: StateModel, token: Seq<char>, candidates: Seq<Seq<char>>, idx: int) -> (
    StateModel,
    Outcome,
) {
    (
        s.ask(
            RequestModel::IsExecutable(candidates[idx]),
            WaitModel::Probe { token, candidates, idx: idx as usize },
        ),
        Ok(()),
    )
}

fn probe(state: &mut State, token: String, candidates: Vec<String>, idx: usize)
    requires
        idx < candidates.len(),
    ensures
        (final(state)@, Ok::<(), Seq<char>>(())) == probing(
            old(state)@,
            token@,
            candidates.deep_view(),
            idx as int,
        ),
{
    let path = candidates[idx].clone();
    state.ask(Request::IsExecutable(path), Wait::Probe { token, candidates, idx });
}

/// The search for the command that a bare word names begins. A word that
/// starts with a slash is probed as it is. A word that holds a slash is
/// taken below the working directory, which is asked for. Any other word is
/// looked up on the search path, which is asked for.
pub open spec fn spec_find_in_path(s: StateModel, token: Seq<char>) -> (StateModel, Outcome) {
    if s.request is Some {
        (s, Err(busy("eval"@)))
    } else if token.len() > 0 && token[0] == '/' {
        probing(s, token, seq![token], 0)
    } else if token.contains('/') {
        (s.ask(RequestModel::CurrentDir, WaitModel::Cwd { token }), Ok(()))
    } else {
        (s.ask(RequestModel::EnvVar("PATH"@), WaitModel::PathVar { token }), Ok(()))
    }
}

/// Begins the search for the command that a bare word names.
pub fn find_in_path(state: &mut State, token: &str) -> (r: Result<(), String>)
    ensures
        (final(state)@, outcome(r)) == spec_find_in_path(old(state)@, token@),
{
    if state.request.is_some() {
        return Err(join2("eval", ": a request to the host is pending"));
    }
    if starts_with_char(token, '/') {
        let mut one: Vec<String> = Vec::new();
        one.push(token.to_string());
        assert(one.deep_view() =~= seq![token@]);
        probe(state, token.to_string(), one, 0);
    } else if has_char(token, '/') {
        state.ask(Request::CurrentDir, Wait::Cwd { token: token.to_string() });
    } else {
        state.ask(Request::EnvVar("PATH".to_string()), Wait::PathVar { token: token.to_string() });
    }
    Ok(())
}

/// A bare word that names no command: a pattern has its directory listed,
/// anything else is pushed as a string.
pub open spec fn spec_expand_or_push(s: StateModel, token: Seq<char>) -> (StateModel, Outcome) {
    if spec_has_glob_chars(token) {
        (
            s.ask(
                RequestModel::ReadDir(glob_dir(token)),
                WaitModel::Glob {
                    token,
                    dir: glob_dir(token),
                    pattern: glob_file_pattern(token),
                },
            ),
            Ok(()),
        )
    } else {
        (s.push(ValueModel::Str(token)), Ok(()))
    }
}

/// Takes a bare word that names no command.
pub fn expand_or_push(state: &mut State, token: String) -> (r: Result<(), String>)
    ensures
        (final(state)@, outcome(r)) == spec_expand_or_push(old(state)@, token@),
{
    if has_glob_chars(token.as_str()) {
        let (dir, pattern) = split_pattern(token.as_str());
        state.ask(Request::ReadDir(dir.clone()), Wait::Glob { token, dir, pattern });
    } else {
        state.push(Value::Str(token));
    }
    Ok(())
}

/// The answer to a probe. A yes has the path pushed and the command run. A
/// no moves on to the next candidate; after the last one the word names no
/// command.
pub open spec fn spec_finish_probe(
    s: StateModel,
    token: Seq<char>,
    candidates: Seq<Seq<char>>,
    idx: usize,
    response: ResponseModel,
) -> (StateModel, Outcome) {
    if response == ResponseModel::Flag(true) && idx < candidates.len() {
        spec_exec_word(s.push(ValueModel::Str(candidates[idx as int])))
    } else if idx + 1 < candidates.len() {
        probing(s, token, candidates, idx + 1)
    } else {
        spec_expand_or_push(s, token)
    }
}

/// Takes the answer to a probe.
pub fn finish_probe(
    state: &mut State,
    token: String,
    candidates: Vec<String>,
    idx: usize,
    response: Response,
) -> (r: Result<(), String>)
    ensures
        (final(state)@, outcome(r)) == spec_finish_probe(
            old(state)@,
            token@,
            candidates.deep_view(),
            idx,
            response@,
        ),
{
    let yes = match response {
        Response::Flag(b) => b,
        _ => false,
    };
    if yes && idx < candidates.len() {
        state.push(Value::Str(candidates[idx].clone()));
        exec_word(state)
    } else if idx < usize::MAX && idx + 1 < candidates.len() {
        probe(state, token, candidates, idx + 1);
        Ok(())
    } else {
        expand_or_push(state, token)
    }
}

/// The answer to the question for the working directory: the word is
/// probed below it. Without a working directory the word names no command.
pub open spec fn spec_finish_cwd(s: StateModel, token: Seq<char>, response: ResponseModel) -> (
    StateModel,
    Outcome,
) {
    match response {
        ResponseModel::Text(cwd) => probing(s, token, seq![join_path(cwd, token)], 0),
        _ => spec_expand_or_push(s, token),
    }
}

/// Takes the answer to the question for the working directory.
pub fn finish_cwd(state: &mut State, token: String, response: Response) -> (r: Result<(), String>)
    ensures
        (final(state)@, outcome(r)) == spec_finish_cwd(old(state)@, token@, response@),
{
    match response {
        Response::Text(cwd) => {
            let mut one: Vec<String> = Vec::new();
            one.push(path_below(cwd.as_str(), token.as_str()));
            assert(one.deep_view() =~= seq![join_path(cwd@, token@)]);
            probe(state, token, one, 0);
            Ok(())
        },
        _ => expand_or_push(state, token),
    }
}

/// The answer to the question for the search path: its directories are
/// probed in order. Without a search path the word names no command.
pub open spec fn spec_finish_path_var(s: StateModel, token: Seq<char>, response: ResponseModel) -> (
    StateModel,
    Outcome,
) {
    match response {
        ResponseModel::Text(path) => {
            let found = candidates_in(split_on(path, ':'), token);
            if found.len() > 0 {
                probing(s, token, found, 0)
            } else {
                spec_expand_or_push(s, token)
            }
        },
        _ => spec_expand_or_push(s, token),
    }
}

/// Takes the answer to the question for the search path.
pub fn finish_path_var(state: &mut State, token: String, response: Response) -> (r: Result<
    (),
    String,
>)
    ensures
        (final(state)@, outcome(r)) == spec_finish_path_var(old(state)@, token@, response@),
{
    match response {
        Response::Text(path) => {
            let found = candidates(path.as_str(), token.as_str());
            if found.len() > 0 {
                probe(state, token, found, 0);
                Ok(())
            } else {
                expand_or_push(state, token)
            }
        },
        _ => expand_or_push(state, token),
    }
}

/// The strings as stack values.
pub open spec fn as_strings(texts: Seq<Seq<char>>) -> Seq<ValueModel> {
    texts.map_values(|t: Seq<char>| ValueModel::Str(t))
}

/// The answer to the listing of a pattern's directory: the matches are
/// pushed in order. Without a match, or without a listing, the pattern
/// itself is pushed as a string.
pub open spec fn spec_finish_glob(
    s: StateModel,
    token: Seq<char>,
    dir: Seq<char>,
    pattern: Seq<char>,
    response: ResponseModel,
) -> (StateModel, Outcome) {
    match response {
        ResponseModel::Names(names) => {
            let found = glob_results(names, dir, pattern);
            if found.len() > 0 {
                (s.with_stack(s.stack + as_strings(found)), Ok(()))
            } else {
                (s.push(ValueModel::Str(token)), Ok(()))
            }
        },
        _ => (s.push(ValueModel::Str(token)), Ok(())),
    }
}

/// Pushes each text as a string.
pub fn push_strings(state: &mut State, texts: &Vec<String>)
    ensures
        final(state)@ == old(state)@.with_stack(old(state)@.stack + as_strings(texts.deep_view())),
{
    let mut i: usize = 0;
    assert(old(state)@.stack + as_strings(texts.deep_view()).take(0) =~= old(state)@.stack);
    while i < texts.len()
        invariant
            i <= texts.len(),
            state@ == old(state)@.with_stack(
                old(state)@.stack + as_strings(texts.deep_view()).take(i as int),
            ),
        decreases texts.len() - i,
    {
        state.push(Value::Str(texts[i].clone()));
        proof {
            let all = as_strings(texts.deep_view());
            assert(all.take(i + 1) =~= all.take(i as int).push(all[i as int]));
            assert((old(state)@.stack + all.take(i as int)).push(all[i as int]) =~= old(state)@.stack
                + all.take(i + 1));
        }
        i = i + 1;
    }
    assert(as_strings(texts.deep_view()).take(texts.len() as int) =~= as_strings(
        texts.deep_view(),
    ));
}

/// Takes the answer to the listing of a pattern's directory.
pub fn finish_glob(state: &mut State, token: String, dir: &str, pattern: &str, response: Response) -> (r:
    Result<(), String>)
    ensures
        (final(state)@, outcome(r)) == spec_finish_glob(
            old(state)@,
            token@,
            dir@,
            pattern@,
            response@,
        ),
{
    match response {
        Response::Names(names) => {
            let found = expand_names(&names, dir, pattern);
            if found.len() > 0 {
                push_strings(state, &found);
            } else {
                state.push(Value::Str(token));
            }
            Ok(())
        },
        _ => {
            state.push(Value::Str(token));
            Ok(())
        },
    }
}

// ========== Token evaluation ==========

/// What a token does while a word is defined. The first token after `:` is
/// the name. After that `;` ends the definition: the name is bound to the
/// tokens collected, in place of what it was bound to before. Any other
/// token is collected.
pub open spec fn spec_handle_word_definition(s: StateModel, token: Seq<char>) -> (
    StateModel,
    Outcome,
) {
    match s.defining {
        Some(name) => if name == pending_name() {
            (StateModel { defining: Some(token), ..s }, Ok(()))
        } else if token == ";"@ {
            (
                StateModel {
                    dict: s.dict.insert(name, WordModel::Defined(s.def_body)),
                    def_body: Seq::empty(),
                    defining: None,
                    ..s
                },
                Ok(()),
            )
        } else {
            (StateModel { def_body: s.def_body.push(token), ..s }, Ok(()))
        },
        None => (s, Ok(())),
    }
}

/// Handle word definition collection (: name ... ;).
pub fn handle_word_definition(state: &mut State, token: &str) -> (r: Result<(), String>)
    ensures
        (final(state)@, outcome(r)) == spec_handle_word_definition(old(state)@, token@),
{
    match state.defining.take() {
        Some(name) => {
            if str_eq(name.as_str(), "UNNAMED") {
                // This token is the word name
                state.defining = Some(token.to_string());
            } else if str_eq(token, ";") {
                // End definition
                let mut body: Vec<String> = Vec::new();
                core::mem::swap(&mut body, &mut state.def_body);
                state.dict.insert(name, Word::Defined(body));
                assert(state@.def_body =~= Seq::<Seq<char>>::empty());
            } else {
                // Accumulate token into body
                state.defining = Some(name);
                state.def_body.push(token.to_string());
                assert(state@.def_body =~= old(state)@.def_body.push(token@));
            }
        },
        None => {},
    }
    Ok(())
}

/// What a token does while a branch is skipped. A quoted token is never a
/// keyword. `if` goes one level deeper. `then` comes back one level, and at
/// depth 0 ends the skipping. `else` at depth 0 ends the skipping when the
/// true-branch was being skipped. Everything else is discarded.
pub open spec fn spec_handle_control_flow_skipping(
    s: StateModel,
    token: Seq<char>,
    is_quoted: bool,
    target: SkipTarget,
    depth: usize,
) -> (StateModel, Outcome) {
    if is_quoted {
        (s, Ok(()))
    } else if token == "if"@ {
        if depth == usize::MAX {
            (s, Err("if: nesting too deep"@))
        } else {
            (
                StateModel {
                    control_flow: ControlFlow::Skipping { target, depth: (depth + 1) as usize },
                    ..s
                },
                Ok(()),
            )
        }
    } else if token == "then"@ {
        if depth == 0 {
            (StateModel { control_flow: ControlFlow::Normal, ..s }, Ok(()))
        } else {
            (
                StateModel {
                    control_flow: ControlFlow::Skipping { target, depth: (depth - 1) as usize },
                    ..s
                },
                Ok(()),
            )
        }
    } else if token == "else"@ && target == SkipTarget::Else && depth == 0 {
        (StateModel { control_flow: ControlFlow::Normal, ..s }, Ok(()))
    } else {
        (s, Ok(()))
    }
}

/// Handle control flow skipping (if/else/then nesting).
pub fn handle_control_flow_skipping(
    state: &mut State,
    token: &str,
    is_quoted: bool,
    target: SkipTarget,
    depth: usize,
) -> (r: Result<(), String>)
    ensures
        (final(state)@, outcome(r)) == spec_handle_control_flow_skipping(
            old(state)@,
            token@,
            is_quoted,
            target,
            depth,
        ),
{
    if is_quoted {
        return Ok(());
    }
    if str_eq(token, "if") {
        // Nested if: increase depth
        if depth == usize::MAX {
            return Err("if: nesting too deep".to_string());
        }
        state.control_flow = ControlFlow::Skipping { target, depth: depth + 1 };
    } else if str_eq(token, "then") {
        if depth == 0 {
            state.control_flow = ControlFlow::Normal;
        } else {
            state.control_flow = ControlFlow::Skipping { target, depth: depth - 1 };
        }
    } else if str_eq(token, "else") {
        match (target, depth) {
            (SkipTarget::Else, 0) => {
                // We were skipping the if-branch, now execute else-branch
                state.control_flow = ControlFlow::Normal;
            },
            _ => {
                // The if-branch was executed, or the else is nested: keep skipping
            },
        }
    }
    Ok(())
}

/// True for the words that open or close a construct.
pub open spec fn is_keyword(token: Seq<char>) -> bool {
    token == "if"@ || token == "else"@ || token == "then"@ || token == ":"@ || token == "begin"@
        || token == "do"@ || token == "each"@ || token == "until"@ || token == "repeat"@ || token
        == "loop"@ || token == "+loop"@
}

/// The model of the result of the keyword handler.
pub open spec fn keyword_outcome(r: Result<bool, String>) -> Result<bool, Seq<char>> {
    match r {
        Ok(b) => Ok(b),
        Err(e) => Err(e@),
    }
}

/// What an unquoted keyword does in normal mode; `Ok(false)` for a token
/// that is no keyword.
///
/// - `if` pops the condition, which must be an integer: zero skips to the
///   matching `else` or `then`. A value of another kind is gone.
/// - `else` skips to the matching `then`; `then` does nothing.
/// - `:` starts a definition whose name is still to come.
/// - `begin` and `do` start collecting a loop body.
/// - `each` pops an output and starts collecting a body for its lines.
/// - `until`, `repeat`, `loop` and `+loop` close nothing here: an error.
pub open spec fn spec_handle_control_flow_keywords(s: StateModel, token: Seq<char>) -> (
    StateModel,
    Result<bool, Seq<char>>,
) {
    if token == "if"@ {
        if s.stack.len() == 0 {
            (s, Err("if: stack underflow"@))
        } else {
            match s.peek(0) {
                ValueModel::Int(n) => (
                    StateModel {
                        control_flow: if n == 0 {
                            ControlFlow::Skipping { target: SkipTarget::Else, depth: 0 }
                        } else {
                            ControlFlow::Normal
                        },
                        ..s.drop(1)
                    },
                    Ok(true),
                ),
                _ => (s.drop(1), Err("if: requires integer on stack"@)),
            }
        }
    } else if token == "else"@ {
        (
            StateModel {
                control_flow: ControlFlow::Skipping { target: SkipTarget::Then, depth: 0 },
                ..s
            },
            Ok(true),
        )
    } else if token == "then"@ {
        (StateModel { control_flow: ControlFlow::Normal, ..s }, Ok(true))
    } else if token == ":"@ {
        (StateModel { defining: Some(pending_name()), def_body: Seq::empty(), ..s }, Ok(true))
    } else if token == "begin"@ {
        (
            StateModel { collecting_loop: Some((LoopType::BeginUntil, Seq::empty(), 0)), ..s },
            Ok(true),
        )
    } else if token == "do"@ {
        (StateModel { collecting_loop: Some((LoopType::DoLoop, Seq::empty(), 0)), ..s }, Ok(true))
    } else if token == "each"@ {
        if s.stack.len() == 0 {
            (s, Err("each: stack underflow"@))
        } else {
            match s.peek(0) {
                ValueModel::Output(content) => (
                    StateModel { collecting_each: Some((content, Seq::empty())), ..s.drop(1) },
                    Ok(true),
                ),
                _ => (s.drop(1), Err("each: requires Output on stack"@)),
            }
        }
    } else if token == "until"@ {
        (s, Err("until: no matching begin"@))
    } else if token == "repeat"@ {
        (s, Err("repeat: no matching begin"@))
    } else if token == "loop"@ {
        (s, Err("loop: no matching do"@))
    } else if token == "+loop"@ {
        (s, Err("+loop: no matching do"@))
    } else {
        (s, Ok(false))
    }
}

/// Handle control flow keywords. Returns Ok(true) if handled, Ok(false) if not a keyword.
pub fn handle_control_flow_keywords(state: &mut State, token: &str) -> (r: Result<bool, String>)
    ensures
        (final(state)@, keyword_outcome(r)) == spec_handle_control_flow_keywords(
            old(state)@,
            token@,
        ),
        r is Ok && r->Ok_0 ==> is_keyword(token@),
        r == Ok::<bool, String>(false) ==> !is_keyword(token@),
{
    if str_eq(token, "if") {
        // Pop condition from stack
        match state.pop() {
            Some(Value::Int(n)) => {
                if n == 0 {
                    // False: skip to else or then
                    state.control_flow = ControlFlow::Skipping { target: SkipTarget::Else, depth: 0 };
                } else {
                    // True: continue normally
                    state.control_flow = ControlFlow::Normal;
                }
            },
            Some(_) => return Err("if: requires integer on stack".to_string()),
            None => return Err("if: stack underflow".to_string()),
        }
        Ok(true)
    } else if str_eq(token, "else") {
        // We executed the if-branch, now skip to then
        state.control_flow = ControlFlow::Skipping { target: SkipTarget::Then, depth: 0 };
        Ok(true)
    } else if str_eq(token, "then") {
        // End of if/then block
        state.control_flow = ControlFlow::Normal;
        Ok(true)
    } else if str_eq(token, ":") {
        // Start word definition
        state.defining = Some("UNNAMED".to_string());
        state.def_body.clear();
        assert(state@.def_body =~= Seq::<Seq<char>>::empty());
        Ok(true)
    } else if str_eq(token, "begin") {
        // Start begin...until or begin...while...repeat loop
        let body: Vec<String> = Vec::new();
        assert(body.deep_view() =~= Seq::<Seq<char>>::empty());
        state.collecting_loop = Some((LoopType::BeginUntil, body, 0));
        Ok(true)
    } else if str_eq(token, "do") {
        // Start do...loop or do...+loop
        let body: Vec<String> = Vec::new();
        assert(body.deep_view() =~= Seq::<Seq<char>>::empty());
        state.collecting_loop = Some((LoopType::DoLoop, body, 0));
        Ok(true)
    } else if str_eq(token, "each") {
        // Start each...then - pop Output from stack
        match state.pop() {
            Some(Value::Output(content)) => {
                let body: Vec<String> = Vec::new();
                assert(body.deep_view() =~= Seq::<Seq<char>>::empty());
                state.collecting_each = Some((content, body));
                Ok(true)
            },
            Some(_) => Err("each: requires Output on stack".to_string()),
            None => Err("each: stack underflow".to_string()),
        }
    } else if str_eq(token, "until") {
        Err("until: no matching begin".to_string())
    } else if str_eq(token, "repeat") {
        Err("repeat: no matching begin".to_string())
    } else if str_eq(token, "loop") {
        Err("loop: no matching do".to_string())
    } else if str_eq(token, "+loop") {
        Err("+loop: no matching do".to_string())
    } else {
        Ok(false)
    }
}

/// How much work may be pending when a defined word is run. A word that
/// calls itself without end comes to this limit and fails.
pub const MAX_DEPTH: usize = 100000;

/// What running a word of the dictionary means: a native operation is
/// carried out; the tokens of a defined word are to be replayed, unquoted,
/// unless too much work is pending already; a cached command has its path
/// pushed and is run.
pub open spec fn spec_run_word(s: StateModel, word: WordModel) -> (StateModel, Outcome) {
    match word {
        WordModel::Builtin(b, _) => spec_run_builtin(s, b),
        WordModel::Defined(tokens) => if s.tasks.len() >= MAX_DEPTH {
            (s, Err("eval: recursion too deep"@))
        } else {
            (s.schedule(TaskModel::Replay { tokens, pos: 0 }), Ok(()))
        },
        WordModel::ShellCmd(cmd) => spec_exec_word(s.push(ValueModel::Str(cmd))),
    }
}

/// What executing a token means, in this order: an unquoted integer is
/// pushed; an unquoted word of the dictionary is run; a quoted token is
/// pushed as a string; any other token is looked up as a command.
pub open spec fn spec_handle_token_execution(s: StateModel, token: Seq<char>, is_quoted: bool) -> (
    StateModel,
    Outcome,
) {
    if !is_quoted && parse_int(token) is Some {
        (s.push(ValueModel::Int(parse_int(token)->0)), Ok(()))
    } else if !is_quoted && s.dict.contains_key(token) {
        spec_run_word(s, s.dict[token])
    } else if is_quoted {
        (s.push(ValueModel::Str(token)), Ok(()))
    } else {
        spec_find_in_path(s, token)
    }
}

/// Handle execution of a single token (integers, dictionary lookup, PATH lookup, globs).
pub fn handle_token_execution(state: &mut State, token: &str, is_quoted: bool) -> (r: Result<
    (),
    String,
>)
    ensures
        (final(state)@, outcome(r)) == spec_handle_token_execution(old(state)@, token@, is_quoted),
{
    if !is_quoted {
        // Integer?
        if let Some(n) = to_int(token) {
            state.push(Value::Int(n));
            return Ok(());
        }
        // Dictionary lookup (only for unquoted tokens)
        let found: Option<Word> = match state.dict.get(token) {
            Some(w) => Some(w.clone()),
            None => None,
        };
        match found {
            Some(Word::Builtin(b, _)) => {
                return run_builtin(state, b);
            },
            Some(Word::Defined(tokens)) => {
                // Execute defined word: each token is unquoted
                if state.tasks.len() >= MAX_DEPTH {
                    return Err("eval: recursion too deep".to_string());
                }
                state.schedule(Task::Replay { tokens, pos: 0 });
                return Ok(());
            },
            Some(Word::ShellCmd(cmd)) => {
                state.push(Value::Str(cmd));
                return exec_word(state);
            },
            None => {},
        }
    }
    // Quoted string: push as literal
    if is_quoted {
        state.push(Value::Str(token.to_string()));
        return Ok(());
    }
    // Unquoted: try PATH lookup, then glob expansion, then a string literal
    find_in_path(state, token)
}

/// While tracing is on, a token that is about to be executed is noted
/// with the stack as it is, so that the step can be reported once the
/// token is done.
pub open spec fn spec_note_for_trace(s: StateModel, token: Seq<char>, is_quoted: bool) -> StateModel {
    if s.trace > 0 {
        s.schedule(TaskModel::Trace { token, quoted: is_quoted, snapshot: s.stack })
    } else {
        s
    }
}

fn note_for_trace(state: &mut State, token: &str, is_quoted: bool)
    ensures
        final(state)@ == spec_note_for_trace(old(state)@, token@, is_quoted),
{
    if state.trace > 0 {
        let before = crate::types::copy_values(&state.stack);
        state.schedule(Task::Trace { token: token.to_string(), quoted: is_quoted, snapshot: before });
    }
}

/// The token dispatcher. A token goes, in this order of priority:
/// to the body of an `each` that is being collected; to the body of a loop
/// that is being collected; to the word that is being defined; to the skip
/// tracker while a branch is skipped; to the keyword handler if it is an
/// unquoted keyword; and otherwise it is executed.
pub open spec fn spec_route_token(s: StateModel, token: Seq<char>, is_quoted: bool) -> (
    StateModel,
    Outcome,
) {
    if s.collecting_each is Some {
        spec_collect_each_token(s, token)
    } else if s.collecting_loop is Some {
        spec_collect_loop_token(s, token)
    } else if s.defining is Some {
        spec_handle_word_definition(s, token)
    } else if s.control_flow is Skipping {
        spec_handle_control_flow_skipping(
            s,
            token,
            is_quoted,
            s.control_flow->target,
            s.control_flow->depth,
        )
    } else {
        let traced = spec_note_for_trace(s, token, is_quoted);
        if !is_quoted && is_keyword(token) {
            match spec_handle_control_flow_keywords(traced, token) {
                (s1, Ok(_)) => (s1, Ok(())),
                (s1, Err(e)) => (s1, Err(e)),
            }
        } else {
            spec_handle_token_execution(traced, token, is_quoted)
        }
    }
}

/// Routes one token.
pub fn route_token(state: &mut State, token: &str, is_quoted: bool) -> (r: Result<(), String>)
    ensures
        (final(state)@, outcome(r)) == spec_route_token(old(state)@, token@, is_quoted),
{
    // 1. Are we collecting an each...then body?
    if state.collecting_each.is_some() {
        return collect_each_token(state, token);
    }
    // 2. Are we collecting a loop body?
    if state.collecting_loop.is_some() {
        return collect_loop_token(state, token);
    }
    // 3. Are we defining a word?
    if state.defining.is_some() {
        return handle_word_definition(state, token);
    }
    // 4. Are we skipping (control flow)?
    if let ControlFlow::Skipping { target, depth } = state.control_flow {
        return handle_control_flow_skipping(state, token, is_quoted, target, depth);
    }
    // Trace: snapshot stack before execution
    note_for_trace(state, token, is_quoted);
    // 5. Is it a control flow keyword?
    if !is_quoted {
        match handle_control_flow_keywords(state, token) {
            Ok(true) => {
                return Ok(());
            },
            Ok(false) => {},
            Err(e) => {
                return Err(e);
            },
        }
    }
    // 6. Execute normally
    handle_token_execution(state, token, is_quoted)
}

/// Evaluating a token: it is refused while work is pending; otherwise it is
/// routed and the machine runs what it started.
pub open spec fn spec_eval_token(s: StateModel, token: Seq<char>, is_quoted: bool) -> (
    StateModel,
    Outcome,
) {
    if !s.idle() {
        (s, Err(engaged()))
    } else {
        spec_settle(spec_route_token(s, token, is_quoted))
    }
}

/// Evaluate a single token within the current interpreter state.
///
/// The token is routed, and what it started is run until no work is left,
/// the host is asked for something, or the step budget of one call is used
/// up. On an error all pending work is given up.
pub fn eval_token(state: &mut State, token: &str, is_quoted: bool) -> (r: Result<(), String>)
    ensures
        (final(state)@, outcome(r)) == spec_eval_token(old(state)@, token@, is_quoted),
{
    if !state.is_idle() {
        return Err(engaged_error());
    }
    let started = route_token(state, token, is_quoted);
    settle(state, started)
}

/// A line of input as work for the machine. The count of traced steps
/// starts anew. Where the line begins with an
/// unquoted `:` and has a second token, that token names a word whose
/// definition begins at once, and the tokens after it are the work.
pub open spec fn spec_load_line(s: StateModel, line: Seq<char>) -> StateModel {
    let tokens = spec_tokenize(line);
    let fresh = StateModel { trace_step: 0, ..s };
    if tokens.len() >= 2 && tokens[0].text == ":"@ && !tokens[0].quoted {
        StateModel { defining: Some(tokens[1].text), def_body: Seq::empty(), ..fresh }.schedule(
            TaskModel::Line { items: tokens, pos: 2 },
        )
    } else {
        fresh.schedule(TaskModel::Line { items: tokens, pos: 0 })
    }
}

/// Evaluating a line: it is refused while work is pending; otherwise its
/// tokens are the work that the machine runs.
pub open spec fn spec_eval_line(s: StateModel, line: Seq<char>) -> (StateModel, Outcome) {
    if !s.idle() {
        (s, Err(engaged()))
    } else {
        spec_settle((spec_load_line(s, line), Ok(())))
    }
}

/// Evaluate a full line of input.
pub fn eval_line(state: &mut State, line: &str) -> (r: Result<(), String>)
    ensures
        (final(state)@, outcome(r)) == spec_eval_line(old(state)@, line@),
{
    if !state.is_idle() {
        return Err(engaged_error());
    }
    // Reset trace step counter for each new line
    state.trace_step = 0;
    let tokens = tokenize(line);
    // Handle special `: name` prefix -- consume name early
    if tokens.len() >= 2 && str_eq(tokens[0].text.as_str(), ":") && !tokens[0].quoted {
        state.defining = Some(tokens[1].text.clone());
        state.def_body.clear();
        assert(state@.def_body =~= Seq::<Seq<char>>::empty());
        state.schedule(Task::Line { items: tokens, pos: 2 });
    } else {
        state.schedule(Task::Line { items: tokens, pos: 0 });
    }
    settle(state, Ok(()))
}

} // verus!
