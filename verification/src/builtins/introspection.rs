//! Words that show what the interpreter knows, and words for prompts.

use vstd::prelude::*;
use crate::host::{Request, RequestModel, Response, ResponseModel};
use crate::machine::{Captured, Wait, WaitModel};
use crate::text::{
    chars_of, format_count, format_int, int_text, join2, join3, lemma_last_index, lemma_lex_total_ordering,
    lemma_same_items, lemma_sorted, lex_order, nat_digits, sort_strings, str_eq, string_of,
    trim, trimmed,
};
use crate::types::{busy, outcome, Outcome, State, StateModel, Value, ValueModel, Word, WordModel};

verus! {

/// The text of `help`.
pub const HELP: &'static str = "\
Forth Shell - Available Commands\n\
\n\
Stack Operations:\n\
\x20 dup swap drop over rot    - manipulate stack\n\
\x20 .s                        - show stack contents\n\
\n\
Printing:\n\
\x20 .                         - print top of stack\n\
\x20 type                      - print without newline\n\
\n\
Arithmetic:\n\
\x20 + - * / mod /mod */       - math operations\n\
\x20 = < > <= >= <>            - comparisons\n\
\n\
Boolean Logic:\n\
\x20 and or not xor            - boolean operations\n\
\n\
String Operations:\n\
\x20 concat                    - concatenate two strings\n\
\n\
Control Flow:\n\
\x20 if ... then               - conditional\n\
\x20 if ... else ... then      - conditional with else\n\
\n\
Loops:\n\
\x20 begin ... until           - loop until condition is true\n\
\x20 begin ... while ... repeat - loop while condition is true\n\
\x20 start limit do ... loop   - counted loop (step 1)\n\
\x20 start limit do ... +loop  - counted loop (step from stack)\n\
\x20 output each ... then      - iterate over output lines\n\
\x20 i j                       - loop indices\n\
\n\
Word Definition:\n\
\x20 : name ... ;              - define new word\n\
\n\
Type Conversions:\n\
\x20 >output >string           - convert between types\n\
\n\
File I/O:\n\
\x20 >file >>file              - write/append output to file\n\
\n\
Environment:\n\
\x20 getenv setenv unsetenv    - environment variables\n\
\n\
Directory:\n\
\x20 cd pushd popd             - directory navigation\n\
\n\
Help System:\n\
\x20 words                     - list all words\n\
\x20 \"word\" see                - show word definition\n\
\x20 help                      - show this help\n\
\n\
Type 'words' to see all available commands\n\
";

/// Each text with a space behind it, in a row.
pub open spec fn spaced(texts: Seq<Seq<char>>) -> Seq<char>
    decreases texts.len(),
{
    if texts.len() == 0 {
        Seq::empty()
    } else {
        spaced(texts.drop_last()) + texts.last() + " "@
    }
}

fn spaced_text(texts: &Vec<String>) -> (r: String)
    ensures
        r@ == spaced(texts.deep_view()),
{
    let mut r = String::new();
    let mut i: usize = 0;
    assert(texts.deep_view().take(0) =~= Seq::<Seq<char>>::empty());
    while i < texts.len()
        invariant
            i <= texts.len(),
            r@ == spaced(texts.deep_view().take(i as int)),
        decreases texts.len() - i,
    {
        proof {
            let t = texts.deep_view().take(i + 1);
            assert(t.drop_last() =~= texts.deep_view().take(i as int));
            assert(t.last() == texts@[i as int]@);
        }
        r.append(texts[i].as_str());
        r.append(" ");
        i = i + 1;
    }
    assert(texts.deep_view().take(texts.len() as int) =~= texts.deep_view());
    r
}

/// True when `names` lists the words of `dict`, each once, in the order
/// of strings.
pub open spec fn lists_in_order(names: Seq<Seq<char>>, dict: Map<Seq<char>, WordModel>) -> bool {
    vstd::relations::sorted_by(names, lex_order()) && names.no_duplicates() && names.to_set()
        == dict.dom()
}

/// The names of the words of a dictionary, each once, in the order of
/// strings.
pub open spec fn names_in_order(dict: Map<Seq<char>, WordModel>) -> Seq<Seq<char>> {
    choose|names: Seq<Seq<char>>| lists_in_order(names, dict)
}

/// There is one list only of the words of a dictionary in order.
pub proof fn lemma_names_in_order(names: Seq<Seq<char>>, dict: Map<Seq<char>, WordModel>)
    requires
        lists_in_order(names, dict),
    ensures
        names == names_in_order(dict),
{
    let chosen = names_in_order(dict);
    assert(lists_in_order(chosen, dict));
    lemma_same_items(names, chosen);
    lemma_lex_total_ordering();
    vstd::seq_lib::lemma_sorted_unique(names, chosen, lex_order());
}

/// `words` prints the names of all words, in the order of strings, each
/// with a space behind it, and then a newline.
pub open spec fn spec_words(s: StateModel) -> (StateModel, Outcome) {
    if s.request is Some {
        (s, Err(busy("words"@)))
    } else {
        (
            s.ask(
                RequestModel::Print(spaced(names_in_order(s.dict)) + "\n"@),
                WaitModel::Nothing,
            ),
            Ok(()),
        )
    }
}

/// `words` ( -- ) List all available words in the dictionary.
pub fn words(state: &mut State) -> (r: Result<(), String>)
    ensures
        (final(state)@, outcome(r)) == spec_words(old(state)@),
{
    if state.request.is_some() {
        return Err(join2("words", ": a request to the host is pending"));
    }
    let unordered = state.dict.names();
    let names = sort_strings(unordered);
    proof {
        let a = unordered.deep_view();
        let b = names.deep_view();
        lemma_sorted(a);
        a.lemma_multiset_has_no_duplicates();
        b.lemma_multiset_has_no_duplicates_conv();
        broadcast use vstd::seq_lib::group_to_multiset_ensures;

        assert forall|x: Seq<char>| b.to_set().contains(x) == a.to_set().contains(x) by {
            assert(b.contains(x) <==> b.to_multiset().count(x) > 0);
            assert(a.contains(x) <==> a.to_multiset().count(x) > 0);
        }
        assert(b.to_set() =~= a.to_set());
        lemma_names_in_order(b, state@.dict);
    }
    let mut text = spaced_text(&names);
    text.append("\n");
    state.ask(Request::Print(text), Wait::Nothing);
    Ok(())
}

/// `help` prints the help text.
pub open spec fn spec_help(s: StateModel) -> (StateModel, Outcome) {
    if s.request is Some {
        (s, Err(busy("help"@)))
    } else {
        (s.ask(RequestModel::Print(HELP@), WaitModel::Nothing), Ok(()))
    }
}

/// `help` ( -- ) Show comprehensive help information.
pub fn help(state: &mut State) -> (r: Result<(), String>)
    ensures
        (final(state)@, outcome(r)) == spec_help(old(state)@),
{
    if state.request.is_some() {
        return Err(join2("help", ": a request to the host is pending"));
    }
    state.ask(Request::Print(HELP.to_string()), Wait::Nothing);
    Ok(())
}

/// What `see` shows for a name, given what the name is bound to.
pub open spec fn description(name: Seq<char>, entry: Option<WordModel>) -> Seq<char> {
    match entry {
        Some(WordModel::Builtin(_, Some(doc))) => name + ": "@ + doc + "\n"@,
        Some(WordModel::Builtin(_, None)) => name + " is a builtin function\n"@,
        Some(WordModel::Defined(tokens)) => ": "@ + name + " "@ + spaced(tokens) + ";\n"@,
        Some(WordModel::ShellCmd(cmd)) => name + " is a shell command: "@ + cmd + "\n"@,
        None => name + " is not defined\n"@,
    }
}

/// What a name is bound to in a dictionary, if to anything.
pub open spec fn entry_of(dict: Map<Seq<char>, WordModel>, name: Seq<char>) -> Option<WordModel> {
    if dict.contains_key(name) {
        Some(dict[name])
    } else {
        None
    }
}

/// `see` pops a name and prints what is known of it. A value that is no
/// string stays where it is.
pub open spec fn spec_see(s: StateModel) -> (StateModel, Outcome) {
    if s.request is Some {
        (s, Err(busy("see"@)))
    } else if s.stack.len() == 0 {
        (s, Err("see: stack underflow"@))
    } else {
        match s.peek(0) {
            ValueModel::Str(name) => (
                s.drop(1).ask(
                    RequestModel::Print(description(name, entry_of(s.dict, name))),
                    WaitModel::Nothing,
                ),
                Ok(()),
            ),
            _ => (s, Err("see: requires string (word name)"@)),
        }
    }
}

/// `see` ( name -- ) Show the definition or documentation for a word.
///
/// Pops a string from the stack and looks it up in the dictionary.
pub fn see(state: &mut State) -> (r: Result<(), String>)
    ensures
        (final(state)@, outcome(r)) == spec_see(old(state)@),
{
    if state.request.is_some() {
        return Err(join2("see", ": a request to the host is pending"));
    }
    let name = match state.pop() {
        None => {
            return Err("see: stack underflow".to_string());
        },
        Some(Value::Str(s)) => s,
        Some(other) => {
            state.push(other);
            assert(state@.stack =~= old(state)@.stack);
            return Err("see: requires string (word name)".to_string());
        },
    };
    let text = match state.dict.get(name.as_str()) {
        Some(Word::Builtin(_, Some(doc))) => {
            let mut t = join3(name.as_str(), ": ", doc);
            t.append("\n");
            t
        },
        Some(Word::Builtin(_, None)) => join2(name.as_str(), " is a builtin function\n"),
        Some(Word::Defined(tokens)) => {
            let mut t = join3(": ", name.as_str(), " ");
            t.append(spaced_text(tokens).as_str());
            t.append(";\n");
            t
        },
        Some(Word::ShellCmd(cmd)) => {
            let mut t = join3(name.as_str(), " is a shell command: ", cmd.as_str());
            t.append("\n");
            t
        },
        None => join2(name.as_str(), " is not defined\n"),
    };
    state.ask(Request::Print(text), Wait::Nothing);
    Ok(())
}

// ========== Prompt helper builtins ==========

/// The stack that the prompt words look at: the one saved while a prompt
/// is evaluated, and otherwise the stack itself.
pub open spec fn spec_prompt_stack(s: StateModel) -> Seq<ValueModel> {
    match s.prompt_eval_original_stack {
        Some(saved) => saved,
        None => s.stack,
    }
}

/// Helper: get the stack to inspect for prompt helpers.
/// During prompt evaluation, uses the saved original stack; otherwise uses the current stack.
pub fn prompt_stack(state: &State) -> (r: &[Value])
    ensures
        r.deep_view() == spec_prompt_stack(state@),
{
    match &state.prompt_eval_original_stack {
        Some(saved) => saved.as_slice(),
        None => state.stack.as_slice(),
    }
}

/// How many outputs a stack holds.
pub open spec fn count_outputs(stack: Seq<ValueModel>) -> nat
    decreases stack.len(),
{
    if stack.len() == 0 {
        0
    } else if stack.last() is Output {
        count_outputs(stack.drop_last()) + 1
    } else {
        count_outputs(stack.drop_last())
    }
}

/// How many inputs, that is strings and integers, a stack holds.
pub open spec fn count_inputs(stack: Seq<ValueModel>) -> nat {
    (stack.len() - count_outputs(stack)) as nat
}

proof fn lemma_count_outputs_bound(stack: Seq<ValueModel>)
    ensures
        count_outputs(stack) <= stack.len(),
    decreases stack.len(),
{
    if stack.len() > 0 {
        lemma_count_outputs_bound(stack.drop_last());
    }
}

/// Count inputs (Str/Int) vs outputs (Output) on a stack slice.
pub fn count_stack(stack: &[Value]) -> (r: (usize, usize))
    ensures
        r.0 == count_inputs(stack.deep_view()),
        r.1 == count_outputs(stack.deep_view()),
        r.0 + r.1 == stack.len(),
{
    let mut inputs: usize = 0;
    let mut outputs: usize = 0;
    let mut i: usize = 0;
    assert(stack.deep_view().take(0) =~= Seq::<ValueModel>::empty());
    while i < stack.len()
        invariant
            i <= stack.len(),
            inputs + outputs == i,
            outputs == count_outputs(stack.deep_view().take(i as int)),
        decreases stack.len() - i,
    {
        proof {
            let t = stack.deep_view().take(i + 1);
            assert(t.drop_last() =~= stack.deep_view().take(i as int));
            assert(t.last() == stack@[i as int]@);
        }
        match &stack[i] {
            Value::Output(_) => {
                outputs = outputs + 1;
            },
            _ => {
                inputs = inputs + 1;
            },
        }
        i = i + 1;
    }
    assert(stack.deep_view().take(stack.len() as int) =~= stack.deep_view());
    (inputs, outputs)
}

/// How a prompt shows what a stack holds: nothing for an empty stack,
/// `[n]` for n inputs, `[:m]` for m outputs, `[n:m]` for both.
pub open spec fn indicator(stack: Seq<ValueModel>) -> Seq<char> {
    let inputs = count_inputs(stack);
    let outputs = count_outputs(stack);
    if stack.len() == 0 {
        Seq::empty()
    } else if outputs == 0 {
        "["@ + nat_digits(inputs) + "]"@
    } else if inputs == 0 {
        "[:"@ + nat_digits(outputs) + "]"@
    } else {
        "["@ + nat_digits(inputs) + ":"@ + nat_digits(outputs) + "]"@
    }
}

/// The indicator of a stack.
pub fn stack_indicator(stack: &[Value]) -> (r: String)
    ensures
        r@ == indicator(stack.deep_view()),
{
    let (inputs, outputs) = count_stack(stack);
    proof {
        lemma_count_outputs_bound(stack.deep_view());
    }
    if inputs + outputs == 0 {
        String::new()
    } else if outputs == 0 {
        join3("[", format_count(inputs).as_str(), "]")
    } else if inputs == 0 {
        join3("[:", format_count(outputs).as_str(), "]")
    } else {
        let mut r = join3("[", format_count(inputs).as_str(), ":");
        r.append(format_count(outputs).as_str());
        r.append("]");
        r
    }
}

/// `$stack` pushes the indicator of the stack that the prompt words look at.
pub open spec fn spec_dollar_stack(s: StateModel) -> (StateModel, Outcome) {
    (s.push(ValueModel::Str(indicator(spec_prompt_stack(s)))), Ok(()))
}

/// `$stack` ( -- str ) Push formatted `[n:m]` stack indicator.
pub fn dollar_stack(state: &mut State) -> (r: Result<(), String>)
    ensures
        (final(state)@, outcome(r)) == spec_dollar_stack(old(state)@),
{
    let text = stack_indicator(prompt_stack(state));
    state.push(Value::Str(text));
    Ok(())
}

/// `$in` pushes the number of inputs on the stack that the prompt words look
/// at.
pub open spec fn spec_dollar_in(s: StateModel) -> (StateModel, Outcome) {
    (s.push(ValueModel::Int(count_inputs(spec_prompt_stack(s)) as i64)), Ok(()))
}

/// `$in` ( -- int ) Push count of input items on the stack.
pub fn dollar_in(state: &mut State) -> (r: Result<(), String>)
    ensures
        (final(state)@, outcome(r)) == spec_dollar_in(old(state)@),
{
    let (inputs, _) = count_stack(prompt_stack(state));
    state.push(Value::Int(#[verifier::truncate] (inputs as i64)));
    Ok(())
}

/// `$out` pushes the number of outputs on the stack that the prompt words
/// look at.
pub open spec fn spec_dollar_out(s: StateModel) -> (StateModel, Outcome) {
    (s.push(ValueModel::Int(count_outputs(spec_prompt_stack(s)) as i64)), Ok(()))
}

/// `$out` ( -- int ) Push count of output items on the stack.
pub fn dollar_out(state: &mut State) -> (r: Result<(), String>)
    ensures
        (final(state)@, outcome(r)) == spec_dollar_out(old(state)@),
{
    let (_, outputs) = count_stack(prompt_stack(state));
    state.push(Value::Int(#[verifier::truncate] (outputs as i64)));
    Ok(())
}

/// A prompt word that has a command run for what it prints.
pub open spec fn spec_capture(
    s: StateModel,
    op: Seq<char>,
    cmd: Seq<char>,
    args: Seq<Seq<char>>,
    what: Captured,
) -> (StateModel, Outcome) {
    if s.request is Some {
        (s, Err(busy(op)))
    } else {
        (
            s.ask(
                RequestModel::Run { cmd, args, stdin: None, quiet: true },
                WaitModel::Capture(what),
            ),
            Ok(()),
        )
    }
}

fn capture(state: &mut State, op: &str, cmd: &str, args: Vec<String>, what: Captured) -> (r: Result<
    (),
    String,
>)
    ensures
        (final(state)@, outcome(r)) == spec_capture(
            old(state)@,
            op@,
            cmd@,
            args.deep_view(),
            what,
        ),
{
    if state.request.is_some() {
        return Err(join2(op, ": a request to the host is pending"));
    }
    state.ask(
        Request::Run { cmd: cmd.to_string(), args, stdin: None, quiet: true },
        Wait::Capture(what),
    );
    Ok(())
}

/// What a prompt word pushes for the answer to its command: what the
/// command printed, without the whitespace around it. The branch of git is
/// empty unless git ended well. Where the command could not be run, the
/// branch is empty, the host name is `unknown` and the time is `??:??`.
pub open spec fn captured_text(what: Captured, response: ResponseModel) -> Seq<char> {
    match response {
        ResponseModel::Ran { stdout, code } => if what == Captured::GitBranch && code != Some(
            0i32,
        ) {
            Seq::empty()
        } else {
            trim(stdout)
        },
        _ => match what {
            Captured::GitBranch => Seq::empty(),
            Captured::Hostname => "unknown"@,
            Captured::Time => "??:??"@,
        },
    }
}

/// The answer to a prompt word's command: the text it stands for is pushed.
pub open spec fn spec_finish_capture(s: StateModel, what: Captured, response: ResponseModel) -> (
    StateModel,
    Outcome,
) {
    (s.push(ValueModel::Str(captured_text(what, response))), Ok(()))
}

/// Takes the answer to a prompt word's command.
pub fn finish_capture(state: &mut State, what: Captured, response: Response) -> (r: Result<
    (),
    String,
>)
    ensures
        (final(state)@, outcome(r)) == spec_finish_capture(old(state)@, what, response@),
{
    let text = match response {
        Response::Ran { stdout, code } => {
            let well = match code {
                Some(c) => c == 0,
                None => false,
            };
            if what == Captured::GitBranch && !well {
                String::new()
            } else {
                trimmed(stdout.as_str())
            }
        },
        _ => match what {
            Captured::GitBranch => String::new(),
            Captured::Hostname => "unknown".to_string(),
            Captured::Time => "??:??".to_string(),
        },
    };
    state.push(Value::Str(text));
    Ok(())
}

/// `$gitbranch` has git asked for the current branch.
pub open spec fn spec_dollar_gitbranch(s: StateModel) -> (StateModel, Outcome) {
    spec_capture(
        s,
        "$gitbranch"@,
        "git"@,
        seq!["branch"@, "--show-current"@],
        Captured::GitBranch,
    )
}

/// `$gitbranch` ( -- str ) Push current git branch name (empty if not in a git repo).
pub fn dollar_gitbranch(state: &mut State) -> (r: Result<(), String>)
    ensures
        (final(state)@, outcome(r)) == spec_dollar_gitbranch(old(state)@),
{
    let mut args: Vec<String> = Vec::new();
    args.push("branch".to_string());
    args.push("--show-current".to_string());
    assert(args.deep_view() =~= seq!["branch"@, "--show-current"@]);
    capture(state, "$gitbranch", "git", args, Captured::GitBranch)
}

/// `$hostname` has `hostname` run.
pub open spec fn spec_dollar_hostname(s: StateModel) -> (StateModel, Outcome) {
    spec_capture(s, "$hostname"@, "hostname"@, Seq::empty(), Captured::Hostname)
}

/// `$hostname` ( -- str ) Push the system hostname.
pub fn dollar_hostname(state: &mut State) -> (r: Result<(), String>)
    ensures
        (final(state)@, outcome(r)) == spec_dollar_hostname(old(state)@),
{
    let args: Vec<String> = Vec::new();
    assert(args.deep_view() =~= Seq::<Seq<char>>::empty());
    capture(state, "$hostname", "hostname", args, Captured::Hostname)
}

/// `$time` has `date` asked for hours and minutes.
pub open spec fn spec_dollar_time(s: StateModel) -> (StateModel, Outcome) {
    spec_capture(s, "$time"@, "date"@, seq!["+%H:%M"@], Captured::Time)
}

/// `$time` ( -- str ) Push current time as HH:MM.
pub fn dollar_time(state: &mut State) -> (r: Result<(), String>)
    ensures
        (final(state)@, outcome(r)) == spec_dollar_time(old(state)@),
{
    let mut args: Vec<String> = Vec::new();
    args.push("+%H:%M".to_string());
    assert(args.deep_view() =~= seq!["+%H:%M"@]);
    capture(state, "$time", "date", args, Captured::Time)
}

/// A prompt word that asks for the working directory.
pub open spec fn spec_ask_cwd(s: StateModel, op: Seq<char>, wait: WaitModel) -> (StateModel, Outcome) {
    if s.request is Some {
        (s, Err(busy(op)))
    } else {
        (s.ask(RequestModel::CurrentDir, wait), Ok(()))
    }
}

/// `$cwd` asks for the working directory.
pub open spec fn spec_dollar_cwd(s: StateModel) -> (StateModel, Outcome) {
    spec_ask_cwd(s, "$cwd"@, WaitModel::DollarCwd)
}

/// `$cwd` ( -- str ) Push the current working directory.
pub fn dollar_cwd(state: &mut State) -> (r: Result<(), String>)
    ensures
        (final(state)@, outcome(r)) == spec_dollar_cwd(old(state)@),
{
    if state.request.is_some() {
        return Err(join2("$cwd", ": a request to the host is pending"));
    }
    state.ask(Request::CurrentDir, Wait::DollarCwd);
    Ok(())
}

/// The answer to `$cwd`: the directory is pushed, or `?` without one.
pub open spec fn spec_finish_dollar_cwd(s: StateModel, response: ResponseModel) -> (
    StateModel,
    Outcome,
) {
    match response {
        ResponseModel::Text(dir) => (s.push(ValueModel::Str(dir)), Ok(())),
        _ => (s.push(ValueModel::Str("?"@)), Ok(())),
    }
}

/// Takes the answer to `$cwd`.
pub fn finish_dollar_cwd(state: &mut State, response: Response) -> (r: Result<(), String>)
    ensures
        (final(state)@, outcome(r)) == spec_finish_dollar_cwd(old(state)@, response@),
{
    match response {
        Response::Text(dir) => state.push(Value::Str(dir)),
        _ => state.push(Value::Str("?".to_string())),
    }
    Ok(())
}

/// `$basename` asks for the working directory.
pub open spec fn spec_dollar_basename(s: StateModel) -> (StateModel, Outcome) {
    spec_ask_cwd(s, "$basename"@, WaitModel::DollarBasename)
}

/// `$basename` ( -- str ) Push the basename of the current working directory.
pub fn dollar_basename(state: &mut State) -> (r: Result<(), String>)
    ensures
        (final(state)@, outcome(r)) == spec_dollar_basename(old(state)@),
{
    if state.request.is_some() {
        return Err(join2("$basename", ": a request to the host is pending"));
    }
    state.ask(Request::CurrentDir, Wait::DollarBasename);
    Ok(())
}

/// A path without the slashes at its end.
pub open spec fn without_trailing_slashes(path: Seq<char>) -> Seq<char>
    decreases path.len(),
{
    if path.len() > 0 && path.last() == '/' {
        without_trailing_slashes(path.drop_last())
    } else {
        path
    }
}

/// The last component of a path: what follows the last slash, slashes at
/// the end of the path apart. There is none where that is empty, `.` or `..`.
pub open spec fn base_name(path: Seq<char>) -> Option<Seq<char>> {
    let p = without_trailing_slashes(path);
    let name = p.skip(crate::text::last_index(p, '/') + 1);
    if name.len() == 0 || name == "."@ || name == ".."@ {
        None
    } else {
        Some(name)
    }
}

/// The last component of a path.
pub fn last_component(path: &str) -> (r: Option<String>)
    ensures
        r.deep_view() == base_name(path@),
{
    let v = chars_of(path);
    let mut end: usize = v.len();
    assert(v@.take(v.len() as int) =~= v@);
    while end > 0 && v[end - 1] == '/'
        invariant
            end <= v.len(),
            without_trailing_slashes(v@) == without_trailing_slashes(v@.take(end as int)),
        decreases end,
    {
        assert(v@.take(end as int).drop_last() =~= v@.take(end - 1));
        end = end - 1;
    }
    let ghost p = v@.take(end as int);
    assert(without_trailing_slashes(v@) == p);
    let mut k: usize = end;
    while k > 0 && v[k - 1] != '/'
        invariant
            k <= end <= v.len(),
            p == v@.take(end as int),
            forall|i: int| k <= i < end ==> p[i] != '/',
        decreases k,
    {
        k = k - 1;
    }
    proof {
        lemma_last_index(p, '/', k as int - 1);
        assert(v@.subrange(k as int, end as int) =~= p.skip(k as int));
    }
    let name = string_of(&v, k, end);
    if k == end || str_eq(name.as_str(), ".") || str_eq(name.as_str(), "..") {
        None
    } else {
        Some(name)
    }
}

/// The answer to `$basename`: the last component of the directory is
/// pushed, or `?` where there is none.
pub open spec fn spec_finish_dollar_basename(s: StateModel, response: ResponseModel) -> (
    StateModel,
    Outcome,
) {
    match response {
        ResponseModel::Text(dir) => match base_name(dir) {
            Some(name) => (s.push(ValueModel::Str(name)), Ok(())),
            None => (s.push(ValueModel::Str("?"@)), Ok(())),
        },
        _ => (s.push(ValueModel::Str("?"@)), Ok(())),
    }
}

/// Takes the answer to `$basename`.
pub fn finish_dollar_basename(state: &mut State, response: Response) -> (r: Result<(), String>)
    ensures
        (final(state)@, outcome(r)) == spec_finish_dollar_basename(old(state)@, response@),
{
    let name = match response {
        Response::Text(dir) => last_component(dir.as_str()),
        _ => None,
    };
    match name {
        Some(name) => state.push(Value::Str(name)),
        None => state.push(Value::Str("?".to_string())),
    }
    Ok(())
}

/// `$username` asks for the variable `USER`.
pub open spec fn spec_dollar_username(s: StateModel) -> (StateModel, Outcome) {
    if s.request is Some {
        (s, Err(busy("$username"@)))
    } else {
        (
            s.ask(RequestModel::EnvVar("USER"@), WaitModel::Username { second: false }),
            Ok(()),
        )
    }
}

/// `$username` ( -- str ) Push the current username.
pub fn dollar_username(state: &mut State) -> (r: Result<(), String>)
    ensures
        (final(state)@, outcome(r)) == spec_dollar_username(old(state)@),
{
    if state.request.is_some() {
        return Err(join2("$username", ": a request to the host is pending"));
    }
    state.ask(Request::EnvVar("USER".to_string()), Wait::Username { second: false });
    Ok(())
}

/// The answer to `$username`: the name is pushed. Where `USER` is not
/// set, `LOGNAME` is asked for; where that is not set either, the name is
/// `unknown`.
pub open spec fn spec_finish_username(s: StateModel, second: bool, response: ResponseModel) -> (
    StateModel,
    Outcome,
) {
    match response {
        ResponseModel::Text(name) => (s.push(ValueModel::Str(name)), Ok(())),
        _ => if second {
            (s.push(ValueModel::Str("unknown"@)), Ok(()))
        } else {
            (
                s.ask(RequestModel::EnvVar("LOGNAME"@), WaitModel::Username { second: true }),
                Ok(()),
            )
        },
    }
}

/// Takes the answer to `$username`.
pub fn finish_username(state: &mut State, second: bool, response: Response) -> (r: Result<
    (),
    String,
>)
    ensures
        (final(state)@, outcome(r)) == spec_finish_username(old(state)@, second, response@),
{
    match response {
        Response::Text(name) => state.push(Value::Str(name)),
        _ => {
            if second {
                state.push(Value::Str("unknown".to_string()));
            } else {
                state.ask(Request::EnvVar("LOGNAME".to_string()), Wait::Username { second: true });
            }
        },
    }
    Ok(())
}

/// `$exitcode` pushes the exit code of the last command as a string.
pub open spec fn spec_dollar_exitcode(s: StateModel) -> (StateModel, Outcome) {
    (s.push(ValueModel::Str(int_text(s.last_exit_code as int))), Ok(()))
}

/// `$exitcode` ( -- str ) Push the last exit code as a string.
pub fn dollar_exitcode(state: &mut State) -> (r: Result<(), String>)
    ensures
        (final(state)@, outcome(r)) == spec_dollar_exitcode(old(state)@),
{
    let text = format_int(state.last_exit_code as i64);
    state.push(Value::Str(text));
    Ok(())
}

/// `trace` pops the level of tracing and sets it: the string `on` is
/// level 2, the string `off` level 0, an integer from 0 to 3 is itself.
/// The new level is announced on standard error. Any other string or
/// integer is an error, and is gone; an output stays where it is.
pub open spec fn spec_trace_mode(s: StateModel) -> (StateModel, Outcome) {
    if s.request is Some {
        (s, Err(busy("trace"@)))
    } else if s.stack.len() == 0 {
        (s, Err("trace: stack underflow"@))
    } else {
        match s.peek(0) {
            ValueModel::Str(t) => if t == "on"@ {
                (
                    StateModel { trace: 2, ..s.drop(1) }.ask(
                        RequestModel::PrintErr("Trace mode ON (level 2)\n"@),
                        WaitModel::Nothing,
                    ),
                    Ok(()),
                )
            } else if t == "off"@ {
                (
                    StateModel { trace: 0, ..s.drop(1) }.ask(
                        RequestModel::PrintErr("Trace mode OFF\n"@),
                        WaitModel::Nothing,
                    ),
                    Ok(()),
                )
            } else {
                (s.drop(1), Err("trace: expected \"on\", \"off\", or 0-3"@))
            },
            ValueModel::Int(n) => if n == 0 {
                (
                    StateModel { trace: 0, ..s.drop(1) }.ask(
                        RequestModel::PrintErr("Trace mode OFF\n"@),
                        WaitModel::Nothing,
                    ),
                    Ok(()),
                )
            } else if 1 <= n <= 3 {
                (
                    StateModel { trace: n as u8, ..s.drop(1) }.ask(
                        RequestModel::PrintErr("Trace mode level "@ + int_text(n as int) + "\n"@),
                        WaitModel::Nothing,
                    ),
                    Ok(()),
                )
            } else {
                (s.drop(1), Err("trace: level must be 0-3"@))
            },
            ValueModel::Output(_) => (s, Err("trace: expected string or integer (0-3)"@)),
        }
    }
}

/// `trace` ( level -- ) Set trace verbosity level.
///
/// Accepts a string or integer:
///   "off" or 0 -- disable tracing
///   "on"  or 2 -- normal tracing (push/pop + stack)
///   1          -- minimal (push/pop only)
///   3          -- verbose (push/pop + doc strings + stack)
pub fn trace_mode(state: &mut State) -> (r: Result<(), String>)
    ensures
        (final(state)@, outcome(r)) == spec_trace_mode(old(state)@),
{
    if state.request.is_some() {
        return Err(join2("trace", ": a request to the host is pending"));
    }
    match state.pop() {
        None => Err("trace: stack underflow".to_string()),
        Some(Value::Str(s)) => {
            if str_eq(s.as_str(), "on") {
                state.trace = 2;
                state.ask(Request::PrintErr("Trace mode ON (level 2)\n".to_string()), Wait::Nothing);
                Ok(())
            } else if str_eq(s.as_str(), "off") {
                state.trace = 0;
                state.ask(Request::PrintErr("Trace mode OFF\n".to_string()), Wait::Nothing);
                Ok(())
            } else {
                Err("trace: expected \"on\", \"off\", or 0-3".to_string())
            }
        },
        Some(Value::Int(n)) => {
            if n == 0 {
                state.trace = 0;
                state.ask(Request::PrintErr("Trace mode OFF\n".to_string()), Wait::Nothing);
                Ok(())
            } else if 1 <= n && n <= 3 {
                state.trace = n as u8;
                state.ask(
                    Request::PrintErr(join3("Trace mode level ", format_int(n).as_str(), "\n")),
                    Wait::Nothing,
                );
                Ok(())
            } else {
                Err("trace: level must be 0-3".to_string())
            }
        },
        Some(other) => {
            state.push(other);
            assert(state@.stack =~= old(state)@.stack);
            Err("trace: expected string or integer (0-3)".to_string())
        },
    }
}

} // verus!
