//! What the read-evaluate-print loop decides: the prompt, what a line of
//! input is, which lines of a startup file are evaluated, and what is shown
//! after a line has been evaluated.

use vstd::prelude::*;
use crate::builtins::introspection::{indicator, stack_indicator};
use crate::text::{chars_of, join3, lines_of, split_lines, str_eq, trim, trimmed};
use crate::types::{copy_values, State, StateModel, Value, ValueModel};

verus! {

/// The prompt without a custom one: the name of the shell, what the stack
/// holds, and `> `.
pub open spec fn spec_build_default_prompt(s: StateModel) -> Seq<char> {
    "yafsh"@ + indicator(s.stack) + "> "@
}

/// Build the default prompt string based on stack state.
pub fn build_default_prompt(state: &State) -> (r: String)
    ensures
        r@ == spec_build_default_prompt(state@),
{
    join3("yafsh", stack_indicator(state.stack.as_slice()).as_str(), "> ")
}

/// The name of the word that builds a custom prompt.
pub open spec fn prompt_word() -> Seq<char> {
    "$prompt"@
}

/// Before the custom prompt is evaluated: where the dictionary has the
/// word `$prompt`, the stack is put aside and emptied, and the prompt
/// words are shown the stack that was put aside.
pub open spec fn spec_begin_custom_prompt(s: StateModel) -> (StateModel, Option<Seq<ValueModel>>) {
    if s.dict.contains_key(prompt_word()) {
        (
            StateModel {
                stack: Seq::empty(),
                prompt_eval_original_stack: Some(s.stack),
                ..s
            },
            Some(s.stack),
        )
    } else {
        (s, None)
    }
}

/// Gets ready to evaluate the custom prompt. Returns the stack that was
/// put aside, or nothing where there is no custom prompt.
pub fn begin_custom_prompt(state: &mut State) -> (saved: Option<Vec<Value>>)
    ensures
        (final(state)@, saved.deep_view()) == spec_begin_custom_prompt(old(state)@),
{
    // Check if $prompt is defined in the dictionary
    if !state.dict.contains_key("$prompt") {
        return None;
    }
    // Save the real stack
    let mut saved: Vec<Value> = Vec::new();
    core::mem::swap(&mut saved, &mut state.stack);
    state.prompt_eval_original_stack = Some(copy_values(&saved));
    assert(state@.stack =~= Seq::<ValueModel>::empty());
    Some(saved)
}

/// The texts of the values in a row.
pub open spec fn texts_in_a_row(stack: Seq<ValueModel>) -> Seq<char>
    decreases stack.len(),
{
    if stack.len() == 0 {
        Seq::empty()
    } else {
        texts_in_a_row(stack.drop_last()) + stack.last().text()
    }
}

/// After the custom prompt was evaluated: the prompt is what the stack
/// holds, in a row, if the evaluation went well, and nothing otherwise.
/// The stack that was put aside is back in its place.
pub open spec fn spec_finish_custom_prompt(s: StateModel, saved: Seq<ValueModel>, ok: bool) -> (
    StateModel,
    Option<Seq<char>>,
) {
    (
        StateModel { stack: saved, prompt_eval_original_stack: None, ..s },
        if ok {
            Some(texts_in_a_row(s.stack))
        } else {
            None
        },
    )
}

/// Collects the custom prompt and puts the stack back.
pub fn finish_custom_prompt(state: &mut State, saved: Vec<Value>, ok: bool) -> (prompt: Option<
    String,
>)
    ensures
        (final(state)@, prompt.deep_view()) == spec_finish_custom_prompt(
            old(state)@,
            saved.deep_view(),
            ok,
        ),
{
    // Collect the prompt from the stack
    let prompt = if ok {
        let mut text = String::new();
        let mut i: usize = 0;
        assert(state@.stack.take(0) =~= Seq::<ValueModel>::empty());
        while i < state.stack.len()
            invariant
                i <= state.stack.len(),
                state@ == old(state)@,
                text@ == texts_in_a_row(state@.stack.take(i as int)),
            decreases state.stack.len() - i,
        {
            proof {
                let t = state@.stack.take(i + 1);
                assert(t.drop_last() =~= state@.stack.take(i as int));
                assert(t.last() == state.stack@[i as int]@);
            }
            text.append(state.stack[i].to_string().as_str());
            i = i + 1;
        }
        assert(state@.stack.take(state.stack.len() as int) =~= state@.stack);
        Some(text)
    } else {
        None
    };
    // Restore the original stack
    state.stack = saved;
    state.prompt_eval_original_stack = None;
    prompt
}

/// What is shown after a line was evaluated: the output on top of the
/// stack, if an output is on top. It stays on the stack.
pub open spec fn spec_auto_type_output(s: StateModel) -> Option<Seq<char>> {
    if s.stack.len() > 0 {
        match s.peek(0) {
            ValueModel::Output(text) => Some(text),
            _ => None,
        }
    } else {
        None
    }
}

/// Auto-type: if top of stack is Output, it is to be printed (but kept on stack).
pub fn auto_type_output(state: &State) -> (r: Option<String>)
    ensures
        r.deep_view() == spec_auto_type_output(state@),
{
    let n = state.stack.len();
    if n == 0 {
        return None;
    }
    match &state.stack[n - 1] {
        Value::Output(s) => Some(s.clone()),
        _ => None,
    }
}

/// What a line of input asks for.
#[derive(Debug, PartialEq)]
pub enum Input {
    /// Nothing: the line is blank.
    Blank,
    /// To leave the shell.
    Quit,
    /// To evaluate the text.
    Eval(String),
}

/// The model of an [`Input`].
pub enum InputModel {
    Blank,
    Quit,
    Eval(Seq<char>),
}

impl DeepView for Input {
    type V = InputModel;

    open spec fn deep_view(&self) -> InputModel {
        match self {
            Input::Blank => InputModel::Blank,
            Input::Quit => InputModel::Quit,
            Input::Eval(s) => InputModel::Eval(s@),
        }
    }
}

impl View for Input {
    type V = InputModel;

    open spec fn view(&self) -> InputModel {
        self.deep_view()
    }
}

/// A line of input without the whitespace around it: blank, a request to
/// leave (`exit` or `quit`), or text to evaluate.
pub open spec fn spec_read_input(line: Seq<char>) -> InputModel {
    let text = trim(line);
    if text.len() == 0 {
        InputModel::Blank
    } else if text == "exit"@ || text == "quit"@ {
        InputModel::Quit
    } else {
        InputModel::Eval(text)
    }
}

/// Tells what a line of input asks for.
pub fn read_input(line: &str) -> (r: Input)
    ensures
        r@ == spec_read_input(line@),
{
    let text = trimmed(line);
    if text.as_str().is_empty() {
        Input::Blank
    } else if str_eq(text.as_str(), "exit") || str_eq(text.as_str(), "quit") {
        Input::Quit
    } else {
        Input::Eval(text)
    }
}

/// True for a line of a startup file that is evaluated: one that is not
/// blank and is no comment, which begins with `#`.
pub open spec fn is_command(line: Seq<char>) -> bool {
    line.len() > 0 && line[0] != '#'
}

/// The lines of a startup file that are evaluated, in order, each without
/// the whitespace around it.
pub open spec fn spec_rc_commands(contents: Seq<char>) -> Seq<Seq<char>> {
    split_lines(contents).map_values(|line: Seq<char>| trim(line)).filter(
        |line: Seq<char>| is_command(line),
    )
}

/// The commands of a startup file.
pub fn rc_commands(contents: &str) -> (r: Vec<String>)
    ensures
        r.deep_view() == spec_rc_commands(contents@),
{
    let lines = lines_of(contents);
    let ghost all = split_lines(contents@).map_values(|line: Seq<char>| trim(line));
    let ghost pred = |line: Seq<char>| is_command(line);
    let mut r: Vec<String> = Vec::new();
    let mut i: usize = 0;
    assert(all.take(0) =~= Seq::<Seq<char>>::empty());
    assert(r.deep_view() =~= Seq::<Seq<char>>::empty());
    while i < lines.len()
        invariant
            i <= lines.len(),
            lines.deep_view() == split_lines(contents@),
            all == split_lines(contents@).map_values(|line: Seq<char>| trim(line)),
            pred == (|line: Seq<char>| is_command(line)),
            r.deep_view() == all.take(i as int).filter(pred),
        decreases lines.len() - i,
    {
        let text = trimmed(lines[i].as_str());
        let ghost before = r.deep_view();
        proof {
            let t = all.take(i + 1);
            assert(t.drop_last() =~= all.take(i as int));
            assert(t.last() == text@);
            reveal(Seq::filter);
        }
        let v = chars_of(text.as_str());
        if v.len() > 0 && v[0] != '#' {
            r.push(text);
            assert(r.deep_view() =~= before.push(all[i as int]));
        }
        i = i + 1;
    }
    assert(all.take(lines.len() as int) =~= all);
    r
}

} // verus!
