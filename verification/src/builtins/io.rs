//! Words that print, convert values, and write files. Printing and writing
//! are asked of the host.

use vstd::prelude::*;
use crate::host::{reason, why, Request, RequestModel, Response, ResponseModel};
use crate::machine::{Wait, WaitModel};
use crate::text::{format_count, format_int, join2, join3, nat_digits, trim_end, trimmed_at_end};
use crate::types::{busy, outcome, Outcome, State, StateModel, Value, ValueModel};

verus! {

/// A word that pops a value and prints its text with `ending` behind it.
pub open spec fn spec_print_top(s: StateModel, op: Seq<char>, ending: Seq<char>) -> (
    StateModel,
    Outcome,
) {
    if s.request is Some {
        (s, Err(busy(op)))
    } else if s.stack.len() == 0 {
        (s, Err(op + ": stack underflow"@))
    } else {
        (
            s.drop(1).ask(RequestModel::Print(s.peek(0).text() + ending), WaitModel::Nothing),
            Ok(()),
        )
    }
}

fn print_top(state: &mut State, op: &str, ending: &str) -> (r: Result<(), String>)
    ensures
        (final(state)@, outcome(r)) == spec_print_top(old(state)@, op@, ending@),
{
    if state.request.is_some() {
        return Err(join2(op, ": a request to the host is pending"));
    }
    match state.pop() {
        Some(val) => {
            let mut text = val.to_string();
            text.append(ending);
            state.ask(Request::Print(text), Wait::Nothing);
            Ok(())
        },
        None => Err(join2(op, ": stack underflow")),
    }
}

/// `.` pops a value and prints it with a newline.
pub open spec fn spec_dot(s: StateModel) -> (StateModel, Outcome) {
    spec_print_top(s, "."@, "\n"@)
}

/// `.` ( a -- ) Print and remove top item with newline.
pub fn dot(state: &mut State) -> (r: Result<(), String>)
    ensures
        (final(state)@, outcome(r)) == spec_dot(old(state)@),
{
    print_top(state, ".", "\n")
}

/// `type` pops a value and prints it as it is.
pub open spec fn spec_type_word(s: StateModel) -> (StateModel, Outcome) {
    spec_print_top(s, "type"@, ""@)
}

/// `type` ( a -- ) Print and remove top item without newline.
pub fn type_word(state: &mut State) -> (r: Result<(), String>)
    ensures
        (final(state)@, outcome(r)) == spec_type_word(old(state)@),
{
    print_top(state, "type", "")
}

/// How `.s` shows one value: a string in double quotes, an integer in
/// decimal, an output between angle quotes and without the whitespace at
/// its end; a space follows each.
pub open spec fn shown(v: ValueModel) -> Seq<char> {
    match v {
        ValueModel::Str(s) => "\""@ + s + "\" "@,
        ValueModel::Int(n) => crate::text::int_text(n as int) + " "@,
        ValueModel::Output(s) => "«"@ + trim_end(s) + "» "@,
    }
}

/// How `.s` shows the values, bottom first.
pub open spec fn listing(stack: Seq<ValueModel>) -> Seq<char>
    decreases stack.len(),
{
    if stack.len() == 0 {
        Seq::empty()
    } else {
        listing(stack.drop_last()) + shown(stack.last())
    }
}

/// `.s` prints the number of values between angle brackets, then the
/// values, then a newline. The stack stays as it is.
pub open spec fn spec_dot_s(s: StateModel) -> (StateModel, Outcome) {
    if s.request is Some {
        (s, Err(busy(".s"@)))
    } else {
        (
            s.ask(
                RequestModel::Print(
                    "<"@ + nat_digits(s.stack.len()) + "> "@ + listing(s.stack) + "\n"@,
                ),
                WaitModel::Nothing,
            ),
            Ok(()),
        )
    }
}

/// `.s` ( -- ) Display entire stack without modifying it.
pub fn dot_s(state: &mut State) -> (r: Result<(), String>)
    ensures
        (final(state)@, outcome(r)) == spec_dot_s(old(state)@),
{
    if state.request.is_some() {
        return Err(join2(".s", ": a request to the host is pending"));
    }
    let mut text = join3("<", format_count(state.stack.len()).as_str(), "> ");
    let ghost head = text@;
    let mut i: usize = 0;
    assert(state@.stack.take(0) =~= Seq::<ValueModel>::empty());
    assert(head + listing(state@.stack.take(0)) =~= head);
    while i < state.stack.len()
        invariant
            i <= state.stack.len(),
            state@ == old(state)@,
            text@ == head + listing(state@.stack.take(i as int)),
        decreases state.stack.len() - i,
    {
        proof {
            let t = state@.stack.take(i + 1);
            assert(t.drop_last() =~= state@.stack.take(i as int));
            assert(t.last() == state.stack@[i as int]@);
        }
        let ghost before = text@;
        match &state.stack[i] {
            Value::Str(s) => {
                text.append("\"");
                text.append(s.as_str());
                text.append("\" ");
                assert(text@ =~= before + ("\""@ + s@ + "\" "@));
            },
            Value::Int(n) => {
                text.append(format_int(*n).as_str());
                text.append(" ");
                assert(text@ =~= before + (crate::text::int_text(*n as int) + " "@));
            },
            Value::Output(s) => {
                text.append("«");
                text.append(trimmed_at_end(s.as_str()).as_str());
                text.append("» ");
                assert(text@ =~= before + ("«"@ + trim_end(s@) + "» "@));
            },
        }
        assert(text@ =~= head + (listing(state@.stack.take(i as int)) + shown(
            state.stack@[i as int]@,
        )));
        i = i + 1;
    }
    assert(state@.stack.take(state.stack.len() as int) =~= state@.stack);
    text.append("\n");
    state.ask(Request::Print(text), Wait::Nothing);
    Ok(())
}

/// `>output` turns a string into an output and leaves an output as it is.
/// An integer is an error, and is gone.
pub open spec fn spec_to_output(s: StateModel) -> (StateModel, Outcome) {
    if s.stack.len() == 0 {
        (s, Err(">output: stack underflow"@))
    } else {
        match s.peek(0) {
            ValueModel::Str(t) => (s.drop(1).push(ValueModel::Output(t)), Ok(())),
            ValueModel::Output(_) => (s, Ok(())),
            ValueModel::Int(_) => (s.drop(1), Err(">output: requires string"@)),
        }
    }
}

/// `>output` ( string -- output ) Convert Str to Output for piping.
pub fn to_output(state: &mut State) -> (r: Result<(), String>)
    ensures
        (final(state)@, outcome(r)) == spec_to_output(old(state)@),
{
    match state.pop() {
        None => Err(">output: stack underflow".to_string()),
        Some(Value::Str(s)) => {
            state.push(Value::Output(s));
            Ok(())
        },
        Some(Value::Output(s)) => {
            // Already an output, push back
            state.push(Value::Output(s));
            assert(state@.stack =~= old(state)@.stack);
            Ok(())
        },
        Some(Value::Int(_)) => Err(">output: requires string".to_string()),
    }
}

/// `>string` turns an output into a string and an integer into its
/// decimal text, and leaves a string as it is.
pub open spec fn spec_to_string_word(s: StateModel) -> (StateModel, Outcome) {
    if s.stack.len() == 0 {
        (s, Err(">string: stack underflow"@))
    } else {
        (s.drop(1).push(ValueModel::Str(s.peek(0).text())), Ok(()))
    }
}

/// `>string` ( output/int -- string ) Convert Output or Int to Str.
pub fn to_string_word(state: &mut State) -> (r: Result<(), String>)
    ensures
        (final(state)@, outcome(r)) == spec_to_string_word(old(state)@),
{
    match state.pop() {
        None => Err(">string: stack underflow".to_string()),
        Some(val) => {
            state.push(Value::Str(val.to_string()));
            Ok(())
        },
    }
}

// ========== File I/O ==========

/// A word that takes a file name from the top of the stack and an output
/// below it, and asks for the output to be written to the file. Values of
/// other kinds stay where they are.
pub open spec fn spec_file_word(s: StateModel, op: Seq<char>, append: bool) -> (StateModel, Outcome) {
    if s.request is Some {
        (s, Err(busy(op)))
    } else if s.stack.len() < 2 {
        (s, Err(op + ": stack underflow"@))
    } else {
        match (s.peek(1), s.peek(0)) {
            (ValueModel::Output(data), ValueModel::Str(path)) => (
                s.drop(2).ask(
                    RequestModel::WriteFile { path, data, append },
                    WaitModel::Written { word: op, path },
                ),
                Ok(()),
            ),
            _ => (s, Err(op + ": requires output and filename string"@)),
        }
    }
}

fn file_word(state: &mut State, op: &str, append: bool) -> (r: Result<(), String>)
    ensures
        (final(state)@, outcome(r)) == spec_file_word(old(state)@, op@, append),
{
    if state.request.is_some() {
        return Err(join2(op, ": a request to the host is pending"));
    }
    if state.stack.len() < 2 {
        return Err(join2(op, ": stack underflow"));
    }
    let filename = state.pop().unwrap();
    let content = state.pop().unwrap();
    assert(state@.stack =~= old(state)@.drop(2).stack);
    match (content, filename) {
        (Value::Output(data), Value::Str(path)) => {
            let wait = Wait::Written { word: op.to_string(), path: path.clone() };
            state.ask(Request::WriteFile { path, data, append }, wait);
            Ok(())
        },
        (c, f) => {
            state.push(c);
            state.push(f);
            assert(state@.stack =~= old(state)@.stack);
            Err(join2(op, ": requires output and filename string"))
        },
    }
}

/// `>file` has an output written to a file, in place of what the file holds.
pub open spec fn spec_write_file(s: StateModel) -> (StateModel, Outcome) {
    spec_file_word(s, ">file"@, false)
}

/// `>file` ( content filename -- ) Write output to file (create/truncate).
pub fn write_file(state: &mut State) -> (r: Result<(), String>)
    ensures
        (final(state)@, outcome(r)) == spec_write_file(old(state)@),
{
    file_word(state, ">file", false)
}

/// `>>file` has an output written to a file, after what the file holds.
pub open spec fn spec_append_file(s: StateModel) -> (StateModel, Outcome) {
    spec_file_word(s, ">>file"@, true)
}

/// `>>file` ( content filename -- ) Append output to file (create if needed).
pub fn append_file(state: &mut State) -> (r: Result<(), String>)
    ensures
        (final(state)@, outcome(r)) == spec_append_file(old(state)@),
{
    file_word(state, ">>file", true)
}

/// The answer to a request that only had to be carried out, on behalf of
/// `word` and about `subject`: done, or an error that names both.
pub open spec fn spec_finish_done(
    s: StateModel,
    word: Seq<char>,
    subject: Seq<char>,
    response: ResponseModel,
) -> (StateModel, Outcome) {
    match response {
        ResponseModel::Done => (s, Ok(())),
        _ => (s, Err(word + ": "@ + subject + ": "@ + why(response))),
    }
}

/// Takes the answer to a request that only had to be carried out.
pub fn finish_done(state: &mut State, word: &str, subject: &str, response: Response) -> (r: Result<
    (),
    String,
>)
    ensures
        (final(state)@, outcome(r)) == spec_finish_done(old(state)@, word@, subject@, response@),
{
    match response {
        Response::Done => Ok(()),
        other => {
            let mut msg = join3(word, ": ", subject);
            msg.append(": ");
            msg.append(reason(other).as_str());
            Err(msg)
        },
    }
}

} // verus!
