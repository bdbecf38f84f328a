//! Tracing: what is reported of each token that is executed while tracing
//! is on.

use vstd::prelude::*;
use crate::host::{Request, RequestModel};
use crate::machine::{Wait, WaitModel};
use crate::text::{
    byte_len, chars_of, chars_within, chars_within_from, format_count, format_int, int_text,
    join2, join3, lemma_byte_len_prefix, lemma_byte_len_push, lines_of, nat_digits, push_char,
    split_lines, string_of, trim_end, trimmed_at_end, width_of,
};
use crate::types::{outcome, Outcome, State, StateModel, Value, ValueModel, Word, WordModel};

verus! {

// ANSI color codes
/// Ends a colour or a style.
pub const C_RESET: &'static str = "\x1b[0m";

/// Bold.
pub const C_BOLD: &'static str = "\x1b[1m";

/// Dim.
pub const C_DIM: &'static str = "\x1b[2m";

/// Red.
pub const C_RED: &'static str = "\x1b[31m";

/// Green.
pub const C_GREEN: &'static str = "\x1b[32m";

/// Yellow.
pub const C_YELLOW: &'static str = "\x1b[33m";

/// Magenta.
pub const C_MAGENTA: &'static str = "\x1b[35m";

/// Cyan.
pub const C_CYAN: &'static str = "\x1b[36m";

/// The start of a text that takes at most `limit` bytes: as many whole
/// characters as fit.
pub open spec fn byte_prefix(s: Seq<char>, limit: usize) -> Seq<char> {
    s.take(chars_within(s, limit))
}

fn prefix_of_bytes(s: &str, limit: usize) -> (r: String)
    ensures
        r@ == byte_prefix(s@, limit),
{
    let v = chars_of(s);
    let total = s.as_bytes().len();
    let mut k: usize = 0;
    let mut offset: usize = 0;
    proof {
        assert(s@.take(0) =~= Seq::<char>::empty());
        assert(vstd::utf8::encode_utf8(Seq::<char>::empty()).len() == 0);
    }
    loop
        invariant
            k <= v.len(),
            v@ == s@,
            total == byte_len(s@),
            offset == byte_len(s@.take(k as int)),
            chars_within(s@, limit) == chars_within_from(s@, limit, k as int),
        ensures
            k <= v.len(),
            v@ == s@,
            chars_within(s@, limit) == k,
        decreases v.len() - k,
    {
        if k >= v.len() {
            break ;
        }
        proof {
            assert(s@.take(k + 1) =~= s@.take(k as int).push(v@[k as int]));
            lemma_byte_len_push(s@.take(k as int), v@[k as int]);
            lemma_byte_len_prefix(s@, k + 1);
        }
        let next = offset + width_of(v[k]);
        if next > limit {
            break ;
        }
        offset = next;
        k = k + 1;
    }
    assert(v@.subrange(0, k as int) =~= s@.take(k as int));
    string_of(&v, 0, k)
}

/// How an output is shown in a trace: its text between `open` and `close`
/// without the whitespace at its end, cut after 27 bytes and followed by
/// three dots where it takes more than 30 bytes; for an output of more
/// than one line, the number of its lines.
pub open spec fn output_summary(s: Seq<char>, open: Seq<char>, close: Seq<char>) -> Seq<char> {
    let lines = split_lines(s).len();
    if lines <= 1 {
        let text = trim_end(s);
        if byte_len(text) > 30 {
            open + byte_prefix(text, 27) + "..."@ + close
        } else {
            open + text + close
        }
    } else {
        "<<output "@ + nat_digits(lines) + " lines>>"@
    }
}

/// How a value is shown in the description of a step.
pub open spec fn spec_trace_fmt_value(v: ValueModel) -> Seq<char> {
    match v {
        ValueModel::Str(s) => "\""@ + s + "\""@,
        ValueModel::Int(n) => int_text(n as int),
        ValueModel::Output(s) => output_summary(s, "<<"@, ">>"@),
    }
}

/// Format a single value for trace display (compact, no colors).
pub fn trace_fmt_value(val: &Value) -> (r: String)
    ensures
        r@ == spec_trace_fmt_value(val@),
{
    match val {
        Value::Str(s) => join3("\"", s.as_str(), "\""),
        Value::Int(n) => format_int(*n),
        Value::Output(s) => {
            let line_count = lines_of(s.as_str()).len();
            if line_count <= 1 {
                let text = trimmed_at_end(s.as_str());
                if text.as_str().as_bytes().len() > 30 {
                    let mut r = join2("<<", prefix_of_bytes(text.as_str(), 27).as_str());
                    r.append("...");
                    r.append(">>");
                    r
                } else {
                    join3("<<", text.as_str(), ">>")
                }
            } else {
                join3("<<output ", format_count(line_count).as_str(), " lines>>")
            }
        },
    }
}

/// How a value is shown in the listing of the stack, in colour.
pub open spec fn spec_trace_fmt_value_colored(v: ValueModel) -> Seq<char> {
    match v {
        ValueModel::Str(s) => C_YELLOW@ + "\""@ + s + "\""@ + C_RESET@,
        ValueModel::Int(n) => C_CYAN@ + int_text(n as int) + C_RESET@,
        ValueModel::Output(s) => if split_lines(s).len() <= 1 {
            output_summary(s, C_MAGENTA@ + "<<"@ + C_RESET@, C_MAGENTA@ + ">>"@ + C_RESET@)
        } else {
            C_MAGENTA@ + output_summary(s, "<<"@, ">>"@) + C_RESET@
        },
    }
}

/// Format a single value for trace display with colors.
pub fn trace_fmt_value_colored(val: &Value) -> (r: String)
    ensures
        r@ == spec_trace_fmt_value_colored(val@),
{
    match val {
        Value::Str(s) => {
            let mut r = join3(C_YELLOW, "\"", s.as_str());
            r.append("\"");
            r.append(C_RESET);
            r
        },
        Value::Int(n) => join3(C_CYAN, format_int(*n).as_str(), C_RESET),
        Value::Output(s) => {
            let line_count = lines_of(s.as_str()).len();
            if line_count <= 1 {
                let text = trimmed_at_end(s.as_str());
                let mut r = join3(C_MAGENTA, "<<", C_RESET);
                let ghost open = r@;
                if text.as_str().as_bytes().len() > 30 {
                    r.append(prefix_of_bytes(text.as_str(), 27).as_str());
                    r.append("...");
                } else {
                    r.append(text.as_str());
                }
                let ghost inner = r@;
                r.append(C_MAGENTA);
                r.append(">>");
                r.append(C_RESET);
                assert(r@ =~= inner + (C_MAGENTA@ + ">>"@ + C_RESET@));
                r
            } else {
                let mut r = join3(C_MAGENTA, "<<output ", format_count(line_count).as_str());
                r.append(" lines>>");
                r.append(C_RESET);
                assert(r@ =~= C_MAGENTA@ + ("<<output "@ + nat_digits(line_count as nat)
                    + " lines>>"@) + C_RESET@);
                r
            }
        },
    }
}

/// The texts in a row with `sep` between them.
pub open spec fn joined(parts: Seq<Seq<char>>, sep: Seq<char>) -> Seq<char>
    decreases parts.len(),
{
    if parts.len() == 0 {
        Seq::empty()
    } else if parts.len() == 1 {
        parts[0]
    } else {
        joined(parts.drop_last(), sep) + sep + parts.last()
    }
}

fn join_with(parts: &Vec<String>, sep: &str) -> (r: String)
    ensures
        r@ == joined(parts.deep_view(), sep@),
{
    let mut r = String::new();
    let mut i: usize = 0;
    assert(parts.deep_view().take(0) =~= Seq::<Seq<char>>::empty());
    while i < parts.len()
        invariant
            i <= parts.len(),
            r@ == joined(parts.deep_view().take(i as int), sep@),
        decreases parts.len() - i,
    {
        proof {
            let t = parts.deep_view().take(i + 1);
            assert(t.drop_last() =~= parts.deep_view().take(i as int));
            assert(t.last() == parts@[i as int]@);
            if i == 0 {
                assert(t[0] == parts@[0]@);
                assert(r@ + parts@[0]@ =~= parts@[0]@);
            }
        }
        if i > 0 {
            r.append(sep);
        }
        r.append(parts[i].as_str());
        i = i + 1;
    }
    assert(parts.deep_view().take(parts.len() as int) =~= parts.deep_view());
    r
}

/// How the stack is shown in a trace: its values in colour with a space
/// between them, or a note that it is empty.
pub open spec fn spec_trace_fmt_stack(stack: Seq<ValueModel>) -> Seq<char> {
    if stack.len() == 0 {
        C_DIM@ + "(empty)"@ + C_RESET@
    } else {
        joined(stack.map_values(|v: ValueModel| spec_trace_fmt_value_colored(v)), " "@)
    }
}

/// Format the stack contents for trace display with colors.
pub fn trace_fmt_stack(stack: &[Value]) -> (r: String)
    ensures
        r@ == spec_trace_fmt_stack(stack.deep_view()),
{
    if stack.len() == 0 {
        join3(C_DIM, "(empty)", C_RESET)
    } else {
        let mut items: Vec<String> = Vec::new();
        let mut i: usize = 0;
        while i < stack.len()
            invariant
                i <= stack.len(),
                items.len() == i,
                forall|k: int|
                    0 <= k < i ==> items@[k]@ == spec_trace_fmt_value_colored(stack@[k]@),
            decreases stack.len() - i,
        {
            items.push(trace_fmt_value_colored(&stack[i]));
            i = i + 1;
        }
        assert(items.deep_view() =~= stack.deep_view().map_values(
            |v: ValueModel| spec_trace_fmt_value_colored(v),
        ));
        join_with(&items, " ")
    }
}

/// True when two values are the same.
pub fn same_value(a: &Value, b: &Value) -> (r: bool)
    ensures
        r == (a@ == b@),
{
    match (a, b) {
        (Value::Str(x), Value::Str(y)) => *x == *y,
        (Value::Int(x), Value::Int(y)) => *x == *y,
        (Value::Output(x), Value::Output(y)) => *x == *y,
        _ => false,
    }
}

/// How many values two stacks have in common at the bottom.
pub open spec fn common_prefix(a: Seq<ValueModel>, b: Seq<ValueModel>) -> int
    decreases a.len(),
{
    if a.len() == 0 || b.len() == 0 || a[0] != b[0] {
        0
    } else {
        1 + common_prefix(a.skip(1), b.skip(1))
    }
}

proof fn lemma_common_prefix(a: Seq<ValueModel>, b: Seq<ValueModel>, k: int)
    requires
        0 <= k <= a.len(),
        k <= b.len(),
        forall|i: int| 0 <= i < k ==> a[i] == b[i],
        k == a.len() || k == b.len() || a[k] != b[k],
    ensures
        common_prefix(a, b) == k,
    decreases k,
{
    if k > 0 {
        let x = a.skip(1);
        let y = b.skip(1);
        assert forall|i: int| 0 <= i < k - 1 implies x[i] == y[i] by {
            assert(x[i] == a[i + 1] && y[i] == b[i + 1]);
        }
        lemma_common_prefix(x, y, k - 1);
    }
}

/// The values as they are shown in the description of a step.
pub open spec fn described(values: Seq<ValueModel>) -> Seq<Seq<char>> {
    values.map_values(|v: ValueModel| spec_trace_fmt_value(v))
}

/// What a step did to the stack: the values it popped, topmost first, and
/// the values it pushed, or a note that the stack did not change.
pub open spec fn spec_trace_describe_diff(before: Seq<ValueModel>, after: Seq<ValueModel>) -> Seq<
    char,
> {
    let common = common_prefix(before, after);
    let popped = C_RED@ + "pop"@ + C_RESET@ + " "@ + joined(
        described(before.skip(common).reverse()),
        ", "@,
    );
    let pushed = C_GREEN@ + "push"@ + C_RESET@ + " "@ + joined(
        described(after.skip(common)),
        ", "@,
    );
    if before.len() > common && after.len() > common {
        popped + "; "@ + pushed
    } else if before.len() > common {
        popped
    } else if after.len() > common {
        pushed
    } else {
        C_DIM@ + "(no stack change)"@ + C_RESET@
    }
}

/// Describe the diff between stack states before and after a token execution.
pub fn trace_describe_diff(before: &[Value], after: &[Value]) -> (r: String)
    ensures
        r@ == spec_trace_describe_diff(before.deep_view(), after.deep_view()),
{
    // Find common prefix length
    let mut common: usize = 0;
    while common < before.len() && common < after.len() && same_value(
        &before[common],
        &after[common],
    )
        invariant
            common <= before.len(),
            common <= after.len(),
            forall|i: int| 0 <= i < common ==> before.deep_view()[i] == after.deep_view()[i],
        decreases before.len() - common,
    {
        common = common + 1;
    }
    proof {
        lemma_common_prefix(before.deep_view(), after.deep_view(), common as int);
    }
    let mut popped: Vec<String> = Vec::new();
    let mut i: usize = before.len();
    while i > common
        invariant
            common <= i <= before.len(),
            popped.len() == before.len() - i,
            forall|k: int|
                0 <= k < popped.len() ==> popped@[k]@ == spec_trace_fmt_value(
                    before@[before.len() - 1 - k]@,
                ),
        decreases i,
    {
        i = i - 1;
        popped.push(trace_fmt_value(&before[i]));
    }
    assert(popped.deep_view() =~= described(before.deep_view().skip(common as int).reverse()));
    let mut pushed: Vec<String> = Vec::new();
    let mut i: usize = common;
    while i < after.len()
        invariant
            common <= i <= after.len(),
            pushed.len() == i - common,
            forall|k: int|
                0 <= k < pushed.len() ==> pushed@[k]@ == spec_trace_fmt_value(after@[common + k]@),
        decreases after.len() - i,
    {
        pushed.push(trace_fmt_value(&after[i]));
        i = i + 1;
    }
    assert(pushed.deep_view() =~= described(after.deep_view().skip(common as int)));
    let mut pop_text = join3(C_RED, "pop", C_RESET);
    pop_text.append(" ");
    pop_text.append(join_with(&popped, ", ").as_str());
    let mut push_text = join3(C_GREEN, "push", C_RESET);
    push_text.append(" ");
    push_text.append(join_with(&pushed, ", ").as_str());
    if popped.len() > 0 && pushed.len() > 0 {
        join3(pop_text.as_str(), "; ", push_text.as_str())
    } else if popped.len() > 0 {
        pop_text
    } else if pushed.len() > 0 {
        push_text
    } else {
        join3(C_DIM, "(no stack change)", C_RESET)
    }
}

/// The doc string that goes with a token: that of a native operation, a
/// fixed note for a defined word, none for anything else and for a quoted
/// token.
pub open spec fn spec_trace_lookup_doc(s: StateModel, token: Seq<char>, is_quoted: bool) -> Option<
    Seq<char>,
> {
    if is_quoted || !s.dict.contains_key(token) {
        None
    } else {
        match s.dict[token] {
            WordModel::Builtin(_, Some(doc)) => Some(doc),
            WordModel::Defined(_) => Some("(user-defined word)"@),
            _ => None,
        }
    }
}

/// Look up the doc string for a token from the dictionary.
pub fn trace_lookup_doc(state: &State, token: &str, is_quoted: bool) -> (r: Option<String>)
    ensures
        r.deep_view() == spec_trace_lookup_doc(state@, token@, is_quoted),
{
    if is_quoted {
        return None;
    }
    match state.dict.get(token) {
        Some(Word::Builtin(_, Some(doc))) => {
            let text: &str = *doc;
            Some(text.to_string())
        },
        Some(Word::Defined(_)) => Some("(user-defined word)".to_string()),
        _ => None,
    }
}

/// `n` spaces.
pub open spec fn spaces(n: nat) -> Seq<char> {
    Seq::new(n, |i: int| ' ')
}

fn blank(n: usize) -> (r: String)
    ensures
        r@ == spaces(n as nat),
{
    let mut r = String::new();
    let mut i: usize = 0;
    while i < n
        invariant
            i <= n,
            r@ == spaces(i as nat),
        decreases n - i,
    {
        push_char(&mut r, ' ');
        assert(r@ =~= spaces((i + 1) as nat));
        i = i + 1;
    }
    r
}

/// A text with spaces behind it up to `width` characters.
pub open spec fn padded(text: Seq<char>, width: nat) -> Seq<char> {
    if text.len() >= width {
        text
    } else {
        text + spaces((width - text.len()) as nat)
    }
}

/// How the token is shown in a report: in double quotes and yellow if it
/// was quoted, and bold otherwise.
pub open spec fn display_token(token: Seq<char>, is_quoted: bool) -> Seq<char> {
    if is_quoted {
        C_YELLOW@ + "\""@ + token + "\""@
    } else {
        C_BOLD@ + token
    }
}

/// The first line of a report: the number of the step, the token in a
/// column of 20 characters, and what the step did to the stack.
pub open spec fn step_line(
    step: usize,
    token: Seq<char>,
    is_quoted: bool,
    before: Seq<ValueModel>,
    after: Seq<ValueModel>,
) -> Seq<char> {
    "  "@ + C_DIM@ + "Step "@ + nat_digits(step as nat) + C_RESET@ + " "@ + padded(
        display_token(token, is_quoted),
        20,
    ) + C_RESET@ + " \u{2192} "@ + spec_trace_describe_diff(before, after) + "\n"@
}

/// The line of a report that holds the doc string: from level 3 on, if
/// there is a doc string.
pub open spec fn doc_line(level: u8, doc: Option<Seq<char>>) -> Seq<char> {
    if level >= 3 && doc is Some {
        "  "@ + C_DIM@ + spaces(28) + " "@ + doc->0 + C_RESET@ + "\n"@
    } else {
        Seq::empty()
    }
}

/// The line of a report that holds the stack: from level 2 on.
pub open spec fn stack_line(level: u8, after: Seq<ValueModel>) -> Seq<char> {
    if level >= 2 {
        "  "@ + C_DIM@ + spaces(28) + " Stack:"@ + C_RESET@ + " "@ + spec_trace_fmt_stack(after)
            + "\n"@
    } else {
        Seq::empty()
    }
}

/// The report of one step: its first line, then the line with the doc
/// string, then the line with the stack.
pub open spec fn spec_trace_step_text(
    level: u8,
    step: usize,
    token: Seq<char>,
    is_quoted: bool,
    before: Seq<ValueModel>,
    after: Seq<ValueModel>,
    doc: Option<Seq<char>>,
) -> Seq<char> {
    step_line(step, token, is_quoted, before, after) + doc_line(level, doc) + stack_line(
        level,
        after,
    )
}

fn shown_token(token: &str, is_quoted: bool) -> (r: String)
    ensures
        r@ == padded(display_token(token@, is_quoted), 20),
{
    let mut display = if is_quoted {
        let mut d = join3(C_YELLOW, "\"", token);
        d.append("\"");
        d
    } else {
        join2(C_BOLD, token)
    };
    let n = chars_of(display.as_str()).len();
    if n < 20 {
        display.append(blank(20 - n).as_str());
    }
    display
}

fn first_line(step: usize, token: &str, is_quoted: bool, before: &[Value], after: &[Value]) -> (r:
    String)
    ensures
        r@ == step_line(step, token@, is_quoted, before.deep_view(), after.deep_view()),
{
    let mut r = join3("  ", C_DIM, "Step ");
    r.append(format_count(step).as_str());
    r.append(C_RESET);
    r.append(" ");
    r.append(shown_token(token, is_quoted).as_str());
    r.append(C_RESET);
    r.append(" \u{2192} ");
    r.append(trace_describe_diff(before, after).as_str());
    r.append("\n");
    r
}

fn second_line(level: u8, doc: Option<&str>) -> (r: String)
    ensures
        r@ == doc_line(level, doc.deep_view()),
{
    match doc {
        Some(text) => {
            if level >= 3 {
                let mut r = join3("  ", C_DIM, blank(28).as_str());
                r.append(" ");
                r.append(text);
                r.append(C_RESET);
                r.append("\n");
                r
            } else {
                String::new()
            }
        },
        None => String::new(),
    }
}

fn third_line(level: u8, after: &[Value]) -> (r: String)
    ensures
        r@ == stack_line(level, after.deep_view()),
{
    if level >= 2 {
        let mut r = join3("  ", C_DIM, blank(28).as_str());
        r.append(" Stack:");
        r.append(C_RESET);
        r.append(" ");
        r.append(trace_fmt_stack(after).as_str());
        r.append("\n");
        r
    } else {
        String::new()
    }
}

/// The text of the trace line for a token evaluation step.
///
/// Verbosity levels:
///   1 = push/pop description only
///   2 = push/pop + stack state
///   3 = push/pop + doc string + stack state
pub fn trace_step_text(
    level: u8,
    step: usize,
    token: &str,
    is_quoted: bool,
    before: &[Value],
    after: &[Value],
    doc: Option<&str>,
) -> (r: String)
    ensures
        r@ == spec_trace_step_text(
            level,
            step,
            token@,
            is_quoted,
            before.deep_view(),
            after.deep_view(),
            doc.deep_view(),
        ),
{
    join3(
        first_line(step, token, is_quoted, before, after).as_str(),
        second_line(level, doc).as_str(),
        third_line(level, after).as_str(),
    )
}

/// The number of the step after step `n`.
pub open spec fn next_step(n: usize) -> usize {
    if n < usize::MAX {
        (n + 1) as usize
    } else {
        n
    }
}

/// A traced token is done: the step is counted and its report is written
/// to standard error.
pub open spec fn spec_report_step(
    s: StateModel,
    token: Seq<char>,
    is_quoted: bool,
    before: Seq<ValueModel>,
) -> (StateModel, Outcome) {
    if s.request is Some {
        (s, Err(crate::types::busy("trace"@)))
    } else {
        let step = next_step(s.trace_step);
        (
            StateModel { trace_step: step, ..s }.ask(
                RequestModel::PrintErr(
                    spec_trace_step_text(
                        s.trace,
                        step,
                        token,
                        is_quoted,
                        before,
                        s.stack,
                        spec_trace_lookup_doc(s, token, is_quoted),
                    ),
                ),
                WaitModel::Nothing,
            ),
            Ok(()),
        )
    }
}

/// Reports a step.
pub fn report_step(state: &mut State, token: &str, is_quoted: bool, before: &[Value]) -> (r:
    Result<(), String>)
    ensures
        (final(state)@, outcome(r)) == spec_report_step(
            old(state)@,
            token@,
            is_quoted,
            before.deep_view(),
        ),
{
    if state.request.is_some() {
        return Err(join2("trace", ": a request to the host is pending"));
    }
    if state.trace_step < usize::MAX {
        state.trace_step = state.trace_step + 1;
    }
    let doc = trace_lookup_doc(state, token, is_quoted);
    let text = match &doc {
        Some(d) => trace_step_text(
            state.trace,
            state.trace_step,
            token,
            is_quoted,
            before,
            state.stack.as_slice(),
            Some(d.as_str()),
        ),
        None => trace_step_text(
            state.trace,
            state.trace_step,
            token,
            is_quoted,
            before,
            state.stack.as_slice(),
            None,
        ),
    };
    state.ask(Request::PrintErr(text), Wait::Nothing);
    Ok(())
}

} // verus!
