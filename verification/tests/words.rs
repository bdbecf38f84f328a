//! The arithmetic, comparison and string words on exact values, and each
//! of their errors.

use yafsh::builtins::computation;
use yafsh::builtins::computation::{
    add, bool_and, bool_not, bool_or, bool_xor, cond_prefix, cond_suffix, cond_wrap, div, divmod,
    eq, gt, gte, loop_i, loop_j, lt, lte, mod_op, mul, muldiv, neq, pop_two_ints, sub,
};
use yafsh::builtins::introspection::{count_stack, dollar_exitcode, prompt_stack, stack_indicator};
use yafsh::builtins::io::to_string_word;
use yafsh::builtins::run_builtin;
use yafsh::builtins::stack::{clear, drop_word, dup, over, rot, swap};
use yafsh::builtins::system::exit_code;
use yafsh::types::{copy_values, Builtin, Dict, LoopInfo, State, Value, Word};

fn state_with(vals: Vec<Value>) -> State {
    let mut s = State::new();
    s.stack = vals;
    s
}

fn ints(vals: &[i64]) -> Vec<Value> {
    vals.iter().map(|n| Value::Int(*n)).collect()
}

fn text(s: &str) -> Value {
    Value::Str(s.to_string())
}

type Op = fn(&mut State) -> Result<(), String>;

#[test]
fn arithmetic_wraps_around() {
    for (op, a, b, r) in [
        (add as Op, i64::MAX, 1, i64::MIN),
        (add as Op, i64::MIN, -1, i64::MAX),
        (add as Op, -5, 3, -2),
        (sub as Op, i64::MIN, 1, i64::MAX),
        (sub as Op, 3, 10, -7),
        (mul as Op, i64::MAX, 2, -2),
        (mul as Op, i64::MIN, -1, i64::MIN),
        (mul as Op, -4, 5, -20),
    ] {
        let mut s = state_with(ints(&[7, a, b]));
        op(&mut s).unwrap();
        assert_eq!(s.stack, ints(&[7, r]));
    }
}

#[test]
fn division_rounds_toward_zero() {
    for (a, b, q, r) in [
        (7, 2, 3, 1),
        (-7, 2, -3, -1),
        (7, -2, -3, 1),
        (-7, -2, 3, -1),
        (0, 5, 0, 0),
        (6, 3, 2, 0),
        (i64::MIN, 2, i64::MIN / 2, 0),
        (i64::MAX, -1, -i64::MAX, 0),
        (i64::MIN, i64::MIN, 1, 0),
        (5, i64::MIN, 0, 5),
    ] {
        let mut s = state_with(ints(&[a, b]));
        div(&mut s).unwrap();
        assert_eq!(s.stack, ints(&[q]));
        let mut s = state_with(ints(&[a, b]));
        mod_op(&mut s).unwrap();
        assert_eq!(s.stack, ints(&[r]));
        let mut s = state_with(ints(&[a, b]));
        divmod(&mut s).unwrap();
        assert_eq!(s.stack, ints(&[q, r]));
    }
}

#[test]
fn division_by_zero_takes_the_operands_away() {
    for (op, message) in [
        (div as Op, "/: division by zero"),
        (mod_op as Op, "mod: division by zero"),
        (divmod as Op, "/mod: division by zero"),
    ] {
        let mut s = state_with(ints(&[1, 10, 0]));
        assert_eq!(op(&mut s).unwrap_err(), message);
        assert_eq!(s.stack, ints(&[1]));
    }
    let mut s = state_with(ints(&[1, 2, 6, 0]));
    assert_eq!(muldiv(&mut s).unwrap_err(), "*/: division by zero");
    assert_eq!(s.stack, ints(&[1]));
}

#[test]
fn a_quotient_that_does_not_fit_is_an_error() {
    for (op, message) in [
        (div as Op, "/: integer overflow"),
        (mod_op as Op, "mod: integer overflow"),
        (divmod as Op, "/mod: integer overflow"),
    ] {
        let mut s = state_with(ints(&[i64::MIN, -1]));
        assert_eq!(op(&mut s).unwrap_err(), message);
        assert!(s.stack.is_empty());
    }
    let mut s = state_with(ints(&[i64::MIN, 1, -1]));
    assert_eq!(muldiv(&mut s).unwrap_err(), "*/: integer overflow");
}

#[test]
fn muldiv_multiplies_first() {
    for (a, b, c, r) in [(2, 6, 4, 3), (-7, 3, 2, -10), (7, 7, -7, -7), (i64::MAX, 2, 2, -1)] {
        let mut s = state_with(ints(&[a, b, c]));
        muldiv(&mut s).unwrap();
        assert_eq!(s.stack, ints(&[r]));
    }
}

#[test]
fn muldiv_keeps_values_of_the_wrong_kind() {
    for stack in [
        vec![text("a"), Value::Int(1), Value::Int(2)],
        vec![Value::Int(1), text("a"), Value::Int(2)],
        vec![Value::Int(1), Value::Int(2), text("a")],
    ] {
        let mut s = state_with(stack.iter().map(|v| v.clone()).collect());
        assert_eq!(muldiv(&mut s).unwrap_err(), "*/: requires three integers");
        assert_eq!(s.stack, stack);
    }
    let mut s = state_with(ints(&[1, 2]));
    assert_eq!(muldiv(&mut s).unwrap_err(), "*/: stack underflow");
    assert_eq!(s.stack, ints(&[1, 2]));
}

#[test]
fn words_on_two_integers_keep_values_of_the_wrong_kind() {
    for (op, name) in [
        (add as Op, "+"),
        (sub as Op, "-"),
        (mul as Op, "*"),
        (div as Op, "/"),
        (mod_op as Op, "mod"),
        (divmod as Op, "/mod"),
        (gt as Op, ">"),
        (lt as Op, "<"),
        (gte as Op, ">="),
        (lte as Op, "<="),
        (bool_and as Op, "and"),
        (bool_or as Op, "or"),
        (bool_xor as Op, "xor"),
    ] {
        let mut s = state_with(vec![text("a"), Value::Int(1)]);
        assert_eq!(op(&mut s).unwrap_err(), format!("{}: requires two integers", name));
        assert_eq!(s.stack, vec![text("a"), Value::Int(1)]);
        let mut s = state_with(vec![Value::Int(1), Value::Output("a".into())]);
        assert_eq!(op(&mut s).unwrap_err(), format!("{}: requires two integers", name));
        assert_eq!(s.stack, vec![Value::Int(1), Value::Output("a".into())]);
        let mut s = state_with(vec![Value::Int(1)]);
        assert_eq!(op(&mut s).unwrap_err(), format!("{}: stack underflow", name));
        assert_eq!(s.stack, vec![Value::Int(1)]);
    }
}

#[test]
fn pop_two_ints_gives_the_second_first() {
    let mut s = state_with(ints(&[9, 1, 2]));
    assert_eq!(pop_two_ints(&mut s, "op"), Ok((1, 2)));
    assert_eq!(s.stack, ints(&[9]));
    assert_eq!(pop_two_ints(&mut s, "op"), Err("op: stack underflow".to_string()));
}

#[test]
fn comparisons_leave_a_flag() {
    for (op, a, b, flag) in [
        (gt as Op, 2, 2, 0),
        (gt as Op, -1, -2, 1),
        (lt as Op, 2, 2, 0),
        (lt as Op, i64::MIN, i64::MAX, 1),
        (gte as Op, 2, 2, 1),
        (gte as Op, 1, 2, 0),
        (lte as Op, 2, 2, 1),
        (lte as Op, 3, 2, 0),
        (eq as Op, -2, -2, 1),
        (eq as Op, 2, -2, 0),
        (neq as Op, 2, -2, 1),
        (neq as Op, 2, 2, 0),
        (bool_and as Op, -1, 7, 1),
        (bool_and as Op, 0, 7, 0),
        (bool_or as Op, 0, -7, 1),
        (bool_or as Op, 0, 0, 0),
        (bool_xor as Op, 5, 0, 1),
        (bool_xor as Op, 0, 5, 1),
        (bool_xor as Op, 5, -5, 0),
    ] {
        let mut s = state_with(ints(&[a, b]));
        op(&mut s).unwrap();
        assert_eq!(s.stack, ints(&[flag]));
    }
}

#[test]
fn equality_is_for_values_of_one_kind() {
    let mut s = state_with(vec![text("a"), text("a")]);
    neq(&mut s).unwrap();
    assert_eq!(s.stack, ints(&[0]));
    let mut s = state_with(vec![text(""), text(" ")]);
    eq(&mut s).unwrap();
    assert_eq!(s.stack, ints(&[0]));
    for stack in [
        vec![Value::Int(1), text("1")],
        vec![text("a"), Value::Output("a".into())],
        vec![Value::Output("a".into()), Value::Output("a".into())],
    ] {
        let mut s = state_with(stack.iter().map(|v| v.clone()).collect());
        assert_eq!(eq(&mut s).unwrap_err(), "=: requires two values of the same type");
        assert_eq!(s.stack, stack);
        assert_eq!(neq(&mut s).unwrap_err(), "<>: requires two values of the same type");
        assert_eq!(s.stack, stack);
    }
    let mut s = state_with(vec![text("a")]);
    assert_eq!(eq(&mut s).unwrap_err(), "=: stack underflow");
    assert_eq!(neq(&mut s).unwrap_err(), "<>: stack underflow");
}

#[test]
fn not_keeps_a_value_of_the_wrong_kind() {
    let mut s = state_with(vec![text("a")]);
    assert_eq!(bool_not(&mut s).unwrap_err(), "not: requires integer");
    assert_eq!(s.stack, vec![text("a")]);
    let mut s = state_with(ints(&[-1]));
    bool_not(&mut s).unwrap();
    assert_eq!(s.stack, ints(&[0]));
}

#[test]
fn concat_keeps_values_of_the_wrong_kind() {
    let mut s = state_with(vec![Value::Int(1), text("a")]);
    assert_eq!(computation::concat(&mut s).unwrap_err(), "concat: requires two strings");
    assert_eq!(s.stack, vec![Value::Int(1), text("a")]);
    let mut s = state_with(vec![text("ä"), text("ö€")]);
    computation::concat(&mut s).unwrap();
    assert_eq!(s.stack, vec![text("äö€")]);
}

#[test]
fn conditional_words_leave_an_empty_text_empty() {
    let mut s = state_with(vec![text("main"), text("@")]);
    cond_prefix(&mut s).unwrap();
    assert_eq!(s.stack, vec![text("@main")]);
    let mut s = state_with(vec![text(""), text("@")]);
    cond_prefix(&mut s).unwrap();
    assert_eq!(s.stack, vec![text("")]);
    let mut s = state_with(vec![text("main"), text("!")]);
    cond_suffix(&mut s).unwrap();
    assert_eq!(s.stack, vec![text("main!")]);
    let mut s = state_with(vec![text(""), text("!")]);
    cond_suffix(&mut s).unwrap();
    assert_eq!(s.stack, vec![text("")]);
    let mut s = state_with(vec![text("x"), text("["), text("]")]);
    cond_wrap(&mut s).unwrap();
    assert_eq!(s.stack, vec![text("[x]")]);
    let mut s = state_with(vec![text(""), text("["), text("]")]);
    cond_wrap(&mut s).unwrap();
    assert_eq!(s.stack, vec![text("")]);
}

#[test]
fn conditional_words_keep_values_of_the_wrong_kind() {
    let mut s = state_with(vec![Value::Int(1), text("@")]);
    assert_eq!(cond_prefix(&mut s).unwrap_err(), "?prefix: requires two strings");
    assert_eq!(cond_suffix(&mut s).unwrap_err(), "?suffix: requires two strings");
    assert_eq!(s.stack, vec![Value::Int(1), text("@")]);
    assert_eq!(cond_wrap(&mut s).unwrap_err(), "?wrap: stack underflow");
    let mut s = state_with(vec![text("a"), Value::Int(1), text("@")]);
    assert_eq!(cond_wrap(&mut s).unwrap_err(), "?wrap: requires three strings");
    assert_eq!(s.stack, vec![text("a"), Value::Int(1), text("@")]);
    let mut s = state_with(vec![text("@")]);
    assert_eq!(cond_prefix(&mut s).unwrap_err(), "?prefix: stack underflow");
    assert_eq!(cond_suffix(&mut s).unwrap_err(), "?suffix: stack underflow");
}

#[test]
fn stack_words_report_underflow() {
    let mut empty = state_with(vec![]);
    assert_eq!(dup(&mut empty).unwrap_err(), "dup: stack underflow");
    assert_eq!(drop_word(&mut empty).unwrap_err(), "drop: stack underflow");
    let mut one = state_with(ints(&[1]));
    assert_eq!(swap(&mut one).unwrap_err(), "swap: stack underflow");
    assert_eq!(over(&mut one).unwrap_err(), "over: stack underflow");
    assert_eq!(one.stack, ints(&[1]));
    let mut two = state_with(ints(&[1, 2]));
    assert_eq!(rot(&mut two).unwrap_err(), "rot: stack underflow");
    assert_eq!(two.stack, ints(&[1, 2]));
}

#[test]
fn stack_words_touch_the_top_only() {
    let mut s = state_with(ints(&[0, 1, 2, 3]));
    rot(&mut s).unwrap();
    assert_eq!(s.stack, ints(&[0, 2, 3, 1]));
    swap(&mut s).unwrap();
    assert_eq!(s.stack, ints(&[0, 2, 1, 3]));
    over(&mut s).unwrap();
    assert_eq!(s.stack, ints(&[0, 2, 1, 3, 1]));
    clear(&mut s).unwrap();
    assert!(s.stack.is_empty());
}

#[test]
fn loop_i_reads_the_innermost_frame() {
    let mut s = state_with(vec![]);
    assert_eq!(loop_i(&mut s).unwrap_err(), "i: not inside a loop");
    assert_eq!(loop_j(&mut s).unwrap_err(), "j: not inside a nested loop");
    s.loop_stack.push(LoopInfo::DoCountedLoop { start: 0, limit: 9, current: 4 });
    loop_i(&mut s).unwrap();
    assert_eq!(loop_j(&mut s).unwrap_err(), "j: not inside a nested loop");
    s.loop_stack.push(LoopInfo::DoPlusCountedLoop { start: 9, limit: 0, current: -7 });
    loop_i(&mut s).unwrap();
    loop_j(&mut s).unwrap();
    assert_eq!(s.stack, ints(&[4, -7, 4]));
    s.loop_stack.push(LoopInfo::BeginUntilLoop);
    assert_eq!(loop_i(&mut s).unwrap_err(), "i: loop index not available (not a counted loop)");
    loop_j(&mut s).unwrap();
    assert_eq!(s.stack, ints(&[4, -7, 4, -7]));
    s.loop_stack.push(LoopInfo::BeginWhileLoop);
    assert_eq!(loop_i(&mut s).unwrap_err(), "i: loop index not available (not a counted loop)");
    assert_eq!(
        loop_j(&mut s).unwrap_err(),
        "j: outer loop index not available (not a counted loop)"
    );
}

#[test]
fn values_are_written_as_text() {
    assert_eq!(Value::Int(0).to_string(), "0");
    assert_eq!(Value::Int(-1).to_string(), "-1");
    assert_eq!(Value::Int(1000).to_string(), "1000");
    assert_eq!(Value::Int(i64::MAX).to_string(), "9223372036854775807");
    assert_eq!(Value::Int(i64::MIN).to_string(), "-9223372036854775808");
    assert_eq!(text("a\"b").to_string(), "a\"b");
    assert_eq!(Value::Output("x\n".into()).to_string(), "x\n");
    let mut s = state_with(ints(&[-120]));
    to_string_word(&mut s).unwrap();
    assert_eq!(s.stack, vec![text("-120")]);
}

#[test]
fn the_exit_code_is_pushed_as_it_is() {
    let mut s = state_with(vec![]);
    s.last_exit_code = -3;
    exit_code(&mut s).unwrap();
    dollar_exitcode(&mut s).unwrap();
    assert_eq!(s.stack, vec![Value::Int(-3), text("-3")]);
}

#[test]
fn the_indicator_counts_inputs_and_outputs() {
    assert_eq!(stack_indicator(&[]), "");
    assert_eq!(stack_indicator(&ints(&[1, 2, 3])), "[3]");
    assert_eq!(stack_indicator(&[Value::Output("a".into()), Value::Output("b".into())]), "[:2]");
    let mixed = vec![text("a"), Value::Output("b".into()), Value::Int(1)];
    assert_eq!(stack_indicator(&mixed), "[2:1]");
    assert_eq!(count_stack(&mixed), (2, 1));
    let twelve: Vec<Value> = (0..12).map(Value::Int).collect();
    assert_eq!(stack_indicator(&twelve), "[12]");
}

#[test]
fn the_prompt_stack_is_the_saved_one() {
    let mut s = state_with(ints(&[1]));
    assert_eq!(prompt_stack(&s), &ints(&[1])[..]);
    s.prompt_eval_original_stack = Some(ints(&[2, 3]));
    assert_eq!(prompt_stack(&s), &ints(&[2, 3])[..]);
}

#[test]
fn run_builtin_carries_the_word_out() {
    let mut s = state_with(ints(&[6, 7]));
    run_builtin(&mut s, Builtin::Mul).unwrap();
    run_builtin(&mut s, Builtin::Dup).unwrap();
    run_builtin(&mut s, Builtin::ToString).unwrap();
    assert_eq!(s.stack, vec![Value::Int(42), text("42")]);
    assert_eq!(run_builtin(&mut s, Builtin::LoopI).unwrap_err(), "i: not inside a loop");
}

#[test]
fn a_copy_of_values_is_equal() {
    let values = vec![text("a"), Value::Int(1), Value::Output("o".into())];
    assert_eq!(copy_values(&values), values);
    assert_eq!(values[0].clone(), text("a"));
}

#[test]
fn the_dictionary_keeps_the_latest_binding() {
    let mut d = Dict::new();
    assert_eq!(d.len(), 0);
    assert!(!d.contains_key("a"));
    assert!(d.get("a").is_none());
    d.insert("a".to_string(), Word::Defined(vec!["1".to_string()]));
    d.insert("b".to_string(), Word::ShellCmd("/bin/b".to_string()));
    d.insert("a".to_string(), Word::Defined(vec!["2".to_string()]));
    assert_eq!(d.len(), 2);
    assert_eq!(d.names(), vec!["a".to_string(), "b".to_string()]);
    match d.get("a") {
        Some(Word::Defined(tokens)) => assert_eq!(tokens, &vec!["2".to_string()]),
        other => panic!("a is bound to {:?}", other),
    }
    assert!(d.contains_key("b"));
    assert!(!d.contains_key("B"));
    let copy = d.clone();
    assert_eq!(copy.names(), d.names());
    assert!(matches!(copy.get("b"), Some(Word::ShellCmd(cmd)) if cmd == "/bin/b"));
}
