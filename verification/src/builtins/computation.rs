//! Arithmetic, comparisons, boolean logic, string concatenation and the loop
//! index words.
//!
//! Integers are 64-bit and signed. Addition, subtraction and multiplication
//! wrap around; a quotient or remainder that does not fit is an error.

use vstd::prelude::*;
use crate::text::join2;
use crate::types::{outcome, LoopInfo, Outcome, State, StateModel, Value, ValueModel};

verus! {

// ========== Helpers ==========

/// The two integers on top of the stack (second, top), or why they cannot be
/// had. The stack changes only on success.
pub open spec fn spec_pop_two_ints(s: StateModel, op: Seq<char>) -> (
    StateModel,
    Result<(i64, i64), Seq<char>>,
) {
    if s.stack.len() < 2 {
        (s, Err(op + ": stack underflow"@))
    } else {
        match (s.peek(1), s.peek(0)) {
            (ValueModel::Int(a), ValueModel::Int(b)) => (s.drop(2), Ok((a, b))),
            _ => (s, Err(op + ": requires two integers"@)),
        }
    }
}

/// The model of the result of [`pop_two_ints`].
pub open spec fn pair_outcome(r: Result<(i64, i64), String>) -> Result<(i64, i64), Seq<char>> {
    match r {
        Ok(p) => Ok(p),
        Err(e) => Err(e@),
    }
}

/// Pop two integers from the stack: top = b, second = a.
pub fn pop_two_ints(state: &mut State, op: &str) -> (r: Result<(i64, i64), String>)
    ensures
        (final(state)@, pair_outcome(r)) == spec_pop_two_ints(old(state)@, op@),
{
    if state.stack.len() < 2 {
        return Err(join2(op, ": stack underflow"));
    }
    let b = match state.pop().unwrap() {
        Value::Int(n) => n,
        other => {
            state.push(other);
            assert(state@.stack =~= old(state)@.stack);
            return Err(join2(op, ": requires two integers"));
        },
    };
    let a = match state.pop().unwrap() {
        Value::Int(n) => n,
        other => {
            state.push(other);
            state.push(Value::Int(b));
            assert(state@.stack =~= old(state)@.stack);
            return Err(join2(op, ": requires two integers"));
        },
    };
    assert(state@.stack =~= old(state)@.drop(2).stack);
    Ok((a, b))
}

/// A word that replaces two integers by one.
pub open spec fn spec_binary(s: StateModel, op: Seq<char>, f: spec_fn(i64, i64) -> i64) -> (
    StateModel,
    Outcome,
) {
    match spec_pop_two_ints(s, op) {
        (s1, Ok((a, b))) => (s1.push(ValueModel::Int(f(a, b))), Ok(())),
        (s1, Err(e)) => (s1, Err(e)),
    }
}

/// 1 for true, 0 for false.
pub open spec fn flag(b: bool) -> i64 {
    if b {
        1
    } else {
        0
    }
}

fn flag_of(b: bool) -> (r: i64)
    ensures
        r == flag(b),
{
    if b {
        1
    } else {
        0
    }
}

/// The quotient of `a` by `b`, rounded toward zero.
pub open spec fn trunc_div(a: int, b: int) -> int {
    if a >= 0 && b > 0 {
        a / b
    } else if a < 0 && b < 0 {
        (-a) / (-b)
    } else if a < 0 {
        -((-a) / b)
    } else {
        -(a / (-b))
    }
}

/// The remainder that goes with `trunc_div`: it has the sign of `a`.
pub open spec fn trunc_rem(a: int, b: int) -> int {
    if a >= 0 && b > 0 {
        a % b
    } else if a < 0 && b < 0 {
        -((-a) % (-b))
    } else if a < 0 {
        -((-a) % b)
    } else {
        a % (-b)
    }
}

/// The one pair of operands whose quotient does not fit in 64 bits.
pub open spec fn overflows(a: i64, b: i64) -> bool {
    a == i64::MIN && b == -1
}

/// A word that divides: it takes two integers and leaves what `results`
/// gives for them. The operands are gone even when the division fails.
pub open spec fn spec_division(
    s: StateModel,
    op: Seq<char>,
    results: spec_fn(i64, i64) -> Seq<ValueModel>,
) -> (StateModel, Outcome) {
    match spec_pop_two_ints(s, op) {
        (s1, Ok((a, b))) => if b == 0 {
            (s1, Err(op + ": division by zero"@))
        } else if overflows(a, b) {
            (s1, Err(op + ": integer overflow"@))
        } else {
            (s1.with_stack(s1.stack + results(a, b)), Ok(()))
        },
        (s1, Err(e)) => (s1, Err(e)),
    }
}

fn quotient(a: i64, b: i64) -> (q: i64)
    requires
        b != 0,
        !overflows(a, b),
    ensures
        q == trunc_div(a as int, b as int),
{
    proof {
        let p: int = if a < 0 { -(a as int) } else { a as int };
        let d: int = if b < 0 { -(b as int) } else { b as int };
        assert(0 <= p / d <= p) by (nonlinear_arith)
            requires
                p >= 0,
                d > 0,
        ;
        assert(p == 9223372036854775808 ==> p / d < p || d == 1) by (nonlinear_arith)
            requires
                p >= 0,
                d > 0,
        ;
    }
    match a.checked_div(b) {
        Some(q) => q,
        None => 0,
    }
}

fn remainder(a: i64, b: i64) -> (q: i64)
    requires
        b != 0,
        !overflows(a, b),
    ensures
        q == trunc_rem(a as int, b as int),
{
    proof {
        let p: int = if a < 0 { -(a as int) } else { a as int };
        let d: int = if b < 0 { -(b as int) } else { b as int };
        assert(0 <= p % d < d && (p == 0 ==> p % d == 0)) by (nonlinear_arith)
            requires
                p >= 0,
                d > 0,
        ;
    }
    match a.checked_rem(b) {
        Some(q) => q,
        None => 0,
    }
}

// ========== Arithmetic ==========

/// `+` replaces two integers by their sum, wrapping around.
pub open spec fn spec_add(s: StateModel) -> (StateModel, Outcome) {
    spec_binary(s, "+"@, |a: i64, b: i64| a.wrapping_add(b))
}

/// `+` ( a b -- a+b ) Add two integers.
pub fn add(state: &mut State) -> (r: Result<(), String>)
    ensures
        (final(state)@, outcome(r)) == spec_add(old(state)@),
{
    let (a, b) = pop_two_ints(state, "+")?;
    state.push(Value::Int(a.wrapping_add(b)));
    Ok(())
}

/// `-` replaces two integers by their difference, the top one taken from the
/// second, wrapping around.
pub open spec fn spec_sub(s: StateModel) -> (StateModel, Outcome) {
    spec_binary(s, "-"@, |a: i64, b: i64| a.wrapping_sub(b))
}

/// `-` ( a b -- a-b ) Subtract b from a.
pub fn sub(state: &mut State) -> (r: Result<(), String>)
    ensures
        (final(state)@, outcome(r)) == spec_sub(old(state)@),
{
    let (a, b) = pop_two_ints(state, "-")?;
    state.push(Value::Int(a.wrapping_sub(b)));
    Ok(())
}

/// `*` replaces two integers by their product, wrapping around.
pub open spec fn spec_mul(s: StateModel) -> (StateModel, Outcome) {
    spec_binary(s, "*"@, |a: i64, b: i64| a.wrapping_mul(b))
}

/// `*` ( a b -- a*b ) Multiply two integers.
pub fn mul(state: &mut State) -> (r: Result<(), String>)
    ensures
        (final(state)@, outcome(r)) == spec_mul(old(state)@),
{
    let (a, b) = pop_two_ints(state, "*")?;
    state.push(Value::Int(a.wrapping_mul(b)));
    Ok(())
}

/// `/` replaces two integers by the quotient of the second by the top one,
/// rounded toward zero.
pub open spec fn spec_div(s: StateModel) -> (StateModel, Outcome) {
    spec_division(
        s,
        "/"@,
        |a: i64, b: i64| seq![ValueModel::Int(trunc_div(a as int, b as int) as i64)],
    )
}

/// `/` ( a b -- a/b ) Divide a by b.
pub fn div(state: &mut State) -> (r: Result<(), String>)
    ensures
        (final(state)@, outcome(r)) == spec_div(old(state)@),
{
    let (a, b) = pop_two_ints(state, "/")?;
    if b == 0 {
        return Err(join2("/", ": division by zero"));
    }
    if a == i64::MIN && b == -1 {
        return Err(join2("/", ": integer overflow"));
    }
    let ghost mid = state@;
    state.push(Value::Int(quotient(a, b)));
    assert(state@.stack =~= mid.stack + seq![ValueModel::Int(trunc_div(a as int, b as int) as i64)]);
    Ok(())
}

/// `mod` replaces two integers by the remainder of the second by the top one,
/// which has the sign of the second.
pub open spec fn spec_mod_op(s: StateModel) -> (StateModel, Outcome) {
    spec_division(
        s,
        "mod"@,
        |a: i64, b: i64| seq![ValueModel::Int(trunc_rem(a as int, b as int) as i64)],
    )
}

/// `mod` ( a b -- a%b ) Remainder of a divided by b.
pub fn mod_op(state: &mut State) -> (r: Result<(), String>)
    ensures
        (final(state)@, outcome(r)) == spec_mod_op(old(state)@),
{
    let (a, b) = pop_two_ints(state, "mod")?;
    if b == 0 {
        return Err(join2("mod", ": division by zero"));
    }
    if a == i64::MIN && b == -1 {
        return Err(join2("mod", ": integer overflow"));
    }
    let ghost mid = state@;
    state.push(Value::Int(remainder(a, b)));
    assert(state@.stack =~= mid.stack + seq![ValueModel::Int(trunc_rem(a as int, b as int) as i64)]);
    Ok(())
}

/// `/mod` replaces two integers by their quotient and, on top of it, their
/// remainder.
pub open spec fn spec_divmod(s: StateModel) -> (StateModel, Outcome) {
    spec_division(
        s,
        "/mod"@,
        |a: i64, b: i64|
            seq![
                ValueModel::Int(trunc_div(a as int, b as int) as i64),
                ValueModel::Int(trunc_rem(a as int, b as int) as i64),
            ],
    )
}

/// `/mod` ( a b -- quotient remainder ) Quotient and remainder.
pub fn divmod(state: &mut State) -> (r: Result<(), String>)
    ensures
        (final(state)@, outcome(r)) == spec_divmod(old(state)@),
{
    let (a, b) = pop_two_ints(state, "/mod")?;
    if b == 0 {
        return Err(join2("/mod", ": division by zero"));
    }
    if a == i64::MIN && b == -1 {
        return Err(join2("/mod", ": integer overflow"));
    }
    let ghost mid = state@;
    state.push(Value::Int(quotient(a, b)));
    state.push(Value::Int(remainder(a, b)));
    assert(state@.stack =~= mid.stack + seq![
        ValueModel::Int(trunc_div(a as int, b as int) as i64),
        ValueModel::Int(trunc_rem(a as int, b as int) as i64),
    ]);
    Ok(())
}

/// `*/` replaces three integers by the product of the first two, wrapping
/// around, divided by the third and rounded toward zero. Values that are not
/// all integers stay where they are; a division that fails takes them away.
pub open spec fn spec_muldiv(s: StateModel) -> (StateModel, Outcome) {
    if s.stack.len() < 3 {
        (s, Err("*/: stack underflow"@))
    } else {
        match (s.peek(2), s.peek(1), s.peek(0)) {
            (ValueModel::Int(a), ValueModel::Int(b), ValueModel::Int(c)) => {
                let product = a.wrapping_mul(b);
                if c == 0 {
                    (s.drop(3), Err("*/: division by zero"@))
                } else if overflows(product, c) {
                    (s.drop(3), Err("*/: integer overflow"@))
                } else {
                    (
                        s.drop(3).push(ValueModel::Int(trunc_div(product as int, c as int) as i64)),
                        Ok(()),
                    )
                }
            },
            _ => (s, Err("*/: requires three integers"@)),
        }
    }
}

/// `*/` ( a b c -- (a*b)/c ) Multiply then divide.
pub fn muldiv(state: &mut State) -> (r: Result<(), String>)
    ensures
        (final(state)@, outcome(r)) == spec_muldiv(old(state)@),
{
    if state.stack.len() < 3 {
        return Err("*/: stack underflow".to_string());
    }
    let c = match state.pop().unwrap() {
        Value::Int(n) => n,
        other => {
            state.push(other);
            assert(state@.stack =~= old(state)@.stack);
            return Err("*/: requires three integers".to_string());
        },
    };
    let b = match state.pop().unwrap() {
        Value::Int(n) => n,
        other => {
            state.push(other);
            state.push(Value::Int(c));
            assert(state@.stack =~= old(state)@.stack);
            return Err("*/: requires three integers".to_string());
        },
    };
    let a = match state.pop().unwrap() {
        Value::Int(n) => n,
        other => {
            state.push(other);
            state.push(Value::Int(b));
            state.push(Value::Int(c));
            assert(state@.stack =~= old(state)@.stack);
            return Err("*/: requires three integers".to_string());
        },
    };
    assert(state@.stack =~= old(state)@.drop(3).stack);
    if c == 0 {
        return Err("*/: division by zero".to_string());
    }
    let product = a.wrapping_mul(b);
    if product == i64::MIN && c == -1 {
        return Err("*/: integer overflow".to_string());
    }
    state.push(Value::Int(quotient(product, c)));
    Ok(())
}

// ========== Comparisons ==========

/// A word that compares two values of one kind, integers or strings, with
/// `same` saying what it leaves when they are equal.
pub open spec fn spec_equality(s: StateModel, op: Seq<char>, same: bool) -> (StateModel, Outcome) {
    if s.stack.len() < 2 {
        (s, Err(op + ": stack underflow"@))
    } else {
        match (s.peek(1), s.peek(0)) {
            (ValueModel::Int(x), ValueModel::Int(y)) => (
                s.drop(2).push(ValueModel::Int(flag((x == y) == same))),
                Ok(()),
            ),
            (ValueModel::Str(x), ValueModel::Str(y)) => (
                s.drop(2).push(ValueModel::Int(flag((x == y) == same))),
                Ok(()),
            ),
            _ => (s, Err(op + ": requires two values of the same type"@)),
        }
    }
}

fn equality(state: &mut State, op: &str, same: bool) -> (r: Result<(), String>)
    ensures
        (final(state)@, outcome(r)) == spec_equality(old(state)@, op@, same),
{
    if state.stack.len() < 2 {
        return Err(join2(op, ": stack underflow"));
    }
    let b = state.pop().unwrap();
    let a = state.pop().unwrap();
    assert(state@.stack =~= old(state)@.drop(2).stack);
    let result = match (&a, &b) {
        (Value::Int(x), Value::Int(y)) => (*x == *y) == same,
        (Value::Str(x), Value::Str(y)) => (*x == *y) == same,
        _ => {
            state.push(a);
            state.push(b);
            assert(state@.stack =~= old(state)@.stack);
            return Err(join2(op, ": requires two values of the same type"));
        },
    };
    state.push(Value::Int(flag_of(result)));
    Ok(())
}

/// `=` replaces two integers or two strings by 1 if they are equal and by 0
/// if they are not.
pub open spec fn spec_eq(s: StateModel) -> (StateModel, Outcome) {
    spec_equality(s, "="@, true)
}

/// `=` ( a b -- flag ) Test equality. Works on Int and Str.
pub fn eq(state: &mut State) -> (r: Result<(), String>)
    ensures
        (final(state)@, outcome(r)) == spec_eq(old(state)@),
{
    equality(state, "=", true)
}

/// `<>` replaces two integers or two strings by 1 if they differ and by 0 if
/// they are equal.
pub open spec fn spec_neq(s: StateModel) -> (StateModel, Outcome) {
    spec_equality(s, "<>"@, false)
}

/// `<>` ( a b -- flag ) Test inequality. Works on Int and Str.
pub fn neq(state: &mut State) -> (r: Result<(), String>)
    ensures
        (final(state)@, outcome(r)) == spec_neq(old(state)@),
{
    equality(state, "<>", false)
}

/// `>` replaces two integers by 1 if the second is greater than the top one,
/// and by 0 otherwise.
pub open spec fn spec_gt(s: StateModel) -> (StateModel, Outcome) {
    spec_binary(s, ">"@, |a: i64, b: i64| flag(a > b))
}

/// `>` ( a b -- flag ) Test greater than (integers only).
pub fn gt(state: &mut State) -> (r: Result<(), String>)
    ensures
        (final(state)@, outcome(r)) == spec_gt(old(state)@),
{
    let (a, b) = pop_two_ints(state, ">")?;
    state.push(Value::Int(flag_of(a > b)));
    Ok(())
}

/// `<` replaces two integers by 1 if the second is less than the top one, and
/// by 0 otherwise.
pub open spec fn spec_lt(s: StateModel) -> (StateModel, Outcome) {
    spec_binary(s, "<"@, |a: i64, b: i64| flag(a < b))
}

/// `<` ( a b -- flag ) Test less than (integers only).
pub fn lt(state: &mut State) -> (r: Result<(), String>)
    ensures
        (final(state)@, outcome(r)) == spec_lt(old(state)@),
{
    let (a, b) = pop_two_ints(state, "<")?;
    state.push(Value::Int(flag_of(a < b)));
    Ok(())
}

/// `>=` replaces two integers by 1 if the second is at least the top one, and
/// by 0 otherwise.
pub open spec fn spec_gte(s: StateModel) -> (StateModel, Outcome) {
    spec_binary(s, ">="@, |a: i64, b: i64| flag(a >= b))
}

/// `>=` ( a b -- flag ) Test greater than or equal (integers only).
pub fn gte(state: &mut State) -> (r: Result<(), String>)
    ensures
        (final(state)@, outcome(r)) == spec_gte(old(state)@),
{
    let (a, b) = pop_two_ints(state, ">=")?;
    state.push(Value::Int(flag_of(a >= b)));
    Ok(())
}

/// `<=` replaces two integers by 1 if the second is at most the top one, and
/// by 0 otherwise.
pub open spec fn spec_lte(s: StateModel) -> (StateModel, Outcome) {
    spec_binary(s, "<="@, |a: i64, b: i64| flag(a <= b))
}

/// `<=` ( a b -- flag ) Test less than or equal (integers only).
pub fn lte(state: &mut State) -> (r: Result<(), String>)
    ensures
        (final(state)@, outcome(r)) == spec_lte(old(state)@),
{
    let (a, b) = pop_two_ints(state, "<=")?;
    state.push(Value::Int(flag_of(a <= b)));
    Ok(())
}

// ========== Boolean logic ==========

/// `and` replaces two integers by 1 if neither is zero, and by 0 otherwise.
pub open spec fn spec_bool_and(s: StateModel) -> (StateModel, Outcome) {
    spec_binary(s, "and"@, |a: i64, b: i64| flag(a != 0 && b != 0))
}

/// `and` ( a b -- flag ) Boolean AND (0=false, non-zero=true).
pub fn bool_and(state: &mut State) -> (r: Result<(), String>)
    ensures
        (final(state)@, outcome(r)) == spec_bool_and(old(state)@),
{
    let (a, b) = pop_two_ints(state, "and")?;
    state.push(Value::Int(flag_of(a != 0 && b != 0)));
    Ok(())
}

/// `or` replaces two integers by 1 if one of them is not zero, and by 0
/// otherwise.
pub open spec fn spec_bool_or(s: StateModel) -> (StateModel, Outcome) {
    spec_binary(s, "or"@, |a: i64, b: i64| flag(a != 0 || b != 0))
}

/// `or` ( a b -- flag ) Boolean OR (0=false, non-zero=true).
pub fn bool_or(state: &mut State) -> (r: Result<(), String>)
    ensures
        (final(state)@, outcome(r)) == spec_bool_or(old(state)@),
{
    let (a, b) = pop_two_ints(state, "or")?;
    state.push(Value::Int(flag_of(a != 0 || b != 0)));
    Ok(())
}

/// `not` replaces an integer by 1 if it is zero, and by 0 otherwise. A value
/// of another kind stays where it is.
pub open spec fn spec_bool_not(s: StateModel) -> (StateModel, Outcome) {
    if s.stack.len() < 1 {
        (s, Err("not: stack underflow"@))
    } else {
        match s.peek(0) {
            ValueModel::Int(a) => (s.drop(1).push(ValueModel::Int(flag(a == 0))), Ok(())),
            _ => (s, Err("not: requires integer"@)),
        }
    }
}

/// `not` ( a -- flag ) Boolean NOT (0=false, non-zero=true).
pub fn bool_not(state: &mut State) -> (r: Result<(), String>)
    ensures
        (final(state)@, outcome(r)) == spec_bool_not(old(state)@),
{
    match state.pop() {
        None => Err("not: stack underflow".to_string()),
        Some(Value::Int(a)) => {
            state.push(Value::Int(flag_of(a == 0)));
            Ok(())
        },
        Some(other) => {
            state.push(other);
            assert(state@.stack =~= old(state)@.stack);
            Err("not: requires integer".to_string())
        },
    }
}

/// `xor` replaces two integers by 1 if exactly one of them is not zero, and
/// by 0 otherwise.
pub open spec fn spec_bool_xor(s: StateModel) -> (StateModel, Outcome) {
    spec_binary(s, "xor"@, |a: i64, b: i64| flag((a != 0) != (b != 0)))
}

/// `xor` ( a b -- flag ) Boolean XOR (0=false, non-zero=true).
pub fn bool_xor(state: &mut State) -> (r: Result<(), String>)
    ensures
        (final(state)@, outcome(r)) == spec_bool_xor(old(state)@),
{
    let (a, b) = pop_two_ints(state, "xor")?;
    state.push(Value::Int(flag_of((a != 0) != (b != 0))));
    Ok(())
}

// ========== String operations ==========

/// `concat` replaces two strings by the second followed by the top one.
/// Values that are not both strings stay where they are.
pub open spec fn spec_concat(s: StateModel) -> (StateModel, Outcome) {
    if s.stack.len() < 2 {
        (s, Err("concat: stack underflow"@))
    } else {
        match (s.peek(1), s.peek(0)) {
            (ValueModel::Str(a), ValueModel::Str(b)) => (
                s.drop(2).push(ValueModel::Str(a + b)),
                Ok(()),
            ),
            _ => (s, Err("concat: requires two strings"@)),
        }
    }
}

/// `concat` ( a b -- a+b ) Concatenate two strings.
pub fn concat(state: &mut State) -> (r: Result<(), String>)
    ensures
        (final(state)@, outcome(r)) == spec_concat(old(state)@),
{
    if state.stack.len() < 2 {
        return Err("concat: stack underflow".to_string());
    }
    let b = state.pop().unwrap();
    let a = state.pop().unwrap();
    assert(state@.stack =~= old(state)@.drop(2).stack);
    match (a, b) {
        (Value::Str(sa), Value::Str(sb)) => {
            state.push(Value::Str(join2(sa.as_str(), sb.as_str())));
            Ok(())
        },
        (a, b) => {
            state.push(a);
            state.push(b);
            assert(state@.stack =~= old(state)@.stack);
            Err("concat: requires two strings".to_string())
        },
    }
}

/// `?prefix` takes a text and, on top, a prefix: a text that is not empty
/// gets the prefix in front of it, an empty text stays empty. Values that
/// are not both strings stay where they are.
pub open spec fn spec_cond_prefix(s: StateModel) -> (StateModel, Outcome) {
    if s.stack.len() < 2 {
        (s, Err("?prefix: stack underflow"@))
    } else {
        match (s.peek(1), s.peek(0)) {
            (ValueModel::Str(text), ValueModel::Str(prefix)) => (
                s.drop(2).push(
                    ValueModel::Str(
                        if text.len() == 0 {
                            text
                        } else {
                            prefix + text
                        },
                    ),
                ),
                Ok(()),
            ),
            _ => (s, Err("?prefix: requires two strings"@)),
        }
    }
}

/// `?prefix` ( str prefix -- result ) Prepend prefix if str is not empty.
pub fn cond_prefix(state: &mut State) -> (r: Result<(), String>)
    ensures
        (final(state)@, outcome(r)) == spec_cond_prefix(old(state)@),
{
    if state.stack.len() < 2 {
        return Err("?prefix: stack underflow".to_string());
    }
    let b = state.pop().unwrap();
    let a = state.pop().unwrap();
    assert(state@.stack =~= old(state)@.drop(2).stack);
    match (a, b) {
        (Value::Str(text), Value::Str(prefix)) => {
            if text.as_str().is_empty() {
                state.push(Value::Str(text));
            } else {
                state.push(Value::Str(join2(prefix.as_str(), text.as_str())));
            }
            Ok(())
        },
        (a, b) => {
            state.push(a);
            state.push(b);
            assert(state@.stack =~= old(state)@.stack);
            Err("?prefix: requires two strings".to_string())
        },
    }
}

/// `?suffix` takes a text and, on top, a suffix: a text that is not empty
/// gets the suffix behind it, an empty text stays empty. Values that are
/// not both strings stay where they are.
pub open spec fn spec_cond_suffix(s: StateModel) -> (StateModel, Outcome) {
    if s.stack.len() < 2 {
        (s, Err("?suffix: stack underflow"@))
    } else {
        match (s.peek(1), s.peek(0)) {
            (ValueModel::Str(text), ValueModel::Str(suffix)) => (
                s.drop(2).push(
                    ValueModel::Str(
                        if text.len() == 0 {
                            text
                        } else {
                            text + suffix
                        },
                    ),
                ),
                Ok(()),
            ),
            _ => (s, Err("?suffix: requires two strings"@)),
        }
    }
}

/// `?suffix` ( str suffix -- result ) Append suffix if str is not empty.
pub fn cond_suffix(state: &mut State) -> (r: Result<(), String>)
    ensures
        (final(state)@, outcome(r)) == spec_cond_suffix(old(state)@),
{
    if state.stack.len() < 2 {
        return Err("?suffix: stack underflow".to_string());
    }
    let b = state.pop().unwrap();
    let a = state.pop().unwrap();
    assert(state@.stack =~= old(state)@.drop(2).stack);
    match (a, b) {
        (Value::Str(text), Value::Str(suffix)) => {
            if text.as_str().is_empty() {
                state.push(Value::Str(text));
            } else {
                state.push(Value::Str(join2(text.as_str(), suffix.as_str())));
            }
            Ok(())
        },
        (a, b) => {
            state.push(a);
            state.push(b);
            assert(state@.stack =~= old(state)@.stack);
            Err("?suffix: requires two strings".to_string())
        },
    }
}

/// `?wrap` takes a text, a prefix and, on top, a suffix: a text that is
/// not empty is put between the two, an empty text stays empty. Values
/// that are not all strings stay where they are.
pub open spec fn spec_cond_wrap(s: StateModel) -> (StateModel, Outcome) {
    if s.stack.len() < 3 {
        (s, Err("?wrap: stack underflow"@))
    } else {
        match (s.peek(2), s.peek(1), s.peek(0)) {
            (ValueModel::Str(text), ValueModel::Str(prefix), ValueModel::Str(suffix)) => (
                s.drop(3).push(
                    ValueModel::Str(
                        if text.len() == 0 {
                            text
                        } else {
                            prefix + text + suffix
                        },
                    ),
                ),
                Ok(()),
            ),
            _ => (s, Err("?wrap: requires three strings"@)),
        }
    }
}

/// `?wrap` ( str prefix suffix -- result ) Wrap str if it is not empty.
pub fn cond_wrap(state: &mut State) -> (r: Result<(), String>)
    ensures
        (final(state)@, outcome(r)) == spec_cond_wrap(old(state)@),
{
    if state.stack.len() < 3 {
        return Err("?wrap: stack underflow".to_string());
    }
    let c = state.pop().unwrap();
    let b = state.pop().unwrap();
    let a = state.pop().unwrap();
    assert(state@.stack =~= old(state)@.drop(3).stack);
    match (a, b, c) {
        (Value::Str(text), Value::Str(prefix), Value::Str(suffix)) => {
            if text.as_str().is_empty() {
                state.push(Value::Str(text));
            } else {
                state.push(
                    Value::Str(crate::text::join3(prefix.as_str(), text.as_str(), suffix.as_str())),
                );
            }
            Ok(())
        },
        (a, b, c) => {
            state.push(a);
            state.push(b);
            state.push(c);
            assert(state@.stack =~= old(state)@.stack);
            Err("?wrap: requires three strings".to_string())
        },
    }
}

// ========== Loop index words ==========

/// The index that a loop frame exposes, if it is a counted one.
pub open spec fn frame_index(frame: LoopInfo) -> Option<i64> {
    match frame {
        LoopInfo::DoCountedLoop { current, .. } => Some(current),
        LoopInfo::DoPlusCountedLoop { current, .. } => Some(current),
        LoopInfo::BeginUntilLoop => None,
        LoopInfo::BeginWhileLoop => None,
    }
}

fn index_of_frame(frame: &LoopInfo) -> (r: Option<i64>)
    ensures
        r == frame_index(*frame),
{
    match frame {
        LoopInfo::DoCountedLoop { current, .. } => Some(*current),
        LoopInfo::DoPlusCountedLoop { current, .. } => Some(*current),
        LoopInfo::BeginUntilLoop => None,
        LoopInfo::BeginWhileLoop => None,
    }
}

/// `i` pushes the index of the innermost active loop. It fails outside any
/// loop, and where the innermost loop is not a counted one.
pub open spec fn spec_loop_i(s: StateModel) -> (StateModel, Outcome) {
    if s.loop_stack.len() == 0 {
        (s, Err("i: not inside a loop"@))
    } else {
        match frame_index(s.loop_stack.last()) {
            Some(current) => (s.push(ValueModel::Int(current)), Ok(())),
            None => (s, Err("i: loop index not available (not a counted loop)"@)),
        }
    }
}

/// `i` ( -- index ) Push current (innermost) loop index.
pub fn loop_i(state: &mut State) -> (r: Result<(), String>)
    ensures
        (final(state)@, outcome(r)) == spec_loop_i(old(state)@),
{
    let len = state.loop_stack.len();
    if len == 0 {
        return Err("i: not inside a loop".to_string());
    }
    match index_of_frame(&state.loop_stack[len - 1]) {
        Some(current) => {
            state.push(Value::Int(current));
            Ok(())
        },
        None => Err("i: loop index not available (not a counted loop)".to_string()),
    }
}

/// `j` pushes the index of the second-innermost active loop. It fails with
/// fewer than two active loops, and where that loop is not a counted one.
pub open spec fn spec_loop_j(s: StateModel) -> (StateModel, Outcome) {
    if s.loop_stack.len() < 2 {
        (s, Err("j: not inside a nested loop"@))
    } else {
        match frame_index(s.loop_stack[s.loop_stack.len() - 2]) {
            Some(current) => (s.push(ValueModel::Int(current)), Ok(())),
            None => (s, Err("j: outer loop index not available (not a counted loop)"@)),
        }
    }
}

/// `j` ( -- index ) Push outer loop index (for nested loops).
pub fn loop_j(state: &mut State) -> (r: Result<(), String>)
    ensures
        (final(state)@, outcome(r)) == spec_loop_j(old(state)@),
{
    let len = state.loop_stack.len();
    if len < 2 {
        return Err("j: not inside a nested loop".to_string());
    }
    match index_of_frame(&state.loop_stack[len - 2]) {
        Some(current) => {
            state.push(Value::Int(current));
            Ok(())
        },
        None => Err("j: outer loop index not available (not a counted loop)".to_string()),
    }
}

} // verus!
