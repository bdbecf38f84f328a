//! Words that rearrange the stack.

use vstd::prelude::*;
use crate::types::{outcome, Outcome, State, StateModel};

verus! {

/// `dup` pushes a copy of the top value.
pub open spec fn spec_dup(s: StateModel) -> (StateModel, Outcome) {
    if s.stack.len() < 1 {
        (s, Err("dup: stack underflow"@))
    } else {
        (s.push(s.peek(0)), Ok(()))
    }
}

/// `dup` ( a -- a a ) Duplicate top item.
pub fn dup(state: &mut State) -> (r: Result<(), String>)
    ensures
        (final(state)@, outcome(r)) == spec_dup(old(state)@),
{
    let n = state.stack.len();
    if n < 1 {
        return Err("dup: stack underflow".to_string());
    }
    let top = state.stack[n - 1].clone();
    state.push(top);
    Ok(())
}

/// `swap` exchanges the two values on top.
pub open spec fn spec_swap(s: StateModel) -> (StateModel, Outcome) {
    if s.stack.len() < 2 {
        (s, Err("swap: stack underflow"@))
    } else {
        (s.drop(2).push(s.peek(0)).push(s.peek(1)), Ok(()))
    }
}

/// `swap` ( a b -- b a ) Swap top two items.
pub fn swap(state: &mut State) -> (r: Result<(), String>)
    ensures
        (final(state)@, outcome(r)) == spec_swap(old(state)@),
{
    if state.stack.len() < 2 {
        return Err("swap: stack underflow".to_string());
    }
    let b = state.pop().unwrap();
    let a = state.pop().unwrap();
    state.push(b);
    state.push(a);
    assert(state@.stack =~= old(state)@.drop(2).push(old(state)@.peek(0)).push(old(state)@.peek(1)).stack);
    Ok(())
}

/// `drop` removes the top value.
pub open spec fn spec_drop_word(s: StateModel) -> (StateModel, Outcome) {
    if s.stack.len() < 1 {
        (s, Err("drop: stack underflow"@))
    } else {
        (s.drop(1), Ok(()))
    }
}

/// `drop` ( a -- ) Remove top item.
pub fn drop_word(state: &mut State) -> (r: Result<(), String>)
    ensures
        (final(state)@, outcome(r)) == spec_drop_word(old(state)@),
{
    match state.pop() {
        Some(_) => Ok(()),
        None => Err("drop: stack underflow".to_string()),
    }
}

/// `clear` empties the stack.
pub open spec fn spec_clear(s: StateModel) -> (StateModel, Outcome) {
    (s.with_stack(Seq::empty()), Ok(()))
}

/// `clear` ( ... -- ) Clear entire stack.
pub fn clear(state: &mut State) -> (r: Result<(), String>)
    ensures
        (final(state)@, outcome(r)) == spec_clear(old(state)@),
{
    state.stack.clear();
    assert(state@.stack =~= Seq::empty());
    Ok(())
}

/// `over` pushes a copy of the second value.
pub open spec fn spec_over(s: StateModel) -> (StateModel, Outcome) {
    if s.stack.len() < 2 {
        (s, Err("over: stack underflow"@))
    } else {
        (s.push(s.peek(1)), Ok(()))
    }
}

/// `over` ( a b -- a b a ) Copy second item to top.
pub fn over(state: &mut State) -> (r: Result<(), String>)
    ensures
        (final(state)@, outcome(r)) == spec_over(old(state)@),
{
    let len = state.stack.len();
    if len < 2 {
        return Err("over: stack underflow".to_string());
    }
    let val = state.stack[len - 2].clone();
    state.push(val);
    Ok(())
}

/// `rot` brings the third value to the top.
pub open spec fn spec_rot(s: StateModel) -> (StateModel, Outcome) {
    if s.stack.len() < 3 {
        (s, Err("rot: stack underflow"@))
    } else {
        (s.drop(3).push(s.peek(1)).push(s.peek(0)).push(s.peek(2)), Ok(()))
    }
}

/// `rot` ( a b c -- b c a ) Rotate top three items.
pub fn rot(state: &mut State) -> (r: Result<(), String>)
    ensures
        (final(state)@, outcome(r)) == spec_rot(old(state)@),
{
    if state.stack.len() < 3 {
        return Err("rot: stack underflow".to_string());
    }
    let c = state.pop().unwrap();
    let b = state.pop().unwrap();
    let a = state.pop().unwrap();
    state.push(b);
    state.push(c);
    state.push(a);
    assert(state@.stack =~= spec_rot(old(state)@).0.stack);
    Ok(())
}

} // verus!
