//! Stack shuffling: `dup`, `swap`, `drop`.
use super::{pop_any, pop_two_any, take_any, take_two_any, Native, Step};
use crate::interpreter::{Interpreter, Word};
use crate::types::{Error, Type};
use vstd::prelude::*;

verus! {

pub open spec fn dup_effect(s: Seq<Type>) -> (Seq<Type>, Step) {
    if s.len() == 0 {
        (s, Step::Failed(Error::StackUnderflow))
    } else {
        (s.push(s.last()), Step::Continue)
    }
}

pub open spec fn swap_effect(s: Seq<Type>) -> (Seq<Type>, Step) {
    let (s2, r) = pop_two_any(s);
    match r {
        Err(e) => (s2, Step::Failed(e)),
        Ok((a, b)) => (s2.push(b).push(a), Step::Continue),
    }
}

pub open spec fn drop_effect(s: Seq<Type>) -> (Seq<Type>, Step) {
    let (s1, r) = pop_any(s);
    match r {
        Err(e) => (s1, Step::Failed(e)),
        Ok(_) => (s1, Step::Continue),
    }
}

pub fn dup(stack: &mut Vec<Type>) -> (r: Step)
    ensures
        (final(stack)@, r) == dup_effect(old(stack)@),
{
    let n = stack.len();
    if n == 0 {
        return Step::Failed(Error::StackUnderflow);
    }
    let v = stack[n - 1].copy();
    stack.push(v);
    Step::Continue
}

pub fn swap(stack: &mut Vec<Type>) -> (r: Step)
    ensures
        (final(stack)@, r) == swap_effect(old(stack)@),
{
    match take_two_any(stack) {
        Ok((a, b)) => {
            stack.push(b);
            stack.push(a);
            Step::Continue
        },
        Err(e) => Step::Failed(e),
    }
}

pub fn drop(stack: &mut Vec<Type>) -> (r: Step)
    ensures
        (final(stack)@, r) == drop_effect(old(stack)@),
{
    match take_any(stack) {
        Ok(_) => Step::Continue,
        Err(e) => Step::Failed(e),
    }
}

pub fn register_stack_words(interp: &mut Interpreter)
    requires
        old(interp).wf(),
    ensures
        final(interp).wf(),
        final(interp).same_but_dictionary(old(interp)),
        final(interp).dictionary@ == old(interp).dictionary@.insert(
            "dup"@,
            Word::Native(Native::Dup),
        ).insert("swap"@, Word::Native(Native::Swap)).insert("drop"@, Word::Native(Native::Drop)),
{
    interp.define("dup", Native::Dup);
    interp.define("swap", Native::Swap);
    interp.define("drop", Native::Drop);
}

} // verus!
