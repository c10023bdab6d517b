//! Arithmetic: `+ - * /` and `sqrt`.
use super::{pop_num, pop_two_nums, take_num, take_two_nums, ArithOp, Native, Step, Request};
use crate::interpreter::{Interpreter, Word};
use crate::types::Type;
use vstd::prelude::*;

verus! {

/// Pops two numbers and asks for `op(next, top)`.
pub open spec fn arith_effect(op: ArithOp, s: Seq<Type>) -> (Seq<Type>, Step) {
    let (s2, r) = pop_two_nums(s);
    match r {
        Err(e) => (s2, Step::Failed(e)),
        Ok((a, b)) => (s2, Step::Compute(Request::Arith(op, a, b))),
    }
}

/// Pops one number and asks for its square root.
pub open spec fn sqrt_effect(s: Seq<Type>) -> (Seq<Type>, Step) {
    let (s1, r) = pop_num(s);
    match r {
        Err(e) => (s1, Step::Failed(e)),
        Ok(a) => (s1, Step::Compute(Request::Sqrt(a))),
    }
}

pub fn arith(stack: &mut Vec<Type>, op: ArithOp) -> (r: Step)
    ensures
        (final(stack)@, r) == arith_effect(op, old(stack)@),
{
    match take_two_nums(stack) {
        Ok((a, b)) => Step::Compute(Request::Arith(op, a, b)),
        Err(e) => Step::Failed(e),
    }
}

pub fn sqrt(stack: &mut Vec<Type>) -> (r: Step)
    ensures
        (final(stack)@, r) == sqrt_effect(old(stack)@),
{
    match take_num(stack) {
        Ok(a) => Step::Compute(Request::Sqrt(a)),
        Err(e) => Step::Failed(e),
    }
}

pub fn register_math_words(interp: &mut Interpreter)
    requires
        old(interp).wf(),
    ensures
        final(interp).wf(),
        final(interp).same_but_dictionary(old(interp)),
        final(interp).dictionary@ == old(interp).dictionary@.insert(
            "+"@,
            Word::Native(Native::Add),
        ).insert("-"@, Word::Native(Native::Sub)).insert("*"@, Word::Native(Native::Mul)).insert(
            "/"@,
            Word::Native(Native::Div),
        ).insert("sqrt"@, Word::Native(Native::Sqrt)),
{
    interp.define("+", Native::Add);
    interp.define("-", Native::Sub);
    interp.define("*", Native::Mul);
    interp.define("/", Native::Div);
    interp.define("sqrt", Native::Sqrt);
}

} // verus!
