//! Boolean logic: `and`, `or`, `not`.
use super::{pop_bool, pop_two_bools, take_bool, take_two_bools, Native, Step};
use crate::interpreter::{Interpreter, Word};
use crate::types::Type;
use vstd::prelude::*;

verus! {

/// `and` when `conj`, else `or`, of the two booleans on top.
pub open spec fn connective_effect(conj: bool, s: Seq<Type>) -> (Seq<Type>, Step) {
    let (s2, r) = pop_two_bools(s);
    match r {
        Err(e) => (s2, Step::Failed(e)),
        Ok((a, b)) => (s2.push(Type::Bool(if conj { a && b } else { a || b })), Step::Continue),
    }
}

pub open spec fn not_effect(s: Seq<Type>) -> (Seq<Type>, Step) {
    let (s1, r) = pop_bool(s);
    match r {
        Err(e) => (s1, Step::Failed(e)),
        Ok(a) => (s1.push(Type::Bool(!a)), Step::Continue),
    }
}

pub fn connective(stack: &mut Vec<Type>, conj: bool) -> (r: Step)
    ensures
        (final(stack)@, r) == connective_effect(conj, old(stack)@),
{
    match take_two_bools(stack) {
        Ok((a, b)) => {
            stack.push(Type::Bool(if conj { a && b } else { a || b }));
            Step::Continue
        },
        Err(e) => Step::Failed(e),
    }
}

pub fn not(stack: &mut Vec<Type>) -> (r: Step)
    ensures
        (final(stack)@, r) == not_effect(old(stack)@),
{
    match take_bool(stack) {
        Ok(a) => {
            stack.push(Type::Bool(!a));
            Step::Continue
        },
        Err(e) => Step::Failed(e),
    }
}

pub fn register_logic_words(interp: &mut Interpreter)
    requires
        old(interp).wf(),
    ensures
        final(interp).wf(),
        final(interp).same_but_dictionary(old(interp)),
        final(interp).dictionary@ == old(interp).dictionary@.insert(
            "and"@,
            Word::Native(Native::And),
        ).insert("or"@, Word::Native(Native::Or)).insert("not"@, Word::Native(Native::Not)),
{
    interp.define("and", Native::And);
    interp.define("or", Native::Or);
    interp.define("not", Native::Not);
}

} // verus!
