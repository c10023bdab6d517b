//! Comparison: `==` and `!=` on any two values, `< <= > >=` on numbers.
use super::{num_of_pair, pop_two_any, pop_two_nums, take_two_any, take_two_nums, CmpOp, Native, Step, Request};
use crate::interpreter::{Interpreter, Word};
use crate::types::{kind_of, num_of, Error, Expected, Type};
use vstd::prelude::*;

verus! {

/// `==` (when `op` is `Eq`) or `!=`: values of one variant compare by their
/// contents, a number with a number compares numerically (on the host), and
/// any other pair is unequal.
pub open spec fn equality_effect(op: CmpOp, s: Seq<Type>) -> (Seq<Type>, Step) {
    let eq = op == CmpOp::Eq;
    let (s2, r) = pop_two_any(s);
    match r {
        Err(e) => (s2, Step::Failed(e)),
        Ok((a, b)) => match (a, b) {
            (Type::Int(x), Type::Int(y)) => (s2.push(Type::Bool((x == y) == eq)), Step::Continue),
            (Type::String(x), Type::String(y)) => (
                s2.push(Type::Bool((x@ == y@) == eq)),
                Step::Continue,
            ),
            (Type::Bool(x), Type::Bool(y)) => (s2.push(Type::Bool((x == y) == eq)), Step::Continue),
            _ => match (num_of(a), num_of(b)) {
                (Some(x), Some(y)) => (s2, Step::Compute(Request::Compare(op, x, y))),
                _ => (s2.push(Type::Bool(!eq)), Step::Continue),
            },
        },
    }
}

/// `< <= > >=`: pops two numbers and asks for `next op top`.
pub open spec fn ordering_effect(op: CmpOp, s: Seq<Type>) -> (Seq<Type>, Step) {
    let (s2, r) = pop_two_nums(s);
    match r {
        Err(e) => (s2, Step::Failed(e)),
        Ok((a, b)) => (s2, Step::Compute(Request::Compare(op, a, b))),
    }
}

/// Equality is total: with two values on the stack, `==` and `!=` never
/// fail, whatever their variants.
pub proof fn lemma_equality_total(op: CmpOp, s: Seq<Type>)
    requires
        op == CmpOp::Eq || op == CmpOp::Ne,
        s.len() >= 2,
    ensures
        !(equality_effect(op, s).1 is Failed),
{
}

/// Ordering is not total: `< <= > >=` refuse a value on top that is no
/// number.
pub proof fn lemma_ordering_refuses_non_numbers(op: CmpOp, s: Seq<Type>)
    requires
        s.len() >= 1,
        num_of(s.last()) is None,
    ensures
        ordering_effect(op, s).1 == Step::Failed(
            Error::TypeMismatch { expected: Expected::Number, found: kind_of(s.last()) },
        ),
{
}

pub fn equality(stack: &mut Vec<Type>, op: CmpOp) -> (r: Step)
    requires
        op == CmpOp::Eq || op == CmpOp::Ne,
    ensures
        (final(stack)@, r) == equality_effect(op, old(stack)@),
{
    let eq = op == CmpOp::Eq;
    match take_two_any(stack) {
        Err(e) => Step::Failed(e),
        Ok((a, b)) => {
            let same: Option<bool> = match (&a, &b) {
                (Type::Int(x), Type::Int(y)) => Some(*x == *y),
                (Type::String(x), Type::String(y)) => Some(x.eq(y)),
                (Type::Bool(x), Type::Bool(y)) => Some(*x == *y),
                _ => None,
            };
            match same {
                Some(t) => {
                    stack.push(Type::Bool(t == eq));
                    Step::Continue
                },
                None => match num_of_pair(a, b) {
                    Some((x, y)) => Step::Compute(Request::Compare(op, x, y)),
                    None => {
                        stack.push(Type::Bool(!eq));
                        Step::Continue
                    },
                },
            }
        },
    }
}

pub fn ordering(stack: &mut Vec<Type>, op: CmpOp) -> (r: Step)
    ensures
        (final(stack)@, r) == ordering_effect(op, old(stack)@),
{
    match take_two_nums(stack) {
        Ok((a, b)) => Step::Compute(Request::Compare(op, a, b)),
        Err(e) => Step::Failed(e),
    }
}

pub fn register_comparison_words(interp: &mut Interpreter)
    requires
        old(interp).wf(),
    ensures
        final(interp).wf(),
        final(interp).same_but_dictionary(old(interp)),
        final(interp).dictionary@ == old(interp).dictionary@.insert(
            "=="@,
            Word::Native(Native::Eq),
        ).insert("!="@, Word::Native(Native::Ne)).insert("<"@, Word::Native(Native::Lt)).insert(
            "<="@,
            Word::Native(Native::Le),
        ).insert(">"@, Word::Native(Native::Gt)).insert(">="@, Word::Native(Native::Ge)),
{
    interp.define("==", Native::Eq);
    interp.define("!=", Native::Ne);
    interp.define("<", Native::Lt);
    interp.define("<=", Native::Le);
    interp.define(">", Native::Gt);
    interp.define(">=", Native::Ge);
}

} // verus!
