//! Output: `.` hands the text of the top value to the host.
use super::{pop_any, take_any, Native, Step};
use crate::interpreter::{Interpreter, Word};
use crate::types::{render, Type};
use vstd::prelude::*;

verus! {

pub open spec fn print_post(s: Seq<Type>, n: Seq<Type>, r: Step) -> bool {
    let (s1, v) = pop_any(s);
    &&& n == s1
    &&& match v {
        Err(e) => r == Step::Failed(e),
        Ok(v) => r is Output && r->Output_0@ == render(v),
    }
}

pub fn print(stack: &mut Vec<Type>) -> (r: Step)
    ensures
        print_post(old(stack)@, final(stack)@, r),
{
    match take_any(stack) {
        Ok(v) => Step::Output(v.render()),
        Err(e) => Step::Failed(e),
    }
}

pub fn register_io_words(interp: &mut Interpreter)
    requires
        old(interp).wf(),
    ensures
        final(interp).wf(),
        final(interp).same_but_dictionary(old(interp)),
        final(interp).dictionary@ == old(interp).dictionary@.insert("."@, Word::Native(Native::Print)),
{
    interp.define(".", Native::Print);
}

} // verus!
