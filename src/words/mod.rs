//! The built-in words. Each works on the value stack and reports an
//! outcome; work on floats is handed to the host as a request.
pub mod comparison;
pub mod io;
pub mod logic;
pub mod math;
pub mod stack;
pub mod stringwords;

pub use comparison::register_comparison_words;
pub use io::register_io_words;
pub use logic::register_logic_words;
pub use math::register_math_words;
pub use stack::register_stack_words;
pub use stringwords::register_string_words;

use crate::types::{kind_of, num_of, Error, Expected, Num, Type};
use stringwords::StrMap;
use vstd::prelude::*;

verus! {

/// A built-in word.
#[derive(Clone, Copy, Debug, PartialEq, Eq, Structural)]
pub enum Native {
    Add,
    Sub,
    Mul,
    Div,
    Sqrt,
    Dup,
    Swap,
    Drop,
    Eq,
    Ne,
    Lt,
    Le,
    Gt,
    Ge,
    And,
    Or,
    Not,
    Concat,
    Len,
    Reverse,
    Upper,
    Lower,
    Format,
    Print,
}

#[derive(Clone, Copy, Debug, PartialEq, Eq, Structural)]
pub enum ArithOp {
    Add,
    Sub,
    Mul,
    Div,
}

#[derive(Clone, Copy, Debug, PartialEq, Eq, Structural)]
pub enum CmpOp {
    Eq,
    Ne,
    Lt,
    Le,
    Gt,
    Ge,
}

/// Work on floats that the host performs. Integer operands are widened to
/// float first; a float operand is given by its text.
#[derive(Debug, PartialEq)]
pub enum Request {
    /// The float that a literal token reads as.
    Literal(String),
    /// `op(next, top)` on the widened operands.
    Arith(ArithOp, Num, Num),
    /// The square root of the widened operand.
    Sqrt(Num),
    /// The comparison `next op top` on the widened operands.
    Compare(CmpOp, Num, Num),
}

/// The result of a request, handed back by the host.
#[derive(Debug, PartialEq)]
pub enum Reply {
    /// The text of a float result.
    Float(String),
    /// The text of a float result and that float truncated to `i64`.
    Arith { value: String, truncated: i64 },
    /// The result of a comparison.
    Truth(bool),
}

/// What the engine does with the reply to a request.
#[derive(Clone, Copy, Debug, PartialEq, Eq, Structural)]
pub enum Pending {
    /// Push the float.
    Float,
    /// Push the truncated integer if both operands were integers, else the float.
    Arith { both_int: bool },
    /// Push the boolean.
    Truth,
}

/// The outcome of one step of evaluation.
#[derive(Debug, PartialEq)]
pub enum Step {
    /// The token was processed; more may follow.
    Continue,
    /// Nothing is left to evaluate.
    Done,
    /// Show this text on the output.
    Output(String),
    /// Float work is needed: hand the reply to `Interpreter::resume`.
    Compute(Request),
    /// Evaluation stopped at this error.
    Failed(Error),
}

pub open spec fn pending_of(q: Request) -> Pending {
    match q {
        Request::Literal(_) => Pending::Float,
        Request::Arith(_, a, b) => Pending::Arith { both_int: a is Int && b is Int },
        Request::Sqrt(_) => Pending::Float,
        Request::Compare(_, _, _) => Pending::Truth,
    }
}

/// Whether `reply` answers a request that left `p` pending.
pub open spec fn fits(p: Pending, reply: Reply) -> bool {
    match p {
        Pending::Float => reply is Float,
        Pending::Arith { .. } => reply is Arith,
        Pending::Truth => reply is Truth,
    }
}

impl Request {
    pub fn pending(&self) -> (r: Pending)
        ensures
            r == pending_of(*self),
    {
        match self {
            Request::Literal(_) => Pending::Float,
            Request::Arith(_, a, b) => Pending::Arith {
                both_int: matches!(a, Num::Int(_)) && matches!(b, Num::Int(_)),
            },
            Request::Sqrt(_) => Pending::Float,
            Request::Compare(_, _, _) => Pending::Truth,
        }
    }
}

impl Reply {
    /// Whether this reply answers a request that left `p` pending.
    pub fn fits(&self, p: Pending) -> (r: bool)
        ensures
            r == fits(p, *self),
    {
        match p {
            Pending::Float => matches!(self, Reply::Float(_)),
            Pending::Arith { .. } => matches!(self, Reply::Arith { .. }),
            Pending::Truth => matches!(self, Reply::Truth(_)),
        }
    }
}

/// Pops any value.
pub open spec fn pop_any(s: Seq<Type>) -> (Seq<Type>, Result<Type, Error>) {
    if s.len() == 0 {
        (s, Err(Error::StackUnderflow))
    } else {
        (s.drop_last(), Ok(s.last()))
    }
}

/// Pops a number; a value of another variant is consumed and refused.
pub open spec fn pop_num(s: Seq<Type>) -> (Seq<Type>, Result<Num, Error>) {
    if s.len() == 0 {
        (s, Err(Error::StackUnderflow))
    } else {
        match num_of(s.last()) {
            Some(n) => (s.drop_last(), Ok(n)),
            None => (
                s.drop_last(),
                Err(Error::TypeMismatch { expected: Expected::Number, found: kind_of(s.last()) }),
            ),
        }
    }
}

/// Pops a string; a value of another variant is consumed and refused.
pub open spec fn pop_str(s: Seq<Type>) -> (Seq<Type>, Result<String, Error>) {
    if s.len() == 0 {
        (s, Err(Error::StackUnderflow))
    } else {
        match s.last() {
            Type::String(t) => (s.drop_last(), Ok(t)),
            _ => (
                s.drop_last(),
                Err(Error::TypeMismatch { expected: Expected::String, found: kind_of(s.last()) }),
            ),
        }
    }
}

/// Pops a boolean; a value of another variant is consumed and refused.
pub open spec fn pop_bool(s: Seq<Type>) -> (Seq<Type>, Result<bool, Error>) {
    if s.len() == 0 {
        (s, Err(Error::StackUnderflow))
    } else {
        match s.last() {
            Type::Bool(b) => (s.drop_last(), Ok(b)),
            _ => (
                s.drop_last(),
                Err(Error::TypeMismatch { expected: Expected::Bool, found: kind_of(s.last()) }),
            ),
        }
    }
}

/// Pops the top, then the value below it; on success gives (next, top).
pub open spec fn pop_two_any(s: Seq<Type>) -> (Seq<Type>, Result<(Type, Type), Error>) {
    let (s1, top) = pop_any(s);
    match top {
        Err(e) => (s1, Err(e)),
        Ok(b) => {
            let (s2, next) = pop_any(s1);
            match next {
                Err(e) => (s2, Err(e)),
                Ok(a) => (s2, Ok((a, b))),
            }
        },
    }
}

/// Pops two numbers; on success gives (next, top).
pub open spec fn pop_two_nums(s: Seq<Type>) -> (Seq<Type>, Result<(Num, Num), Error>) {
    let (s1, top) = pop_num(s);
    match top {
        Err(e) => (s1, Err(e)),
        Ok(b) => {
            let (s2, next) = pop_num(s1);
            match next {
                Err(e) => (s2, Err(e)),
                Ok(a) => (s2, Ok((a, b))),
            }
        },
    }
}

/// Pops two strings; on success gives (next, top).
pub open spec fn pop_two_strs(s: Seq<Type>) -> (Seq<Type>, Result<(String, String), Error>) {
    let (s1, top) = pop_str(s);
    match top {
        Err(e) => (s1, Err(e)),
        Ok(b) => {
            let (s2, next) = pop_str(s1);
            match next {
                Err(e) => (s2, Err(e)),
                Ok(a) => (s2, Ok((a, b))),
            }
        },
    }
}

/// Pops two booleans; on success gives (next, top).
pub open spec fn pop_two_bools(s: Seq<Type>) -> (Seq<Type>, Result<(bool, bool), Error>) {
    let (s1, top) = pop_bool(s);
    match top {
        Err(e) => (s1, Err(e)),
        Ok(b) => {
            let (s2, next) = pop_bool(s1);
            match next {
                Err(e) => (s2, Err(e)),
                Ok(a) => (s2, Ok((a, b))),
            }
        },
    }
}

/// The effect of a built-in word on the stack, and its outcome.
pub open spec fn native_post(op: Native, s: Seq<Type>, n: Seq<Type>, r: Step) -> bool {
    match op {
        Native::Add => (n, r) == math::arith_effect(ArithOp::Add, s),
        Native::Sub => (n, r) == math::arith_effect(ArithOp::Sub, s),
        Native::Mul => (n, r) == math::arith_effect(ArithOp::Mul, s),
        Native::Div => (n, r) == math::arith_effect(ArithOp::Div, s),
        Native::Sqrt => (n, r) == math::sqrt_effect(s),
        Native::Dup => (n, r) == stack::dup_effect(s),
        Native::Swap => (n, r) == stack::swap_effect(s),
        Native::Drop => (n, r) == stack::drop_effect(s),
        Native::Eq => (n, r) == comparison::equality_effect(CmpOp::Eq, s),
        Native::Ne => (n, r) == comparison::equality_effect(CmpOp::Ne, s),
        Native::Lt => (n, r) == comparison::ordering_effect(CmpOp::Lt, s),
        Native::Le => (n, r) == comparison::ordering_effect(CmpOp::Le, s),
        Native::Gt => (n, r) == comparison::ordering_effect(CmpOp::Gt, s),
        Native::Ge => (n, r) == comparison::ordering_effect(CmpOp::Ge, s),
        Native::And => (n, r) == logic::connective_effect(true, s),
        Native::Or => (n, r) == logic::connective_effect(false, s),
        Native::Not => (n, r) == logic::not_effect(s),
        Native::Concat => stringwords::concat_post(s, n, r),
        Native::Len => stringwords::len_post(s, n, r),
        Native::Reverse => stringwords::map_post(StrMap::Reverse, s, n, r),
        Native::Upper => stringwords::map_post(StrMap::Upper, s, n, r),
        Native::Lower => stringwords::map_post(StrMap::Lower, s, n, r),
        Native::Format => stringwords::format_post(s, n, r),
        Native::Print => io::print_post(s, n, r),
    }
}

/// Runs a built-in word on the stack.
pub fn apply_native(stack: &mut Vec<Type>, op: Native) -> (r: Step)
    ensures
        native_post(op, old(stack)@, final(stack)@, r),
{
    match op {
        Native::Add => math::arith(stack, ArithOp::Add),
        Native::Sub => math::arith(stack, ArithOp::Sub),
        Native::Mul => math::arith(stack, ArithOp::Mul),
        Native::Div => math::arith(stack, ArithOp::Div),
        Native::Sqrt => math::sqrt(stack),
        Native::Dup => stack::dup(stack),
        Native::Swap => stack::swap(stack),
        Native::Drop => stack::drop(stack),
        Native::Eq => comparison::equality(stack, CmpOp::Eq),
        Native::Ne => comparison::equality(stack, CmpOp::Ne),
        Native::Lt => comparison::ordering(stack, CmpOp::Lt),
        Native::Le => comparison::ordering(stack, CmpOp::Le),
        Native::Gt => comparison::ordering(stack, CmpOp::Gt),
        Native::Ge => comparison::ordering(stack, CmpOp::Ge),
        Native::And => logic::connective(stack, true),
        Native::Or => logic::connective(stack, false),
        Native::Not => logic::not(stack),
        Native::Concat => stringwords::concat(stack),
        Native::Len => stringwords::len(stack),
        Native::Reverse => stringwords::map_string(stack, StrMap::Reverse),
        Native::Upper => stringwords::map_string(stack, StrMap::Upper),
        Native::Lower => stringwords::map_string(stack, StrMap::Lower),
        Native::Format => stringwords::format(stack),
        Native::Print => io::print(stack),
    }
}

/// Both values as numeric operands, when both are numbers.
pub fn num_of_pair(a: Type, b: Type) -> (r: Option<(Num, Num)>)
    ensures
        r == (match (num_of(a), num_of(b)) {
            (Some(x), Some(y)) => Some((x, y)),
            _ => None,
        }),
{
    let x = match a {
        Type::Int(i) => Num::Int(i),
        Type::Float(f) => Num::Float(f),
        _ => return None,
    };
    match b {
        Type::Int(i) => Some((x, Num::Int(i))),
        Type::Float(f) => Some((x, Num::Float(f))),
        _ => None,
    }
}

pub fn take_any(stack: &mut Vec<Type>) -> (r: Result<Type, Error>)
    ensures
        (final(stack)@, r) == pop_any(old(stack)@),
{
    match stack.pop() {
        Some(v) => Ok(v),
        None => Err(Error::StackUnderflow),
    }
}

pub fn take_num(stack: &mut Vec<Type>) -> (r: Result<Num, Error>)
    ensures
        (final(stack)@, r) == pop_num(old(stack)@),
{
    match stack.pop() {
        Some(Type::Int(i)) => Ok(Num::Int(i)),
        Some(Type::Float(f)) => Ok(Num::Float(f)),
        Some(v) => Err(Error::TypeMismatch { expected: Expected::Number, found: v.kind() }),
        None => Err(Error::StackUnderflow),
    }
}

pub fn take_str(stack: &mut Vec<Type>) -> (r: Result<String, Error>)
    ensures
        (final(stack)@, r) == pop_str(old(stack)@),
{
    match stack.pop() {
        Some(Type::String(s)) => Ok(s),
        Some(v) => Err(Error::TypeMismatch { expected: Expected::String, found: v.kind() }),
        None => Err(Error::StackUnderflow),
    }
}

pub fn take_bool(stack: &mut Vec<Type>) -> (r: Result<bool, Error>)
    ensures
        (final(stack)@, r) == pop_bool(old(stack)@),
{
    match stack.pop() {
        Some(Type::Bool(b)) => Ok(b),
        Some(v) => Err(Error::TypeMismatch { expected: Expected::Bool, found: v.kind() }),
        None => Err(Error::StackUnderflow),
    }
}

pub fn take_two_any(stack: &mut Vec<Type>) -> (r: Result<(Type, Type), Error>)
    ensures
        (final(stack)@, r) == pop_two_any(old(stack)@),
{
    let b = match take_any(stack) {
        Ok(v) => v,
        Err(e) => return Err(e),
    };
    match take_any(stack) {
        Ok(a) => Ok((a, b)),
        Err(e) => Err(e),
    }
}

pub fn take_two_nums(stack: &mut Vec<Type>) -> (r: Result<(Num, Num), Error>)
    ensures
        (final(stack)@, r) == pop_two_nums(old(stack)@),
{
    let b = match take_num(stack) {
        Ok(v) => v,
        Err(e) => return Err(e),
    };
    match take_num(stack) {
        Ok(a) => Ok((a, b)),
        Err(e) => Err(e),
    }
}

pub fn take_two_strs(stack: &mut Vec<Type>) -> (r: Result<(String, String), Error>)
    ensures
        (final(stack)@, r) == pop_two_strs(old(stack)@),
{
    let b = match take_str(stack) {
        Ok(v) => v,
        Err(e) => return Err(e),
    };
    match take_str(stack) {
        Ok(a) => Ok((a, b)),
        Err(e) => Err(e),
    }
}

pub fn take_two_bools(stack: &mut Vec<Type>) -> (r: Result<(bool, bool), Error>)
    ensures
        (final(stack)@, r) == pop_two_bools(old(stack)@),
{
    let b = match take_bool(stack) {
        Ok(v) => v,
        Err(e) => return Err(e),
    };
    match take_bool(stack) {
        Ok(a) => Ok((a, b)),
        Err(e) => Err(e),
    }
}

} // verus!
