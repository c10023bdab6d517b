//! The runtime value, the errors of the engine and the textual rendering of
//! values.
use crate::text::{int_text, int_to_text};
use vstd::prelude::*;
use vstd::string::*;

verus! {

/// A runtime value. A float is held as the decimal text that renders it (the
/// shortest text that reads back as the same float), as produced by the
/// host's floating-point unit.
#[derive(Debug, PartialEq)]
pub enum Type {
    Int(i64),
    Float(String),
    String(String),
    Bool(bool),
}

/// The variant of a value, for diagnostics.
#[derive(Clone, Copy, Debug, PartialEq, Eq, Structural)]
pub enum Kind {
    Int,
    Float,
    String,
    Bool,
}

/// What an operation needed where a value of another variant was found.
#[derive(Clone, Copy, Debug, PartialEq, Eq, Structural)]
pub enum Expected {
    Number,
    String,
    Bool,
}

/// Why a word definition was refused.
#[derive(Clone, Copy, Debug, PartialEq, Eq, Structural)]
pub enum DefinitionError {
    /// `:` while a definition is already open.
    AlreadyDefining,
    /// `;` without an open definition.
    NotDefining,
    /// `;` before a name was given.
    MissingName,
}

/// The errors of evaluation.
#[derive(Debug, PartialEq)]
pub enum Error {
    StackUnderflow,
    TypeMismatch { expected: Expected, found: Kind },
    UndefinedVariable(String),
    UnknownToken(String),
    Definition(DefinitionError),
}

/// A numeric operand, as it was on the stack.
#[derive(Debug, PartialEq)]
pub enum Num {
    Int(i64),
    Float(String),
}

pub open spec fn kind_of(v: Type) -> Kind {
    match v {
        Type::Int(_) => Kind::Int,
        Type::Float(_) => Kind::Float,
        Type::String(_) => Kind::String,
        Type::Bool(_) => Kind::Bool,
    }
}

/// The numeric operand that `v` stands for, if it is a number.
pub open spec fn num_of(v: Type) -> Option<Num> {
    match v {
        Type::Int(i) => Some(Num::Int(i)),
        Type::Float(f) => Some(Num::Float(f)),
        _ => None,
    }
}

pub open spec fn bool_text(b: bool) -> Seq<char> {
    if b {
        seq!['t', 'r', 'u', 'e']
    } else {
        seq!['f', 'a', 'l', 's', 'e']
    }
}

/// The text of a value as the output word and `format` show it: a string
/// unquoted.
pub open spec fn render(v: Type) -> Seq<char> {
    match v {
        Type::Int(i) => int_text(i as int),
        Type::Float(f) => f@,
        Type::String(s) => s@,
        Type::Bool(b) => bool_text(b),
    }
}

/// The text of a value in a stack listing: a string in double quotes.
pub open spec fn render_listed(v: Type) -> Seq<char> {
    match v {
        Type::String(s) => seq!['"'] + s@ + seq!['"'],
        _ => render(v),
    }
}

impl Type {
    /// A copy of this value.
    pub fn copy(&self) -> (r: Type)
        ensures
            r == *self,
    {
        match self {
            Type::Int(i) => Type::Int(*i),
            Type::Float(f) => Type::Float(f.clone()),
            Type::String(s) => Type::String(s.clone()),
            Type::Bool(b) => Type::Bool(*b),
        }
    }

    /// The variant of this value.
    pub fn kind(&self) -> (r: Kind)
        ensures
            r == kind_of(*self),
    {
        match self {
            Type::Int(_) => Kind::Int,
            Type::Float(_) => Kind::Float,
            Type::String(_) => Kind::String,
            Type::Bool(_) => Kind::Bool,
        }
    }

    /// The text of this value as the output word shows it.
    pub fn render(&self) -> (r: String)
        ensures
            r@ == render(*self),
    {
        match self {
            Type::Int(i) => int_to_text(*i),
            Type::Float(f) => f.clone(),
            Type::String(s) => s.clone(),
            Type::Bool(b) => {
                if *b {
                    let r = String::from_str("true");
                    proof {
                        reveal_strlit("true");
                    }
                    r
                } else {
                    let r = String::from_str("false");
                    proof {
                        reveal_strlit("false");
                    }
                    r
                }
            },
        }
    }

    /// The text of this value in a stack listing.
    pub fn render_listed(&self) -> (r: String)
        ensures
            r@ == render_listed(*self),
    {
        match self {
            Type::String(s) => {
                let mut r = String::from_str("\"");
                r.append(s.as_str());
                r.append("\"");
                proof {
                    reveal_strlit("\"");
                    assert(r@ =~= render_listed(*self));
                }
                r
            },
            _ => self.render(),
        }
    }
}

} // verus!
