//! The execution engine: the value stack, the dictionary of words, the
//! variable store and the definition state, driven one token at a time.
//!
//! Evaluation is a sequence of steps. `eval` queues the tokens of a text;
//! each `step` processes one token. Work on floats is not done here: a step
//! returns `Step::Compute` with a request, and the host hands the result
//! back through `resume` before the next step.
use crate::literal::{float_literal, int_literal, int_literal_of, is_float_literal};
use crate::table::Table;
use crate::text::{chars_of, push_char};
use crate::tokenizer::{str_marker, tokenize, tokens_of};
use crate::types::{render_listed, DefinitionError, Error, Num, Type};
use crate::words::stringwords::pushed_string;
use crate::words::math::arith_effect;
use crate::words::{
    apply_native, fits, native_post, pending_of, pop_num, register_comparison_words,
    register_io_words, register_logic_words, register_math_words, register_stack_words,
    register_string_words, ArithOp, Native, Pending, Reply, Request, Step,
};
use vstd::prelude::*;
use vstd::string::*;

verus! {

/// A dictionary entry.
pub enum Word {
    Native(Native),
    /// The tokens of a definition, replayed in order when the word is called.
    UserDefined(Vec<String>),
}

pub struct Interpreter {
    pub stack: Vec<Type>,
    pub dictionary: Table<Word>,
    pub variables: Table<Type>,
    /// Whether a definition is open.
    pub compiling: bool,
    /// The name of the open definition; empty until it is given.
    pub current_word_name: String,
    /// The body of the open definition so far.
    pub current_definition: Vec<String>,
    /// Top-level tokens not yet processed, the next one last.
    pub input: Vec<String>,
    /// Tokens of called words not yet processed, the next one last.
    pub expansion: Vec<String>,
    /// What the reply to an outstanding request is for.
    pub awaiting: Option<Pending>,
}

/// How the engine reads a token that is not a definition marker.
pub enum TokenKind {
    Str(Seq<char>),
    Store(Seq<char>),
    Load(Seq<char>),
    Float,
    Int(i64),
    Name,
}

/// The classification of a token, in order of precedence.
pub open spec fn token_kind(t: Seq<char>) -> TokenKind {
    if t.len() >= 4 && t.take(4) == str_marker() {
        TokenKind::Str(t.skip(4))
    } else if t.len() > 1 && t.last() == '!' {
        TokenKind::Store(t.drop_last())
    } else if t.len() > 1 && t.last() == '@' {
        TokenKind::Load(t.drop_last())
    } else if is_float_literal(t) {
        TokenKind::Float
    } else {
        match int_literal(t) {
            Some(v) => TokenKind::Int(v),
            None => TokenKind::Name,
        }
    }
}

pub open spec fn rev_tokens(b: Seq<String>) -> Seq<String> {
    Seq::new(b.len(), |i: int| b[b.len() - 1 - i])
}

/// The tokens that calling `t` queues: the body of a user-defined word, in
/// reverse so that its first token is processed next.
pub open spec fn expansion_of(dict: Map<Seq<char>, Word>, t: Seq<char>) -> Seq<String> {
    if token_kind(t) is Name && dict.contains_key(t) && dict[t] is UserDefined {
        rev_tokens(dict[t]->UserDefined_0@)
    } else {
        seq![]
    }
}

/// The value that a reply pushes.
pub open spec fn value_of(p: Pending, reply: Reply) -> Type {
    match reply {
        Reply::Float(s) => Type::Float(s),
        Reply::Arith { value, truncated } => if p matches Pending::Arith { both_int } && both_int {
            Type::Int(truncated)
        } else {
            Type::Float(value)
        },
        Reply::Truth(b) => Type::Bool(b),
    }
}

/// The awaited reply after a step with result `r`.
pub open spec fn awaiting_after(r: Step) -> Option<Pending> {
    match r {
        Step::Compute(q) => Some(pending_of(q)),
        _ => None,
    }
}

/// The entries of a stack listing, bottom first, separated by `, `.
pub open spec fn listing(s: Seq<Type>) -> Seq<char>
    decreases s.len(),
{
    if s.len() == 0 {
        seq![]
    } else if s.len() == 1 {
        render_listed(s[0])
    } else {
        listing(s.drop_last()) + seq![',', ' '] + render_listed(s.last())
    }
}

/// Processing the token `t` while no definition is open: its effect on the
/// stack, the variables and the awaited reply.
pub open spec fn token_effect(o: Interpreter, n: Interpreter, t: Seq<char>, r: Step) -> bool {
    &&& n.awaiting == awaiting_after(r)
    &&& match token_kind(t) {
        TokenKind::Str(body) => {
            &&& r is Continue
            &&& pushed_string(o.stack@, n.stack@, body)
            &&& n.variables == o.variables
        },
        TokenKind::Store(name) => if o.stack@.len() == 0 {
            &&& r == Step::Failed(Error::StackUnderflow)
            &&& n.stack@ == o.stack@
            &&& n.variables == o.variables
        } else {
            &&& r is Continue
            &&& n.stack@ == o.stack@.drop_last()
            &&& n.variables.wf()
            &&& n.variables@ == o.variables@.insert(name, o.stack@.last())
        },
        TokenKind::Load(name) => {
            &&& n.variables == o.variables
            &&& if o.variables@.contains_key(name) {
                r is Continue && n.stack@ == o.stack@.push(o.variables@[name])
            } else {
                &&& r is Failed
                &&& r->Failed_0 is UndefinedVariable
                &&& r->Failed_0->UndefinedVariable_0@ == name
                &&& n.stack@ == o.stack@
            }
        },
        TokenKind::Float => {
            &&& r is Compute
            &&& r->Compute_0 is Literal
            &&& r->Compute_0->Literal_0@ == t
            &&& n.stack@ == o.stack@
            &&& n.variables == o.variables
        },
        TokenKind::Int(v) => {
            &&& r is Continue
            &&& n.stack@ == o.stack@.push(Type::Int(v))
            &&& n.variables == o.variables
        },
        TokenKind::Name => {
            &&& n.variables == o.variables
            &&& if !o.dictionary@.contains_key(t) {
                &&& r is Failed
                &&& r->Failed_0 is UnknownToken
                &&& r->Failed_0->UnknownToken_0@ == t
                &&& n.stack@ == o.stack@
            } else {
                match o.dictionary@[t] {
                    Word::Native(op) => native_post(op, o.stack@, n.stack@, r),
                    Word::UserDefined(_) => r is Continue && n.stack@ == o.stack@,
                }
            }
        },
    }
}

/// Processing the top-level token `t`: the definition markers, the capture
/// of an open definition, and otherwise `token_effect`.
pub open spec fn top_effect(o: Interpreter, n: Interpreter, t: Seq<char>, r: Step) -> bool {
    if t == seq![':'] {
        &&& n.stack@ == o.stack@ && n.variables == o.variables && n.dictionary == o.dictionary
        &&& n.awaiting is None
        &&& n.current_word_name@.len() == 0 && n.current_definition@.len() == 0
        &&& if o.compiling {
            r == Step::Failed(Error::Definition(DefinitionError::AlreadyDefining)) && !n.compiling
        } else {
            r is Continue && n.compiling
        }
    } else if t == seq![';'] {
        &&& n.stack@ == o.stack@ && n.variables == o.variables
        &&& n.awaiting is None
        &&& if !o.compiling {
            &&& r == Step::Failed(Error::Definition(DefinitionError::NotDefining))
            &&& n.dictionary == o.dictionary
            &&& !n.compiling
            &&& n.current_word_name == o.current_word_name
            &&& n.current_definition == o.current_definition
        } else {
            &&& !n.compiling
            &&& n.current_word_name@.len() == 0 && n.current_definition@.len() == 0
            &&& if o.current_word_name@.len() == 0 {
                r == Step::Failed(Error::Definition(DefinitionError::MissingName))
                    && n.dictionary == o.dictionary
            } else {
                &&& r is Continue
                &&& n.dictionary@ == o.dictionary@.insert(
                    o.current_word_name@,
                    Word::UserDefined(o.current_definition),
                )
            }
        }
    } else if o.compiling {
        &&& r is Continue
        &&& n.stack@ == o.stack@ && n.variables == o.variables && n.dictionary == o.dictionary
        &&& n.awaiting is None
        &&& n.compiling
        &&& if o.current_word_name@.len() == 0 {
            n.current_word_name@ == t && n.current_definition == o.current_definition
        } else {
            &&& n.current_word_name == o.current_word_name
            &&& n.current_definition@.len() == o.current_definition@.len() + 1
            &&& n.current_definition@.drop_last() == o.current_definition@
            &&& n.current_definition@.last()@ == t
        }
    } else {
        &&& n.dictionary == o.dictionary
        &&& n.compiling == o.compiling
        &&& n.current_word_name == o.current_word_name
        &&& n.current_definition == o.current_definition
        &&& token_effect(o, n, t, r)
    }
}

/// Whether a top-level token `t` is dispatched as a word (no definition is
/// open and it is no definition marker).
pub open spec fn dispatched(o: Interpreter, t: Seq<char>) -> bool {
    t != seq![':'] && t != seq![';'] && !o.compiling
}

/// One step of evaluation.
pub open spec fn step_post(o: Interpreter, n: Interpreter, r: Step) -> bool {
    if o.expansion@.len() > 0 {
        let t = o.expansion@.last()@;
        &&& n.dictionary == o.dictionary
        &&& n.compiling == o.compiling
        &&& n.current_word_name == o.current_word_name
        &&& n.current_definition == o.current_definition
        &&& token_effect(o, n, t, r)
        &&& if r is Failed {
            n.input@.len() == 0 && n.expansion@.len() == 0
        } else {
            n.input == o.input && n.expansion@ == o.expansion@.drop_last() + expansion_of(
                o.dictionary@,
                t,
            )
        }
    } else if o.input@.len() > 0 {
        let t = o.input@.last()@;
        &&& top_effect(o, n, t, r)
        &&& if r is Failed {
            n.input@.len() == 0 && n.expansion@.len() == 0
        } else {
            &&& n.input@ == o.input@.drop_last()
            &&& n.expansion@ == if dispatched(o, t) {
                expansion_of(o.dictionary@, t)
            } else {
                seq![]
            }
        }
    } else {
        r is Done && n == o
    }
}

/// The dictionary that an engine starts with.
pub open spec fn builtin_words() -> Map<Seq<char>, Word> {
    Map::<Seq<char>, Word>::empty().insert("+"@, Word::Native(Native::Add)).insert(
        "-"@,
        Word::Native(Native::Sub),
    ).insert("*"@, Word::Native(Native::Mul)).insert("/"@, Word::Native(Native::Div)).insert(
        "sqrt"@,
        Word::Native(Native::Sqrt),
    ).insert("dup"@, Word::Native(Native::Dup)).insert("swap"@, Word::Native(Native::Swap)).insert(
        "drop"@,
        Word::Native(Native::Drop),
    ).insert("=="@, Word::Native(Native::Eq)).insert("!="@, Word::Native(Native::Ne)).insert(
        "<"@,
        Word::Native(Native::Lt),
    ).insert("<="@, Word::Native(Native::Le)).insert(">"@, Word::Native(Native::Gt)).insert(
        ">="@,
        Word::Native(Native::Ge),
    ).insert("and"@, Word::Native(Native::And)).insert("or"@, Word::Native(Native::Or)).insert(
        "not"@,
        Word::Native(Native::Not),
    ).insert(".."@, Word::Native(Native::Concat)).insert("len"@, Word::Native(Native::Len)).insert(
        "reverse"@,
        Word::Native(Native::Reverse),
    ).insert("upper"@, Word::Native(Native::Upper)).insert(
        "lower"@,
        Word::Native(Native::Lower),
    ).insert("format"@, Word::Native(Native::Format)).insert("."@, Word::Native(Native::Print))
}

/// While a definition is open, every top-level token but the two markers is
/// captured, and none is looked up in the dictionary: a body may name
/// words that are not defined yet.
pub proof fn lemma_capture_accepts_any_token(o: Interpreter, n: Interpreter, t: Seq<char>, r: Step)
    requires
        o.compiling,
        t != seq![':'],
        t != seq![';'],
        top_effect(o, n, t, r),
    ensures
        r is Continue,
        n.compiling,
        n.dictionary == o.dictionary,
        n.stack@ == o.stack@,
{
}

/// Closing a definition binds its name to its body, replacing any earlier
/// entry of that name.
pub proof fn lemma_definition_replaces(o: Interpreter, n: Interpreter, r: Step)
    requires
        o.compiling,
        o.current_word_name@.len() > 0,
        top_effect(o, n, seq![';'], r),
    ensures
        r is Continue,
        !n.compiling,
        n.dictionary@[o.current_word_name@] == Word::UserDefined(o.current_definition),
        forall|k: Seq<char>|
            k != o.current_word_name@ ==> #[trigger] n.dictionary@.contains_key(k)
                == o.dictionary@.contains_key(k),
{
    assert(seq![';'] != seq![':']) by {
        assert(seq![';'][0] != seq![':'][0]);
    }
}

fn copy_tokens(v: &Vec<String>) -> (r: Vec<String>)
    ensures
        r@ == v@,
{
    let mut r: Vec<String> = Vec::new();
    let mut i: usize = 0;
    while i < v.len()
        invariant
            i <= v@.len(),
            r@ == v@.take(i as int),
        decreases v@.len() - i,
    {
        r.push(v[i].clone());
        i = i + 1;
        proof {
            assert(r@ =~= v@.take(i as int));
        }
    }
    proof {
        assert(v@.take(i as int) =~= v@);
    }
    r
}

fn text_of(c: &Vec<char>, from: usize, to: usize) -> (r: String)
    requires
        from <= to <= c@.len(),
    ensures
        r@ == c@.subrange(from as int, to as int),
{
    let mut r = String::new();
    let mut i = from;
    while i < to
        invariant
            from <= i <= to,
            to <= c@.len(),
            r@ == c@.subrange(from as int, i as int),
        decreases to - i,
    {
        push_char(&mut r, c[i]);
        i = i + 1;
        proof {
            assert(r@ =~= c@.subrange(from as int, i as int));
        }
    }
    r
}

fn is_single(t: &String, c: char) -> (r: bool)
    ensures
        r == (t@ == seq![c]),
{
    let n = t.as_str().unicode_len();
    if n != 1 {
        proof {
            assert(t@.len() != 1);
        }
        return false;
    }
    let d = t.as_str().get_char(0);
    proof {
        if d == c {
            assert(t@ =~= seq![c]);
        }
    }
    d == c
}

impl Interpreter {
    pub open spec fn wf(&self) -> bool {
        self.dictionary.wf() && self.variables.wf()
    }

    /// All but the dictionary are as in `o`.
    pub open spec fn same_but_dictionary(&self, o: &Interpreter) -> bool {
        &&& self.stack == o.stack
        &&& self.variables == o.variables
        &&& self.compiling == o.compiling
        &&& self.current_word_name == o.current_word_name
        &&& self.current_definition == o.current_definition
        &&& self.input == o.input
        &&& self.expansion == o.expansion
        &&& self.awaiting == o.awaiting
    }

    /// Binds `name` to a built-in word.
    pub fn define(&mut self, name: &str, op: Native)
        requires
            old(self).wf(),
        ensures
            final(self).wf(),
            final(self).same_but_dictionary(old(self)),
            final(self).dictionary@ == old(self).dictionary@.insert(name@, Word::Native(op)),
    {
        self.dictionary.insert(String::from_str(name), Word::Native(op));
    }

    /// An engine with an empty stack and variable store, no open definition,
    /// and the built-in words in its dictionary.
    pub fn new() -> (r: Interpreter)
        ensures
            r.wf(),
            r.stack@.len() == 0,
            r.variables@ == Map::<Seq<char>, Type>::empty(),
            !r.compiling,
            r.current_word_name@.len() == 0,
            r.current_definition@.len() == 0,
            r.input@.len() == 0,
            r.expansion@.len() == 0,
            r.awaiting is None,
            r.dictionary@ == builtin_words(),
    {
        let mut interp = Interpreter {
            stack: Vec::new(),
            dictionary: Table::new(),
            variables: Table::new(),
            compiling: false,
            current_word_name: String::new(),
            current_definition: Vec::new(),
            input: Vec::new(),
            expansion: Vec::new(),
            awaiting: None,
        };
        register_math_words(&mut interp);
        register_stack_words(&mut interp);
        register_comparison_words(&mut interp);
        register_logic_words(&mut interp);
        register_string_words(&mut interp);
        register_io_words(&mut interp);
        interp
    }

    /// Pops a number from the stack.
    pub fn pop_number(&mut self) -> (r: Result<Num, Error>)
        ensures
            (final(self).stack@, r) == pop_num(old(self).stack@),
            final(self).variables == old(self).variables,
            final(self).dictionary == old(self).dictionary,
            final(self).awaiting == old(self).awaiting,
    {
        crate::words::take_num(&mut self.stack)
    }

    /// Pops two numbers and asks for `op(next, top)`; the reply pushes an
    /// integer when both operands were integers, else a float.
    pub fn binary_op(&mut self, op: ArithOp) -> (r: Step)
        ensures
            (final(self).stack@, r) == arith_effect(op, old(self).stack@),
            final(self).awaiting == awaiting_after(r),
            final(self).variables == old(self).variables,
            final(self).dictionary == old(self).dictionary,
    {
        let r = crate::words::math::arith(&mut self.stack, op);
        self.awaiting = match &r {
            Step::Compute(q) => Some(q.pending()),
            _ => None,
        };
        r
    }

    /// Starts evaluating `input`: its tokens are queued for `step`, in place
    /// of anything left from an earlier text.
    pub fn eval(&mut self, input: &str)
        requires
            old(self).wf(),
        ensures
            final(self).wf(),
            final(self).input@.map_values(|t: String| t@) == tokens_of(input@).reverse(),
            final(self).expansion@.len() == 0,
            final(self).awaiting is None,
            final(self).stack == old(self).stack,
            final(self).variables == old(self).variables,
            final(self).dictionary == old(self).dictionary,
            final(self).compiling == old(self).compiling,
            final(self).current_word_name == old(self).current_word_name,
            final(self).current_definition == old(self).current_definition,
    {
        let mut tokens = tokenize(input);
        let ghost all = tokens@;
        let mut queue: Vec<String> = Vec::new();
        while tokens.len() > 0
            invariant
                all.map_values(|t: String| t@) == tokens_of(input@),
                tokens@.len() <= all.len(),
                tokens@ == all.take(tokens@.len() as int),
                queue@ == rev_tokens(all).take(all.len() - tokens@.len()),
            decreases tokens@.len(),
        {
            let ghost before = tokens@;
            let t = tokens.pop().unwrap();
            proof {
                assert(t == all[tokens@.len() as int]);
            }
            queue.push(t);
            proof {
                assert(queue@ =~= rev_tokens(all).take(all.len() - tokens@.len()));
                assert(tokens@ =~= all.take(tokens@.len() as int));
            }
        }
        proof {
            assert(queue@ =~= rev_tokens(all));
            assert(queue@.map_values(|t: String| t@) =~= tokens_of(input@).reverse());
        }
        self.input = queue;
        self.expansion = Vec::new();
        self.awaiting = None;
    }

    /// Hands back the result of the outstanding request; the value it stands
    /// for is pushed.
    pub fn resume(&mut self, reply: Reply)
        requires
            old(self).awaiting matches Some(p) && fits(p, reply),
        ensures
            final(self).stack@ == old(self).stack@.push(
                value_of(old(self).awaiting->Some_0, reply),
            ),
            final(self).awaiting is None,
            final(self).variables == old(self).variables,
            final(self).dictionary == old(self).dictionary,
            final(self).compiling == old(self).compiling,
            final(self).current_word_name == old(self).current_word_name,
            final(self).current_definition == old(self).current_definition,
            final(self).input == old(self).input,
            final(self).expansion == old(self).expansion,
    {
        let p = match self.awaiting {
            Some(p) => p,
            None => Pending::Float,
        };
        let v = match reply {
            Reply::Float(s) => Type::Float(s),
            Reply::Arith { value, truncated } => {
                if matches!(p, Pending::Arith { both_int: true }) {
                    Type::Int(truncated)
                } else {
                    Type::Float(value)
                }
            },
            Reply::Truth(b) => Type::Bool(b),
        };
        self.stack.push(v);
        self.awaiting = None;
    }

    /// Whether a step may be taken: no request is outstanding.
    pub fn ready(&self) -> (r: bool)
        ensures
            r == (self.awaiting is None),
    {
        self.awaiting.is_none()
    }

    /// Processes one token while no definition is open.
    fn eval_token(&mut self, token: &String) -> (r: Step)
        requires
            old(self).wf(),
        ensures
            final(self).wf(),
            token_effect(*old(self), *final(self), token@, r),
            final(self).dictionary == old(self).dictionary,
            final(self).compiling == old(self).compiling,
            final(self).current_word_name == old(self).current_word_name,
            final(self).current_definition == old(self).current_definition,
            final(self).input == old(self).input,
            final(self).expansion@ == old(self).expansion@ + expansion_of(
                old(self).dictionary@,
                token@,
            ),
    {
        let c = chars_of(token.as_str());
        let n = c.len();
        let ghost t = token@;
        let ghost o = *old(self);
        self.awaiting = None;
        let marked = n >= 4 && c[0] == 'S' && c[1] == 'T' && c[2] == 'R' && c[3] == ':';
        proof {
            if t.len() >= 4 {
                assert(marked == (t.take(4) =~= str_marker()));
            }
        }
        if marked {
            let s = text_of(&c, 4, n);
            proof {
                assert(s@ =~= t.skip(4));
            }
            self.stack.push(Type::String(s));
            proof {
                assert(self.stack@.drop_last() =~= o.stack@);
                assert(self.expansion@ =~= o.expansion@ + expansion_of(o.dictionary@, t));
            }
            return Step::Continue;
        }
        if n > 1 && c[n - 1] == '!' {
            let name = text_of(&c, 0, n - 1);
            proof {
                assert(name@ =~= t.drop_last());
                assert(self.expansion@ =~= o.expansion@ + expansion_of(o.dictionary@, t));
            }
            return match self.stack.pop() {
                Some(v) => {
                    self.variables.insert(name, v);
                    Step::Continue
                },
                None => Step::Failed(Error::StackUnderflow),
            };
        }
        if n > 1 && c[n - 1] == '@' {
            let name = text_of(&c, 0, n - 1);
            proof {
                assert(name@ =~= t.drop_last());
                assert(self.expansion@ =~= o.expansion@ + expansion_of(o.dictionary@, t));
            }
            return match self.variables.find(&name) {
                Some(j) => {
                    let v = self.variables.entries[j].copy();
                    self.stack.push(v);
                    Step::Continue
                },
                None => Step::Failed(Error::UndefinedVariable(name)),
            };
        }
        if float_literal(&c) {
            let q = Request::Literal(token.clone());
            self.awaiting = Some(Pending::Float);
            proof {
                assert(self.expansion@ =~= o.expansion@ + expansion_of(o.dictionary@, t));
            }
            return Step::Compute(q);
        }
        match int_literal_of(&c) {
            Some(v) => {
                self.stack.push(Type::Int(v));
                proof {
                    assert(self.expansion@ =~= o.expansion@ + expansion_of(o.dictionary@, t));
                }
                return Step::Continue;
            },
            None => {},
        }
        assert(token_kind(t) is Name);
        match self.dictionary.find(token) {
            None => {
                proof {
                    assert(self.expansion@ =~= o.expansion@ + expansion_of(o.dictionary@, t));
                }
                Step::Failed(Error::UnknownToken(token.clone()))
            },
            Some(j) => {
                let body = match &self.dictionary.entries[j] {
                    Word::Native(op) => {
                        let op = *op;
                        let r = apply_native(&mut self.stack, op);
                        self.awaiting = match &r {
                            Step::Compute(q) => Some(q.pending()),
                            _ => None,
                        };
                        proof {
                            assert(self.expansion@ =~= o.expansion@ + expansion_of(o.dictionary@, t));
                        }
                        return r;
                    },
                    Word::UserDefined(body) => copy_tokens(body),
                };
                let mut i = body.len();
                while i > 0
                    invariant
                        i <= body@.len(),
                        self.wf(),
                        self.stack == o.stack,
                        self.variables == o.variables,
                        self.dictionary == o.dictionary,
                        self.compiling == o.compiling,
                        self.current_word_name == o.current_word_name,
                        self.current_definition == o.current_definition,
                        self.input == o.input,
                        self.awaiting is None,
                        self.expansion@ == o.expansion@ + rev_tokens(body@).take(body@.len() - i),
                    decreases i,
                {
                    i = i - 1;
                    self.expansion.push(body[i].clone());
                    proof {
                        assert(self.expansion@ =~= o.expansion@ + rev_tokens(body@).take(body@.len() - i));
                    }
                }
                proof {
                    assert(rev_tokens(body@).take(body@.len() as int) =~= rev_tokens(body@));
                }
                Step::Continue
            },
        }
    }

    /// Processes one top-level token: the definition markers, the capture of
    /// an open definition, or else the token itself.
    fn handle(&mut self, token: String) -> (r: Step)
        requires
            old(self).wf(),
        ensures
            final(self).wf(),
            top_effect(*old(self), *final(self), token@, r),
            final(self).input == old(self).input,
            final(self).expansion@ == old(self).expansion@ + if dispatched(*old(self), token@) {
                expansion_of(old(self).dictionary@, token@)
            } else {
                seq![]
            },
    {
        if is_single(&token, ':') {
            let was = self.compiling;
            self.compiling = !was;
            self.current_word_name = String::new();
            self.current_definition = Vec::new();
            self.awaiting = None;
            proof {
                assert(self.expansion@ =~= old(self).expansion@ + seq![]);
            }
            if was {
                return Step::Failed(Error::Definition(DefinitionError::AlreadyDefining));
            }
            return Step::Continue;
        }
        if is_single(&token, ';') {
            self.awaiting = None;
            proof {
                assert(self.expansion@ =~= old(self).expansion@ + seq![]);
            }
            if !self.compiling {
                return Step::Failed(Error::Definition(DefinitionError::NotDefining));
            }
            let mut name = String::new();
            core::mem::swap(&mut name, &mut self.current_word_name);
            let mut def: Vec<String> = Vec::new();
            core::mem::swap(&mut def, &mut self.current_definition);
            self.compiling = false;
            if name.as_str().unicode_len() == 0 {
                return Step::Failed(Error::Definition(DefinitionError::MissingName));
            }
            self.dictionary.insert(name, Word::UserDefined(def));
            return Step::Continue;
        }
        if self.compiling {
            self.awaiting = None;
            proof {
                assert(self.expansion@ =~= old(self).expansion@ + seq![]);
            }
            if self.current_word_name.as_str().unicode_len() == 0 {
                self.current_word_name = token;
            } else {
                self.current_definition.push(token);
                proof {
                    assert(self.current_definition@.drop_last() =~= old(self).current_definition@);
                }
            }
            return Step::Continue;
        }
        self.eval_token(&token)
    }

    /// Takes one step of evaluation: the next token of a called word if any,
    /// else the next top-level token. An error drops every queued token.
    pub fn step(&mut self) -> (r: Step)
        requires
            old(self).wf(),
            old(self).awaiting is None,
        ensures
            final(self).wf(),
            step_post(*old(self), *final(self), r),
    {
        if self.expansion.len() > 0 {
            let t = self.expansion.pop().unwrap();
            let r = self.eval_token(&t);
            if matches!(r, Step::Failed(_)) {
                self.input.clear();
                self.expansion.clear();
            }
            r
        } else if self.input.len() > 0 {
            let t = self.input.pop().unwrap();
            let r = self.handle(t);
            if matches!(r, Step::Failed(_)) {
                self.input.clear();
                self.expansion.clear();
            } else {
                proof {
                    assert(self.expansion@ =~= if dispatched(*old(self), old(self).input@.last()@) {
                        expansion_of(old(self).dictionary@, old(self).input@.last()@)
                    } else {
                        seq![]
                    });
                }
            }
            r
        } else {
            Step::Done
        }
    }

    /// The stack as a listing, bottom first: `Stack: [1, "a", true]`.
    pub fn show_stack(&self) -> (r: String)
        ensures
            r@ == seq!['S', 't', 'a', 'c', 'k', ':', ' ', '['] + listing(self.stack@) + seq![']'],
    {
        let mut out = String::from_str("Stack: [");
        proof {
            reveal_strlit("Stack: [");
            assert(self.stack@.take(0) =~= Seq::<Type>::empty());
            assert(out@ =~= seq!['S', 't', 'a', 'c', 'k', ':', ' ', '['] + listing(self.stack@.take(0)));
        }
        let mut i: usize = 0;
        while i < self.stack.len()
            invariant
                i <= self.stack@.len(),
                out@ == seq!['S', 't', 'a', 'c', 'k', ':', ' ', '['] + listing(self.stack@.take(i as int)),
            decreases self.stack@.len() - i,
        {
            let ghost prev = out@;
            if i > 0 {
                out.append(", ");
                proof {
                    reveal_strlit(", ");
                }
            }
            let t = self.stack[i].render_listed();
            out.append(t.as_str());
            proof {
                assert(self.stack@.take(i + 1).drop_last() =~= self.stack@.take(i as int));
                if i > 0 {
                    assert(out@ =~= prev + seq![',', ' '] + render_listed(self.stack@[i as int]));
                } else {
                    assert(out@ =~= prev + render_listed(self.stack@[i as int]));
                }
            }
            i = i + 1;
        }
        out.append("]");
        proof {
            reveal_strlit("]");
            assert(self.stack@.take(i as int) =~= self.stack@);
        }
        out
    }
}

} // verus!