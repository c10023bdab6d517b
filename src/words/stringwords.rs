//! String words: `..`, `len`, `reverse`, `upper`, `lower` and `format`.
use super::{pop_str, pop_two_strs, take_str, take_two_strs, Native, Step};
use crate::interpreter::{Interpreter, Word};
use crate::text::{chars_of, push_char};
use crate::types::{render, Error, Type};
use vstd::prelude::*;
use vstd::string::*;

verus! {

/// What `str::to_uppercase` returns for a string.
pub uninterp spec fn upper_of(s: Seq<char>) -> Seq<char>;

/// What `str::to_lowercase` returns for a string.
pub uninterp spec fn lower_of(s: Seq<char>) -> Seq<char>;

/// Relies on `str::to_uppercase`: the result depends on the characters alone.
#[verifier::external_body]
fn to_upper(s: &str) -> (r: String)
    ensures
        r@ == upper_of(s@),
{
    s.to_uppercase()
}

/// Relies on `str::to_lowercase`: the result depends on the characters alone.
#[verifier::external_body]
fn to_lower(s: &str) -> (r: String)
    ensures
        r@ == lower_of(s@),
{
    s.to_lowercase()
}

/// `n` is `s` with one string pushed whose text is `t`.
pub open spec fn pushed_string(s: Seq<Type>, n: Seq<Type>, t: Seq<char>) -> bool {
    &&& n.len() == s.len() + 1
    &&& n.drop_last() == s
    &&& n.last() is String
    &&& n.last()->String_0@ == t
}

pub open spec fn reversed(s: Seq<char>) -> Seq<char> {
    Seq::new(s.len(), |i: int| s[s.len() - 1 - i])
}

/// The number of `$` placeholders in `f`.
pub open spec fn marks(f: Seq<char>) -> nat
    decreases f.len(),
{
    if f.len() == 0 {
        0
    } else {
        (if f[0] == '$' {
            1nat
        } else {
            0nat
        }) + marks(f.skip(1))
    }
}

/// `f` with its placeholders replaced, left to right, by the texts of `vals`.
pub open spec fn fill(f: Seq<char>, vals: Seq<Type>) -> Seq<char>
    decreases f.len(),
{
    if f.len() == 0 {
        seq![]
    } else if f[0] == '$' {
        render(vals[0]) + fill(f.skip(1), vals.skip(1))
    } else {
        seq![f[0]] + fill(f.skip(1), vals)
    }
}

/// A word that pops two strings and pushes a string computed from them.
pub open spec fn concat_post(s: Seq<Type>, n: Seq<Type>, r: Step) -> bool {
    let (s2, x) = pop_two_strs(s);
    match x {
        Err(e) => n == s2 && r == Step::Failed(e),
        Ok((a, b)) => r is Continue && pushed_string(s2, n, a@ + b@),
    }
}

/// `len` pushes the length in bytes of the UTF-8 encoding.
pub open spec fn len_post(s: Seq<Type>, n: Seq<Type>, r: Step) -> bool {
    let (s1, x) = pop_str(s);
    match x {
        Err(e) => n == s1 && r == Step::Failed(e),
        Ok(a) => r is Continue && n == s1.push(
            Type::Int((vstd::utf8::encode_utf8(a@).len() as usize) as i64),
        ),
    }
}

/// A word that maps one string to another.
#[derive(Clone, Copy, Debug, PartialEq, Eq, Structural)]
pub enum StrMap {
    Reverse,
    Upper,
    Lower,
}

pub open spec fn mapped(m: StrMap, t: Seq<char>) -> Seq<char> {
    match m {
        StrMap::Reverse => reversed(t),
        StrMap::Upper => upper_of(t),
        StrMap::Lower => lower_of(t),
    }
}

/// A word that pops one string and pushes its image under `m`.
pub open spec fn map_post(m: StrMap, s: Seq<Type>, n: Seq<Type>, r: Step) -> bool {
    let (s1, x) = pop_str(s);
    match x {
        Err(e) => n == s1 && r == Step::Failed(e),
        Ok(a) => r is Continue && pushed_string(s1, n, mapped(m, a@)),
    }
}

/// `format` pops a format string, then one value per placeholder, and pushes
/// the format with the values' texts in push order.
pub open spec fn format_post(s: Seq<Type>, n: Seq<Type>, r: Step) -> bool {
    let (s1, x) = pop_str(s);
    match x {
        Err(e) => n == s1 && r == Step::Failed(e),
        Ok(f) => {
            let k = marks(f@) as int;
            if s1.len() < k {
                n == Seq::<Type>::empty() && r == Step::Failed(Error::StackUnderflow)
            } else {
                r is Continue && pushed_string(
                    s1.take(s1.len() - k),
                    n,
                    fill(f@, s1.skip(s1.len() - k)),
                )
            }
        },
    }
}

pub fn concat(stack: &mut Vec<Type>) -> (r: Step)
    ensures
        concat_post(old(stack)@, final(stack)@, r),
{
    match take_two_strs(stack) {
        Ok((a, b)) => {
            let ghost s2 = stack@;
            let mut t = a;
            t.append(b.as_str());
            stack.push(Type::String(t));
            proof {
                assert(stack@.drop_last() =~= s2);
            }
            Step::Continue
        },
        Err(e) => Step::Failed(e),
    }
}

pub fn len(stack: &mut Vec<Type>) -> (r: Step)
    ensures
        len_post(old(stack)@, final(stack)@, r),
{
    match take_str(stack) {
        Ok(a) => {
            let n = a.as_str().len();
            stack.push(Type::Int(n as i64));
            Step::Continue
        },
        Err(e) => Step::Failed(e),
    }
}

/// `reverse`, `upper` or `lower`.
pub fn map_string(stack: &mut Vec<Type>, m: StrMap) -> (r: Step)
    ensures
        map_post(m, old(stack)@, final(stack)@, r),
{
    match take_str(stack) {
        Ok(a) => {
            let ghost s1 = stack@;
            let t = match m {
                StrMap::Reverse => reverse_text(&a),
                StrMap::Upper => to_upper(a.as_str()),
                StrMap::Lower => to_lower(a.as_str()),
            };
            stack.push(Type::String(t));
            proof {
                assert(stack@.drop_last() =~= s1);
            }
            Step::Continue
        },
        Err(e) => Step::Failed(e),
    }
}

fn reverse_text(a: &String) -> (r: String)
    ensures
        r@ == reversed(a@),
{
    let c = chars_of(a.as_str());
    let mut out = String::new();
    let mut i = c.len();
    while i > 0
        invariant
            i <= c@.len(),
            c@ == a@,
            out@ == reversed(a@).take(c@.len() - i),
        decreases i,
    {
        i = i - 1;
        push_char(&mut out, c[i]);
        proof {
            assert(out@ =~= reversed(a@).take(c@.len() - i));
        }
    }
    proof {
        assert(reversed(a@).take(c@.len() as int) =~= reversed(a@));
    }
    out
}

proof fn lemma_skip_step<A>(f: Seq<A>, i: int)
    requires
        0 <= i < f.len(),
    ensures
        f.skip(i)[0] == f[i],
        f.skip(i).skip(1) == f.skip(i + 1),
        f.skip(i).len() > 0,
{
    assert(f.skip(i).skip(1) =~= f.skip(i + 1));
}

fn count_marks(f: &Vec<char>) -> (r: usize)
    ensures
        r == marks(f@),
{
    let mut n: usize = 0;
    let mut i: usize = 0;
    proof {
        assert(f@.skip(0) =~= f@);
    }
    while i < f.len()
        invariant
            i <= f@.len(),
            n + marks(f@.skip(i as int)) == marks(f@),
            n <= i,
        decreases f@.len() - i,
    {
        proof {
            lemma_skip_step(f@, i as int);
        }
        if f[i] == '$' {
            n = n + 1;
        }
        i = i + 1;
    }
    proof {
        assert(f@.skip(i as int) =~= Seq::<char>::empty());
    }
    n
}

pub fn format(stack: &mut Vec<Type>) -> (r: Step)
    ensures
        format_post(old(stack)@, final(stack)@, r),
{
    let f = match take_str(stack) {
        Ok(f) => f,
        Err(e) => return Step::Failed(e),
    };
    let fc = chars_of(f.as_str());
    let k = count_marks(&fc);
    if stack.len() < k {
        stack.clear();
        return Step::Failed(Error::StackUnderflow);
    }
    let total = stack.len();
    let start = total - k;
    let ghost vals = stack@.skip(start as int);
    let mut out = String::new();
    let mut j = start;
    let mut i: usize = 0;
    proof {
        assert(fc@.skip(0) =~= fc@);
        assert(vals.skip(0) =~= vals);
    }
    while i < fc.len()
        invariant
            fc@ == f@,
            k == marks(f@),
            start + k == stack@.len(),
            stack@.len() == total,
            vals == stack@.skip(start as int),
            i <= fc@.len(),
            start <= j <= stack@.len(),
            (j - start) + marks(fc@.skip(i as int)) == k,
            out@ + fill(fc@.skip(i as int), vals.skip(j - start)) == fill(f@, vals),
        decreases fc@.len() - i,
    {
        proof {
            lemma_skip_step(fc@, i as int);
        }
        if fc[i] == '$' {
            assert(marks(fc@.skip(i as int)) == 1 + marks(fc@.skip(i + 1)));
            let t = stack[j].render();
            proof {
                assert(vals.skip(j - start)[0] == stack@[j as int]);
                assert(vals.skip(j - start).skip(1) =~= vals.skip(j + 1 - start));
                assert(out@ + t@ + fill(fc@.skip(i + 1), vals.skip(j + 1 - start)) =~= out@ + fill(fc@.skip(i as int), vals.skip(j - start)));
            }
            out.append(t.as_str());
            j = j + 1;
        } else {
            proof {
                assert(out@.push(fc@[i as int]) + fill(fc@.skip(i + 1), vals.skip(j - start)) =~= out@ + fill(fc@.skip(i as int), vals.skip(j - start)));
            }
            push_char(&mut out, fc[i]);
        }
        i = i + 1;
    }
    proof {
        assert(fc@.skip(i as int) =~= Seq::<char>::empty());
    }
    stack.truncate(start);
    stack.push(Type::String(out));
    proof {
        assert(stack@.drop_last() =~= old(stack)@.drop_last().take(start as int));
    }
    Step::Continue
}

pub fn register_string_words(interp: &mut Interpreter)
    requires
        old(interp).wf(),
    ensures
        final(interp).wf(),
        final(interp).same_but_dictionary(old(interp)),
        final(interp).dictionary@ == old(interp).dictionary@.insert(
            ".."@,
            Word::Native(Native::Concat),
        ).insert("len"@, Word::Native(Native::Len)).insert(
            "reverse"@,
            Word::Native(Native::Reverse),
        ).insert("upper"@, Word::Native(Native::Upper)).insert(
            "lower"@,
            Word::Native(Native::Lower),
        ).insert("format"@, Word::Native(Native::Format)),
{
    interp.define("..", Native::Concat);
    interp.define("len", Native::Len);
    interp.define("reverse", Native::Reverse);
    interp.define("upper", Native::Upper);
    interp.define("lower", Native::Lower);
    interp.define("format", Native::Format);
}

} // verus!
