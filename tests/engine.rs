use smorth::interpreter::Interpreter;
use smorth::types::{DefinitionError, Error, Expected, Kind, Num, Type};
use smorth::words::{ArithOp, CmpOp, Reply, Request, Step};

fn widen(n: &Num) -> f64 {
    match n {
        Num::Int(i) => *i as f64,
        Num::Float(s) => s.parse::<f64>().unwrap(),
    }
}

fn compute(q: &Request) -> Reply {
    match q {
        Request::Literal(t) => Reply::Float(t.parse::<f64>().unwrap().to_string()),
        Request::Arith(op, a, b) => {
            let (x, y) = (widen(a), widen(b));
            let v = match op {
                ArithOp::Add => x + y,
                ArithOp::Sub => x - y,
                ArithOp::Mul => x * y,
                ArithOp::Div => x / y,
            };
            Reply::Arith { value: v.to_string(), truncated: v as i64 }
        }
        Request::Sqrt(a) => Reply::Float(widen(a).sqrt().to_string()),
        Request::Compare(op, a, b) => {
            let (x, y) = (widen(a), widen(b));
            Reply::Truth(match op {
                CmpOp::Eq => x == y,
                CmpOp::Ne => x != y,
                CmpOp::Lt => x < y,
                CmpOp::Le => x <= y,
                CmpOp::Gt => x > y,
                CmpOp::Ge => x >= y,
            })
        }
    }
}

fn run(it: &mut Interpreter, text: &str) -> (Result<(), Error>, Vec<String>) {
    it.eval(text);
    let mut out = Vec::new();
    loop {
        match it.step() {
            Step::Continue => {}
            Step::Done => return (Ok(()), out),
            Step::Output(s) => out.push(s),
            Step::Compute(q) => it.resume(compute(&q)),
            Step::Failed(e) => return (Err(e), out),
        }
    }
}

fn eval(it: &mut Interpreter, text: &str) -> Result<(), Error> {
    run(it, text).0
}

fn stack_after(text: &str) -> Vec<Type> {
    let mut it = Interpreter::new();
    assert_eq!(eval(&mut it, text), Ok(()));
    it.stack
}

fn error_of(text: &str) -> Error {
    let mut it = Interpreter::new();
    eval(&mut it, text).unwrap_err()
}

fn float(s: &str) -> Type {
    Type::Float(s.to_string())
}

fn string(s: &str) -> Type {
    Type::String(s.to_string())
}

#[test]
fn int_plus_int_is_int() {
    assert_eq!(stack_after("1 1 +"), vec![Type::Int(2)]);
}

#[test]
fn int_plus_float_is_float() {
    assert_eq!(stack_after("1 1.0 +"), vec![float("2")]);
}

#[test]
fn float_plus_float_is_float() {
    assert_eq!(stack_after("1.0 1.0 +"), vec![float("2")]);
}

#[test]
fn subtraction_is_next_minus_top() {
    assert_eq!(stack_after("3 2 -"), vec![Type::Int(1)]);
}

#[test]
fn integer_division_truncates() {
    assert_eq!(stack_after("7 2 /"), vec![Type::Int(3)]);
    assert_eq!(stack_after("-7 2 /"), vec![Type::Int(-3)]);
}

#[test]
fn integer_division_by_zero_follows_float_path() {
    assert_eq!(stack_after("1 0 /"), vec![Type::Int(i64::MAX)]);
    assert_eq!(stack_after("-1 0 /"), vec![Type::Int(i64::MIN)]);
    assert_eq!(stack_after("0 0 /"), vec![Type::Int(0)]);
}

#[test]
fn mixed_multiplication_and_division() {
    assert_eq!(stack_after("1.5 2 *"), vec![float("3")]);
    assert_eq!(stack_after("1 4.0 /"), vec![float("0.25")]);
}

#[test]
fn sqrt_pushes_float() {
    assert_eq!(stack_after("4 sqrt"), vec![float("2")]);
    assert_eq!(stack_after("2.25 sqrt"), vec![float("1.5")]);
}

#[test]
fn sqrt_of_negative_is_nan() {
    assert_eq!(stack_after("-1 sqrt"), vec![float("NaN")]);
}

#[test]
fn float_literals_need_a_point() {
    assert_eq!(stack_after(".5 -1.50 2."), vec![float("0.5"), float("-1.5"), float("2")]);
    assert_eq!(stack_after("1.5e3"), vec![float("1500")]);
    assert_eq!(error_of("1e5"), Error::UnknownToken("1e5".to_string()));
}

#[test]
fn integer_literal_range() {
    assert_eq!(stack_after("-9223372036854775808 +7"), vec![Type::Int(i64::MIN), Type::Int(7)]);
    assert_eq!(
        error_of("9223372036854775808"),
        Error::UnknownToken("9223372036854775808".to_string())
    );
}

#[test]
fn arithmetic_type_mismatch() {
    assert_eq!(
        error_of("\"a\" 1 +"),
        Error::TypeMismatch { expected: Expected::Number, found: Kind::String }
    );
    assert_eq!(error_of("1 +"), Error::StackUnderflow);
}

#[test]
fn swap_exchanges_top_two() {
    assert_eq!(stack_after("1 2 swap"), vec![Type::Int(2), Type::Int(1)]);
}

#[test]
fn dup_duplicates_top() {
    assert_eq!(stack_after("1 dup"), vec![Type::Int(1), Type::Int(1)]);
}

#[test]
fn drop_discards_top() {
    assert_eq!(stack_after("1 drop"), Vec::<Type>::new());
}

#[test]
fn drop_on_empty_stack_underflows() {
    assert_eq!(error_of("drop"), Error::StackUnderflow);
    assert_eq!(error_of("dup"), Error::StackUnderflow);
    assert_eq!(error_of("1 swap"), Error::StackUnderflow);
}

#[test]
fn defined_word_runs_its_body() {
    assert_eq!(stack_after(": square dup * ; 5 square"), vec![Type::Int(25)]);
}

#[test]
fn redefinition_replaces_body() {
    let mut it = Interpreter::new();
    assert_eq!(eval(&mut it, ": square dup * ; 3 square"), Ok(()));
    assert_eq!(eval(&mut it, ": square dup + ; 3 square"), Ok(()));
    assert_eq!(it.stack, vec![Type::Int(9), Type::Int(6)]);
}

#[test]
fn close_without_open_is_definition_error() {
    assert_eq!(error_of(";"), Error::Definition(DefinitionError::NotDefining));
}

#[test]
fn nested_open_and_missing_name_are_definition_errors() {
    assert_eq!(error_of(": a : b ;"), Error::Definition(DefinitionError::AlreadyDefining));
    assert_eq!(error_of(": ;"), Error::Definition(DefinitionError::MissingName));
}

#[test]
fn forward_reference_fails_only_at_call() {
    let mut it = Interpreter::new();
    assert_eq!(eval(&mut it, ": a b 1 + ;"), Ok(()));
    assert_eq!(eval(&mut it, "a"), Err(Error::UnknownToken("b".to_string())));
    assert_eq!(eval(&mut it, ": b 41 ; a"), Ok(()));
    assert_eq!(it.stack, vec![Type::Int(42)]);
}

#[test]
fn definition_spans_eval_calls() {
    let mut it = Interpreter::new();
    assert_eq!(eval(&mut it, ": twice"), Ok(()));
    assert_eq!(eval(&mut it, "2 * ;"), Ok(()));
    assert_eq!(eval(&mut it, "21 twice"), Ok(()));
    assert_eq!(it.stack, vec![Type::Int(42)]);
}

#[test]
fn variables_store_and_load() {
    assert_eq!(stack_after("42 x! x@ x@ +"), vec![Type::Int(84)]);
}

#[test]
fn load_of_unbound_variable_fails() {
    assert_eq!(error_of("y@"), Error::UndefinedVariable("y".to_string()));
    assert_eq!(error_of("x!"), Error::StackUnderflow);
}

#[test]
fn equality_across_variants_is_false() {
    assert_eq!(stack_after("\"a\" 1 =="), vec![Type::Bool(false)]);
    assert_eq!(stack_after("\"a\" 1 !="), vec![Type::Bool(true)]);
}

#[test]
fn ordering_refuses_strings() {
    assert_eq!(
        error_of("\"a\" 1 <"),
        Error::TypeMismatch { expected: Expected::Number, found: Kind::String }
    );
}

#[test]
fn equality_compares_numbers_numerically() {
    assert_eq!(stack_after("1 1.0 =="), vec![Type::Bool(true)]);
    assert_eq!(stack_after("2 2 == \"x\" \"x\" == \"x\" \"y\" !="), vec![
        Type::Bool(true),
        Type::Bool(true),
        Type::Bool(true)
    ]);
}

#[test]
fn ordering_of_numbers() {
    assert_eq!(stack_after("1 2 < 2 2 <= 1.5 1 > 1 2 >="), vec![
        Type::Bool(true),
        Type::Bool(true),
        Type::Bool(true),
        Type::Bool(false)
    ]);
}

#[test]
fn boolean_logic() {
    assert_eq!(stack_after("1 1 == 1 2 == and"), vec![Type::Bool(false)]);
    assert_eq!(stack_after("1 1 == 1 2 == or"), vec![Type::Bool(true)]);
    assert_eq!(stack_after("1 2 == not"), vec![Type::Bool(true)]);
    assert_eq!(
        error_of("1 not"),
        Error::TypeMismatch { expected: Expected::Bool, found: Kind::Int }
    );
}

#[test]
fn format_substitutes_in_push_order() {
    assert_eq!(stack_after("1 2 \"$ plus $\"  format"), vec![string("1 plus 2")]);
}

#[test]
fn format_renders_each_variant() {
    assert_eq!(stack_after("\"x$\" 2.5 1 1 == \"[$|$|$]\" format"), vec![string("[x$|2.5|true]")]);
}

#[test]
fn format_without_enough_values_underflows() {
    assert_eq!(error_of("1 \"$ $\" format"), Error::StackUnderflow);
    assert_eq!(
        error_of("1 format"),
        Error::TypeMismatch { expected: Expected::String, found: Kind::Int }
    );
}

#[test]
fn string_words() {
    assert_eq!(stack_after("\"ab\" \"cd\" .."), vec![string("abcd")]);
    assert_eq!(stack_after("\"h\u{e9}llo\" len"), vec![Type::Int(6)]);
    assert_eq!(stack_after("\"abc\" reverse"), vec![string("cba")]);
    assert_eq!(stack_after("\"aBc\" upper"), vec![string("ABC")]);
    assert_eq!(stack_after("\"AbC\" lower"), vec![string("abc")]);
}

#[test]
fn string_words_refuse_other_variants() {
    assert_eq!(
        error_of("1 len"),
        Error::TypeMismatch { expected: Expected::String, found: Kind::Int }
    );
    assert_eq!(error_of("reverse"), Error::StackUnderflow);
}

#[test]
fn output_word_renders_unquoted() {
    let mut it = Interpreter::new();
    let (r, out) = run(&mut it, "1 . \"s\" . 2.5 . 1 1 == . -3 .");
    assert_eq!(r, Ok(()));
    assert_eq!(out, vec!["1", "s", "2.5", "true", "-3"]);
    assert_eq!(run(&mut it, ".").0, Err(Error::StackUnderflow));
}

#[test]
fn stack_listing_quotes_strings() {
    let mut it = Interpreter::new();
    assert_eq!(eval(&mut it, "1 \"a\" 1 1 == -2.5"), Ok(()));
    assert_eq!(it.show_stack(), "Stack: [1, \"a\", true, -2.5]");
    assert_eq!(Interpreter::new().show_stack(), "Stack: []");
}

#[test]
fn error_stops_the_rest_of_the_text() {
    let mut it = Interpreter::new();
    assert_eq!(eval(&mut it, "1 foo 2"), Err(Error::UnknownToken("foo".to_string())));
    assert_eq!(it.stack, vec![Type::Int(1)]);
    assert_eq!(it.step(), Step::Done);
}

#[test]
fn string_marker_token_pushes_string() {
    assert_eq!(stack_after("STR:ab \"\""), vec![string("ab"), string("")]);
}

#[test]
fn builtins_can_be_redefined() {
    assert_eq!(stack_after(": + - ; 5 3 +"), vec![Type::Int(2)]);
}

#[test]
fn nested_words_expand_depth_first() {
    assert_eq!(
        stack_after(": a 1 b 4 ; : b 2 3 ; a"),
        vec![Type::Int(1), Type::Int(2), Type::Int(3), Type::Int(4)]
    );
}

#[test]
fn step_reports_requests() {
    let mut it = Interpreter::new();
    it.eval("1 2 +");
    assert_eq!(it.step(), Step::Continue);
    assert_eq!(it.step(), Step::Continue);
    assert_eq!(it.step(), Step::Compute(Request::Arith(ArithOp::Add, Num::Int(1), Num::Int(2))));
    assert!(!it.ready());
    it.resume(Reply::Arith { value: "3".to_string(), truncated: 3 });
    assert!(it.ready());
    assert_eq!(it.step(), Step::Done);
    assert_eq!(it.stack, vec![Type::Int(3)]);
}

#[test]
fn pop_number_and_binary_op() {
    let mut it = Interpreter::new();
    it.stack.push(Type::Int(5));
    it.stack.push(float("1.5"));
    assert_eq!(it.pop_number(), Ok(Num::Float("1.5".to_string())));
    it.stack.push(Type::Int(2));
    assert_eq!(
        it.binary_op(ArithOp::Sub),
        Step::Compute(Request::Arith(ArithOp::Sub, Num::Int(5), Num::Int(2)))
    );
    assert_eq!(it.binary_op(ArithOp::Sub), Step::Failed(Error::StackUnderflow));
}
