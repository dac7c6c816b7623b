use nlisp::atom::{Atom, Closure, UpvalueRef, VmError, SCALE};
use nlisp::parser::{parse, ParseError};
use nlisp::primitives::call_native;
use nlisp::vm::NlispVm;

fn sym(s: &str) -> Atom {
    Atom::Symbol(s.to_string())
}

fn num(n: i64) -> Atom {
    Atom::Number(n * SCALE)
}

fn root() -> Closure {
    Closure::compile_thin(Vec::new())
}

/// Evaluates each top-level list of `text` in order; returns the last result.
fn run(vm: &mut NlispVm, text: &str) -> Result<Atom, VmError> {
    let forms = parse(text).expect("the text parses");
    let context = root();
    let mut last = Ok(Atom::Nil);
    for form in forms.iter() {
        last = match form {
            Atom::List(l) => vm.evaluate(&context, l.as_slice()),
            other => Ok(other.duplicate()),
        };
    }
    last
}

fn eval_str(text: &str) -> Result<Atom, VmError> {
    let mut vm = NlispVm::new();
    run(&mut vm, text)
}

#[test]
fn parse_simple_call() {
    let r = parse("(+ 1 2)").unwrap();
    assert_eq!(r, vec![Atom::List(vec![sym("+"), num(1), num(2)])]);
}

#[test]
fn parse_unterminated_string() {
    assert_eq!(parse("\"abc").unwrap_err(), ParseError::IncompleteString);
}

#[test]
fn parse_unterminated_list() {
    assert_eq!(parse("(a b").unwrap_err(), ParseError::IncompleteList);
}

#[test]
fn parse_nested_lists() {
    let r = parse("(a (b (c)) d)").unwrap();
    assert_eq!(r.len(), 1);
    match &r[0] {
        Atom::List(items) => {
            assert_eq!(items.len(), 3);
            assert_eq!(items[1], Atom::List(vec![sym("b"), Atom::List(vec![sym("c")])]));
            assert_eq!(items[2], sym("d"));
        }
        other => panic!("expected a list, got {:?}", other),
    }
}

#[test]
fn parse_strings_and_whitespace() {
    let r = parse("\"a (b\" x\ty\n").unwrap();
    assert_eq!(
        r,
        vec![Atom::String("a (b".to_string()), sym("x"), sym("y")]
    );
}

#[test]
fn parse_list_holding_string_with_paren() {
    let r = parse("(f \")\")").unwrap();
    assert_eq!(r, vec![Atom::List(vec![sym("f"), Atom::String(")".to_string())])]);
}

#[test]
fn parse_fractions_in_fixed_point() {
    let r = parse("0.5 .25 3.14159265 7.").unwrap();
    assert_eq!(
        r,
        vec![
            Atom::Number(500_000),
            Atom::Number(250_000),
            Atom::Number(3_141_592),
            Atom::Number(7_000_000)
        ]
    );
}

#[test]
fn parse_invalid_character() {
    assert_eq!(parse("a)").unwrap_err(), ParseError::InvalidCharacter(1));
    assert_eq!(parse("12x").unwrap_err(), ParseError::InvalidCharacter(2));
}

#[test]
fn parse_bad_numbers() {
    assert_eq!(parse("1.2.3 x").unwrap_err(), ParseError::NumberError(5));
    assert_eq!(parse(".").unwrap_err(), ParseError::NumberError(1));
    assert_eq!(parse("99999999999999").unwrap_err(), ParseError::NumberError(14));
}

#[test]
fn parse_empty_text() {
    assert_eq!(parse("").unwrap(), Vec::<Atom>::new());
    assert_eq!(parse("  \n ").unwrap(), Vec::<Atom>::new());
}

#[test]
fn compile_without_names_is_thin() {
    let code = vec![sym("a"), Atom::List(vec![sym("b"), num(1)])];
    let c = Closure::compile(vec![sym("a"), Atom::List(vec![sym("b"), num(1)])], &Vec::new());
    assert!(c.upvalues.is_none());
    assert_eq!(c.code, code);
}

#[test]
fn compile_replaces_named_symbol() {
    let names = vec!["a".to_string(), "b".to_string()];
    let c = Closure::compile(vec![sym("a")], &names);
    assert_eq!(c.code, vec![Atom::Upvalue(UpvalueRef(0, "a".to_string()))]);
    assert_eq!(c.upvalues, Some(vec![sym("a"), sym("b")]));
}

#[test]
fn compile_rewrites_nested_and_quoted_lists() {
    let names = vec!["x".to_string()];
    let c = Closure::compile(
        vec![sym("quote"), Atom::List(vec![sym("x"), sym("y")])],
        &names,
    );
    assert_eq!(
        c.code,
        vec![
            sym("quote"),
            Atom::List(vec![Atom::Upvalue(UpvalueRef(0, "x".to_string())), sym("y")])
        ]
    );
}

#[test]
fn resolve_reads_slots() {
    let names = vec!["a".to_string()];
    let c = Closure::compile(vec![sym("a")], &names);
    assert_eq!(c.resolve(Atom::Upvalue(UpvalueRef(0, "a".to_string()))), sym("a"));
    assert_eq!(c.resolve(Atom::Upvalue(UpvalueRef(3, "z".to_string()))), Atom::Nil);
    assert_eq!(c.resolve(num(4)), num(4));
    assert_eq!(root().resolve_ref(&UpvalueRef(0, "a".to_string())), Atom::Nil);
}

#[test]
fn if_selects_else_branch() {
    assert_eq!(eval_str("(if false 1 2)"), Ok(num(2)));
}

#[test]
fn if_without_else_gives_nil() {
    assert_eq!(eval_str("(if nil 1)"), Ok(Atom::Nil));
    assert_eq!(eval_str("(if true 1 2)"), Ok(num(1)));
}

#[test]
fn global_binds_value() {
    let mut vm = NlispVm::new();
    assert_eq!(run(&mut vm, "(global x 5)"), Ok(Atom::Nil));
    assert_eq!(vm.resolve(&"x".to_string()), Some(num(5)));
    assert_eq!(run(&mut vm, "(resolve x)"), Ok(Atom::List(vec![num(5)])));
}

#[test]
fn eq_compares_all_to_first() {
    assert_eq!(eval_str("(= 1 1 1)"), Ok(Atom::Bool(true)));
    assert_eq!(eval_str("(= 1 2)"), Ok(Atom::Bool(false)));
    assert_eq!(eval_str("(=)"), Ok(Atom::Bool(true)));
    assert_eq!(eval_str("(= + *)"), Ok(Atom::Bool(true)));
}

#[test]
fn sum_coerces_non_numbers() {
    assert_eq!(eval_str("(+ 1 \"x\")"), Ok(num(1)));
    assert_eq!(eval_str("(+)"), Ok(num(0)));
    assert_eq!(eval_str("(+ 0.5 (+ 1 2))"), Ok(Atom::Number(3_500_000)));
}

#[test]
fn product_seeds_with_zero() {
    assert_eq!(eval_str("(* 2 3)"), Ok(num(0)));
    assert_eq!(eval_str("(*)"), Ok(num(0)));
}

#[test]
fn neg_negates_numbers_only() {
    assert_eq!(eval_str("(neg 3)"), Ok(num(-3)));
    assert_eq!(eval_str("(neg \"s\")"), Ok(Atom::String("s".to_string())));
    assert_eq!(eval_str("(neg)"), Ok(Atom::Nil));
}

#[test]
fn quote_keeps_params() {
    assert_eq!(
        eval_str("(quote a (b 1))"),
        Ok(Atom::List(vec![sym("a"), Atom::List(vec![sym("b"), num(1)])]))
    );
}

#[test]
fn type_names_kinds() {
    assert_eq!(
        eval_str("(type 1 \"s\" pi if unbound)"),
        Ok(Atom::List(vec![
            Atom::String("Number".to_string()),
            Atom::String("String".to_string()),
            Atom::String("Number".to_string()),
            Atom::String("NativeFunction".to_string()),
            Atom::String("Symbol".to_string()),
        ]))
    );
}

#[test]
fn eval_reifies_errors() {
    assert_eq!(
        eval_str("(eval (+ 1 2) () (1))"),
        Ok(Atom::List(vec![
            num(3),
            Atom::Error(VmError::NonEvaluable),
            Atom::Error(VmError::NotAFunction),
        ]))
    );
    assert_eq!(eval_str("(eval 1)"), Err(VmError::InvalidUsage));
}

#[test]
fn error_kinds() {
    assert_eq!(eval_str("()"), Err(VmError::NonEvaluable));
    assert_eq!(eval_str("(1 2)"), Err(VmError::NotAFunction));
    assert_eq!(eval_str("(undefined 2)"), Err(VmError::NotAFunction));
    assert_eq!(eval_str("(lambda 1 (x))"), Err(VmError::InvalidUsage));
    assert_eq!(eval_str("(lambda (1) (x))"), Err(VmError::InvalidUsage));
    assert_eq!(eval_str("(global 1 2)"), Err(VmError::NotASymbol));
    assert_eq!(eval_str("(global x)"), Err(VmError::InvalidUsage));
    assert_eq!(eval_str("(if)"), Err(VmError::InvalidUsage));
}

#[test]
fn nesting_limit_raises_too_deep() {
    let mut vm = NlispVm::new();
    let list = vec![sym("if"), Atom::Bool(true), Atom::List(vec![sym("+"), num(1)])];
    assert_eq!(vm.evaluate_within(&root(), &list, 1), Err(VmError::TooDeep));
    assert_eq!(vm.evaluate_within(&root(), &list, 0), Err(VmError::TooDeep));
    assert_eq!(vm.evaluate_within(&root(), &list, 3), Ok(num(1)));
}

#[test]
fn lambda_call_binds_parameters() {
    let mut vm = NlispVm::new();
    run(&mut vm, "(global sq (lambda (a) (+ a a)))").unwrap();
    assert_eq!(run(&mut vm, "(sq 4)"), Ok(num(8)));
    assert_eq!(run(&mut vm, "(sq 1)"), Ok(num(2)));
}

#[test]
fn print_records_values() {
    let mut vm = NlispVm::new();
    assert_eq!(run(&mut vm, "(print (+ 1 1) x)"), Ok(Atom::Nil));
    assert_eq!(run(&mut vm, "(printd (+ 1 1))"), Ok(Atom::Nil));
    assert_eq!(
        vm.printed,
        vec![
            Atom::List(vec![num(2), sym("x")]),
            Atom::List(vec![Atom::List(vec![sym("+"), num(1), num(1)])]),
        ]
    );
}

#[test]
fn call_native_dispatches() {
    let mut vm = NlispVm::new();
    let r = call_native(&mut vm, &root(), nlisp::atom::NativeFunction::Sum, &[num(2), num(3)], 5);
    assert_eq!(r, Ok(num(5)));
}

const FIB: &str = "
    (global fn
        (lambda (name args definition)
            (global name (lambda args definition))))

    (fn - (a b)
        (+ a (neg b)))

    (fn fib (n fib)
        (if (= n 0)
            0
        (if (= n 1)
            1
        (+ (fib (- n 1) fib) (fib (- n 2) fib)))))
";

#[test]
fn fib_runs_twice_from_stored_closure() {
    let mut vm = NlispVm::new();
    run(&mut vm, FIB).unwrap();
    let stored = vm.resolve(&"fib".to_string()).unwrap();
    assert_eq!(run(&mut vm, "(fib 25 fib)"), Ok(num(75025)));
    assert_eq!(run(&mut vm, "(fib 25 fib)"), Ok(num(75025)));
    assert_eq!(run(&mut vm, "(fib 10 fib)"), Ok(num(55)));
    assert_eq!(vm.resolve(&"fib".to_string()), Some(stored));
}

#[test]
fn parse_unicode_classes() {
    assert_eq!(parse("héllo").unwrap(), vec![sym("héllo")]);
    assert_eq!(parse("²").unwrap_err(), ParseError::NumberError(1));
    assert_eq!(parse("a\u{00A0}b").unwrap(), vec![sym("a"), sym("b")]);
    assert_eq!(parse("\u{0007}").unwrap_err(), ParseError::InvalidCharacter(0));
}

#[test]
fn parse_error_inside_list_is_relative() {
    assert_eq!(parse("(a #)").unwrap(), vec![Atom::List(vec![sym("a"), sym("#")])]);
    assert_eq!(parse("(a \u{0007})").unwrap_err(), ParseError::InvalidCharacter(2));
}

#[test]
fn default_machine_has_builtins() {
    let vm = NlispVm::default();
    assert_eq!(vm.resolve(&"pi".to_string()), Some(Atom::Number(3_141_592)));
    assert_eq!(vm.resolve(&"nil".to_string()), Some(Atom::Nil));
    assert_eq!(vm.resolve(&"missing".to_string()), None);
}

#[test]
fn clone_and_kind_names() {
    let a = Atom::List(vec![sym("a"), Atom::Error(VmError::NotASymbol)]);
    assert_eq!(a.clone(), a);
    assert_eq!(Atom::Error(VmError::NotASymbol).get_type_str(), "Error:NotASymbol");
    assert_eq!(Atom::Nil.get_type_str(), "Nil");
    assert_ne!(sym("a"), Atom::String("a".to_string()));
}

#[test]
fn later_binding_hides_earlier() {
    let mut vm = NlispVm::new();
    vm.add_symbol("x".to_string(), num(1));
    vm.add_symbol("x".to_string(), num(2));
    assert_eq!(vm.resolve(&"x".to_string()), Some(num(2)));
}

#[test]
fn endless_recursion_is_cut_off() {
    let mut vm = NlispVm::new();
    run(&mut vm, "(global loop (lambda (x) (loop x)))").unwrap();
    assert_eq!(run(&mut vm, "(loop 1)"), Err(VmError::TooDeep));
    run(&mut vm, "(global deep (lambda (x) (+ 1 (deep x))))").unwrap();
    // The innermost call fails and counts as zero in each enclosing sum.
    assert!(matches!(run(&mut vm, "(deep 1)"), Ok(Atom::Number(n)) if n > 0));
}
