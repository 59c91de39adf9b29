use lisp_core::{Builtin, Host, Lambda, List, RuntimeError, Scope, Value};

// Ids of the native routines the test host understands.
const QUOTE: u64 = 1;
const SUM: u64 = 2;
const COUNT: u64 = 3;
const MAKE_SUM: u64 = 4;
const LAMBDA_ID: u64 = 7;

/// A host with four native routines — `quote` (returns its raw first
/// argument), `sum` (adds the numbers it is given), `count` (returns
/// `Nil`) and `make-sum` (returns the `sum` builtin itself) — that
/// records the id of every callable it runs, in order.
struct TestHost {
    invoked: Vec<u64>,
}

impl TestHost {
    fn new() -> TestHost {
        TestHost { invoked: Vec::new() }
    }
}

impl Host for TestHost {
    fn call_builtin(
        &mut self,
        b: &Builtin,
        args: &List,
        _env: &mut Scope,
    ) -> Result<Value, RuntimeError> {
        self.invoked.push(b.id);
        match b.id {
            QUOTE => {
                let mut it = args.iter();
                match it.next() {
                    Some(v) => Ok(v),
                    None => Ok(Value::Nil),
                }
            }
            SUM => {
                let mut total: i64 = 0;
                let mut it = args.iter();
                while let Some(v) = it.next() {
                    if let Value::Number(n) = v {
                        total += n;
                    }
                }
                Ok(Value::Number(total))
            }
            MAKE_SUM => Ok(Value::Builtin(Builtin { id: SUM, do_eval: true })),
            _ => Ok(Value::Nil),
        }
    }

    fn call_lambda(
        &mut self,
        f: &Lambda,
        _args: &List,
        _env: &mut Scope,
    ) -> Result<Value, RuntimeError> {
        self.invoked.push(f.id);
        Ok(Value::Number(f.id as i64))
    }
}

fn num(n: i64) -> Value {
    Value::Number(n)
}

fn sym(s: &str) -> Value {
    Value::Symbol(s.to_string())
}

fn list_of(items: Vec<Value>) -> List {
    List::from_vec(items)
}

#[test]
fn symbol_unbound_fails() {
    let mut env = Scope::new();
    let mut host = TestHost::new();
    let r = sym("x").eval(&mut env, &mut host);
    assert_eq!(r, Err(RuntimeError::UnkSymbol("x".to_string())));
}

#[test]
fn symbol_bound_resolves() {
    let mut env = Scope::new();
    let mut host = TestHost::new();
    env.set("x".to_string(), num(5));
    let r = sym("x").eval(&mut env, &mut host);
    assert_eq!(r, Ok(num(5)));
}

#[test]
fn symbol_rebinding_shadows() {
    let mut env = Scope::new();
    env.set("x".to_string(), num(1));
    env.set("x".to_string(), num(2));
    assert_eq!(env.get(&"x".to_string()), Some(num(2)));
    assert_eq!(env.get(&"y".to_string()), None);
}

#[test]
fn literals_self_evaluate() {
    let mut env = Scope::new();
    let mut host = TestHost::new();
    assert_eq!(Value::Nil.eval(&mut env, &mut host), Ok(Value::Nil));
    assert_eq!(num(42).eval(&mut env, &mut host), Ok(num(42)));
    let s = Value::Str("hi".to_string());
    assert_eq!(s.eval(&mut env, &mut host), Ok(Value::Str("hi".to_string())));
}

#[test]
fn empty_call_yields_nil() {
    let mut env = Scope::new();
    let mut host = TestHost::new();
    let r = List::End.call(&mut env, &mut host);
    assert_eq!(r, Ok(Value::Nil));
    assert!(host.invoked.is_empty());
}

#[test]
fn non_callable_head_fails_invalid_call() {
    let mut env = Scope::new();
    let mut host = TestHost::new();
    env.set("f".to_string(), num(2));
    let call = Value::List(list_of(vec![sym("f"), num(1)]));
    let r = call.eval(&mut env, &mut host);
    assert_eq!(r, Err(RuntimeError::InvalidCall("Number".to_string())));
    assert!(host.invoked.is_empty());
}

#[test]
fn literal_head_fails_invalid_call() {
    let mut env = Scope::new();
    let mut host = TestHost::new();
    let call = Value::List(list_of(vec![num(1), num(2)]));
    let r = call.eval(&mut env, &mut host);
    assert_eq!(r, Err(RuntimeError::InvalidCall("Number".to_string())));
}

#[test]
fn failing_argument_aborts_builtin_call() {
    let mut env = Scope::new();
    let mut host = TestHost::new();
    env.set("+".to_string(), Value::Builtin(Builtin { id: SUM, do_eval: true }));
    let call = Value::List(list_of(vec![sym("+"), sym("missing"), num(2)]));
    let r = call.eval(&mut env, &mut host);
    assert_eq!(r, Err(RuntimeError::UnkSymbol("missing".to_string())));
    assert!(host.invoked.is_empty());
}

#[test]
fn builtin_with_policy_sees_evaluated_arguments() {
    let mut env = Scope::new();
    let mut host = TestHost::new();
    env.set("+".to_string(), Value::Builtin(Builtin { id: SUM, do_eval: true }));
    env.set("x".to_string(), num(40));
    let call = Value::List(list_of(vec![sym("+"), sym("x"), num(2)]));
    let r = call.eval(&mut env, &mut host);
    assert_eq!(r, Ok(num(42)));
    assert_eq!(host.invoked, vec![SUM]);
}

#[test]
fn computed_head_dispatches_like_any_other() {
    let mut env = Scope::new();
    let mut host = TestHost::new();
    env.set("g".to_string(), Value::Builtin(Builtin { id: MAKE_SUM, do_eval: true }));
    // The head is itself a call form: evaluating `(g)` yields the sum
    // builtin, which then receives the evaluated tail.
    let head = Value::List(list_of(vec![sym("g")]));
    let call = Value::List(list_of(vec![head, num(1), num(2)]));
    let r = call.eval(&mut env, &mut host);
    assert_eq!(r, Ok(num(3)));
    assert_eq!(host.invoked, vec![MAKE_SUM, SUM]);
}

#[test]
fn quote_evaluates_to_quoted_value() {
    let mut env = Scope::new();
    let mut host = TestHost::new();
    env.set("quote".to_string(), Value::Builtin(Builtin { id: QUOTE, do_eval: false }));
    let r = num(5).quote().eval(&mut env, &mut host);
    assert_eq!(r, Ok(num(5)));
    assert_eq!(host.invoked, vec![QUOTE]);
}

#[test]
fn quote_hands_arguments_over_raw() {
    let mut env = Scope::new();
    let mut host = TestHost::new();
    env.set("quote".to_string(), Value::Builtin(Builtin { id: QUOTE, do_eval: false }));
    // Quoting a symbol that is unbound: evaluation must not resolve it.
    let r = sym("x").quote().eval(&mut env, &mut host);
    assert_eq!(r, Ok(sym("x")));
    // Quoting a call form: evaluation must not run it.
    env.set("count".to_string(), Value::Builtin(Builtin { id: COUNT, do_eval: true }));
    let form = Value::List(list_of(vec![sym("count")]));
    let r = form.clone().quote().eval(&mut env, &mut host);
    assert_eq!(r, Ok(form));
    assert_eq!(host.invoked, vec![QUOTE, QUOTE]);
}

#[test]
fn quotation_has_quote_symbol_shape() {
    let v = num(5);
    let q = v.quote();
    assert_eq!(q, Value::List(list_of(vec![sym("quote"), num(5)])));
}

#[test]
fn lambda_head_dispatches_to_host() {
    let mut env = Scope::new();
    let mut host = TestHost::new();
    env.set("f".to_string(), Value::Lambda(Lambda { id: LAMBDA_ID }));
    let call = Value::List(list_of(vec![sym("f"), num(1)]));
    let r = call.eval(&mut env, &mut host);
    assert_eq!(r, Ok(num(LAMBDA_ID as i64)));
    assert_eq!(host.invoked, vec![LAMBDA_ID]);
}

#[test]
fn list_eval_stops_at_first_failure() {
    let mut env = Scope::new();
    let mut host = TestHost::new();
    env.set("count".to_string(), Value::Builtin(Builtin { id: COUNT, do_eval: true }));
    // [A, B, C]: A is fine, B fails, C is a call that would reach the host.
    let c = Value::List(list_of(vec![sym("count")]));
    let l = list_of(vec![num(1), sym("x"), c]);
    let r = l.eval(&mut env, &mut host);
    assert_eq!(r, Err(RuntimeError::UnkSymbol("x".to_string())));
    assert!(host.invoked.is_empty());
}

#[test]
fn list_eval_collects_results_in_order() {
    let mut env = Scope::new();
    let mut host = TestHost::new();
    env.set("x".to_string(), num(9));
    let l = list_of(vec![num(1), sym("x"), num(3)]);
    let r = l.eval(&mut env, &mut host);
    assert_eq!(r, Ok(list_of(vec![num(1), num(9), num(3)])));
}

#[test]
fn eval_to_value_empty_is_nil() {
    let mut env = Scope::new();
    let mut host = TestHost::new();
    let r = List::End.eval_to_value(&mut env, &mut host);
    assert_eq!(r, Ok(Value::Nil));
}

#[test]
fn eval_to_value_keeps_last_result() {
    let mut env = Scope::new();
    let mut host = TestHost::new();
    let l = list_of(vec![num(1), num(2), num(3)]);
    let r = l.eval_to_value(&mut env, &mut host);
    assert_eq!(r, Ok(num(3)));
}

#[test]
fn type_tags_name_every_variant() {
    assert_eq!(Value::Nil.type_tag(), "Nil");
    assert_eq!(num(1).type_tag(), "Number");
    assert_eq!(sym("a").type_tag(), "Symbol");
    assert_eq!(Value::Str("s".to_string()).type_tag(), "String");
    assert_eq!(Value::Builtin(Builtin { id: 0, do_eval: true }).type_tag(), "Builtin");
    assert_eq!(Value::Lambda(Lambda { id: 0 }).type_tag(), "Lambda");
    assert_eq!(Value::List(List::End).type_tag(), "List");
}
