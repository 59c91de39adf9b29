use std::cell::Cell;

use lisp_core::{List, RuntimeError, Value};

fn num(n: i64) -> Value {
    Value::Number(n)
}

fn sym(s: &str) -> Value {
    Value::Symbol(s.to_string())
}

fn collect(l: &List) -> Vec<Value> {
    let mut out = Vec::new();
    let mut it = l.iter();
    while let Some(v) = it.next() {
        out.push(v);
    }
    out
}

#[test]
fn from_vec_iter_round_trips_in_order() {
    let xs = vec![num(1), sym("a"), Value::Str("s".to_string()), Value::Nil, num(5)];
    let l = List::from_vec(xs.clone());
    assert_eq!(collect(&l), xs);
}

#[test]
fn from_vec_of_nothing_is_end() {
    let l = List::from_vec(Vec::new());
    assert_eq!(l, List::End);
    assert_eq!(collect(&l), Vec::<Value>::new());
}

#[test]
fn iter_restarts_at_the_head() {
    let l = List::from_vec(vec![num(1), num(2)]);
    assert_eq!(collect(&l), vec![num(1), num(2)]);
    // A second iterator starts over at the head.
    assert_eq!(collect(&l), vec![num(1), num(2)]);
}

#[test]
fn cons_prepends_without_touching_the_tail() {
    let tail = List::from_vec(vec![num(2), num(3)]);
    let l = List::cons(num(1), tail.clone());
    assert_eq!(collect(&l), vec![num(1), num(2), num(3)]);
    assert_eq!(collect(&tail), vec![num(2), num(3)]);
}

#[test]
fn equality_is_structural_and_elementwise() {
    let a = List::from_vec(vec![num(1), sym("a")]);
    let b = List::from_vec(vec![num(1), sym("a")]);
    let c = List::from_vec(vec![num(1), sym("b")]);
    let d = List::from_vec(vec![num(1)]);
    assert_eq!(a, b);
    assert_ne!(a, c);
    assert_ne!(a, d);
    assert_ne!(d, a);
}

#[test]
fn end_equals_end_only() {
    assert_eq!(List::End, List::End);
    assert_ne!(List::End, List::cons(Value::Nil, List::End));
    assert_ne!(List::cons(Value::Nil, List::End), List::End);
}

#[test]
fn nested_lists_compare_deeply() {
    let inner1 = Value::List(List::from_vec(vec![num(1), num(2)]));
    let inner2 = Value::List(List::from_vec(vec![num(1), num(2)]));
    let inner3 = Value::List(List::from_vec(vec![num(1), num(9)]));
    assert_eq!(List::from_vec(vec![inner1.clone()]), List::from_vec(vec![inner2]));
    assert_ne!(List::from_vec(vec![inner1]), List::from_vec(vec![inner3]));
}

#[test]
fn fold_threads_the_accumulator_left_to_right() {
    let l = List::from_vec(vec![num(1), num(2), num(3)]);
    let r = l.fold(0i64, |acc, v| match v {
        Value::Number(n) => Ok(acc * 10 + n),
        _ => Err(RuntimeError::InvalidCall("Number".to_string())),
    });
    assert_eq!(r, Ok(123));
}

#[test]
fn fold_of_empty_list_returns_initial() {
    let r = List::End.fold(7i64, |acc, _v| Ok(acc + 1));
    assert_eq!(r, Ok(7));
}

#[test]
fn fold_short_circuits_on_first_failure() {
    let l = List::from_vec(vec![num(1), num(2), num(3)]);
    let calls = Cell::new(0u32);
    let r = l.fold(0i64, |acc, v| {
        calls.set(calls.get() + 1);
        match v {
            Value::Number(2) => Err(RuntimeError::UnkSymbol("boom".to_string())),
            Value::Number(n) => Ok(acc + n),
            _ => Ok(acc),
        }
    });
    assert_eq!(r, Err(RuntimeError::UnkSymbol("boom".to_string())));
    // The folding function saw the first and second elements, never the third.
    assert_eq!(calls.get(), 2);
}

#[test]
fn values_compare_by_content() {
    assert_eq!(num(3), num(3));
    assert_ne!(num(3), num(4));
    assert_eq!(sym("a"), sym("a"));
    assert_ne!(sym("a"), Value::Str("a".to_string()));
    assert_eq!(Value::Nil, Value::Nil);
    assert_ne!(Value::Nil, num(0));
}
