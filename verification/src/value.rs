use vstd::prelude::*;

use crate::host::Host;
use crate::list::{List, call_post, dispatch_post, eq_lists, list_elems, list_eq, list_height};
use crate::scope::Scope;

verus! {

/// Handle of a native callable supplied by the host. `id` names the native
/// routine to the host; `do_eval` is the evaluation policy consulted by call
/// dispatch: when it is true the argument list is evaluated element by
/// element before the native routine runs, when it is false the routine
/// receives the raw, unevaluated argument forms (special forms such as
/// `quote`, `if` or `define` use the latter).
#[derive(Clone, Copy, PartialEq, Eq, Structural, Debug)]
pub struct Builtin {
    pub id: u64,
    pub do_eval: bool,
}

/// Handle of a user-defined callable. The host owns the captured
/// environment, parameter list and body that `id` refers to, and applies
/// them when the lambda is called.
#[derive(Clone, Copy, PartialEq, Eq, Structural, Debug)]
pub struct Lambda {
    pub id: u64,
}

/// The failures evaluation can report. Every fallible operation of this
/// crate returns the first such failure it encounters and stops; nothing
/// here panics.
#[derive(Debug)]
pub enum RuntimeError {
    /// Symbol lookup failed; carries the symbol's name.
    UnkSymbol(String),
    /// The evaluated head of a call is not callable; carries the head's
    /// type tag for diagnostics.
    InvalidCall(String),
}

/// A runtime value: the tagged union that is both the interpreter's data
/// and, through the `List` variant, its abstract syntax. Values are
/// immutable once constructed and share substructure when cloned.
#[derive(Debug)]
pub enum Value {
    Nil,
    Number(i64),
    Symbol(String),
    Str(String),
    Builtin(Builtin),
    Lambda(Lambda),
    List(List),
}

/// Height of a value tree, the termination measure of evaluation.
pub open spec fn value_height(v: Value) -> nat
    decreases v,
{
    match v {
        Value::List(l) => list_height(l) + 1,
        _ => 0,
    }
}

/// The type tag of a value, as a character sequence.
pub open spec fn type_tag_view(v: Value) -> Seq<char> {
    match v {
        Value::Nil => "Nil"@,
        Value::Number(_) => "Number"@,
        Value::Symbol(_) => "Symbol"@,
        Value::Str(_) => "String"@,
        Value::Builtin(_) => "Builtin"@,
        Value::Lambda(_) => "Lambda"@,
        Value::List(_) => "List"@,
    }
}

/// Values whose evaluation never runs a callable: symbols and
/// self-evaluating literals. On these, evaluation is a function of the
/// value and the environment alone.
pub open spec fn atomic(v: Value) -> bool {
    !(v is List)
}

/// The exact outcome of evaluating an atomic value in `env`: a symbol
/// resolves to its binding or fails with `UnkSymbol`; anything else yields
/// itself. The environment is left untouched.
pub open spec fn atomic_eval(v: Value, env: Scope) -> Result<Value, RuntimeError>
    recommends
        atomic(v),
{
    match v {
        Value::Symbol(name) => if env.has(name@) {
            Ok(env.resolve(name@))
        } else {
            Err(RuntimeError::UnkSymbol(name))
        },
        _ => Ok(v),
    }
}

/// Everything evaluating a single value promises, for any value: an
/// atomic value's outcome is exactly `atomic_eval`, with environment and
/// host untouched; a list's outcome is what applying it as a call
/// promises, `call_post`.
pub open spec fn eval_post<H: Host>(
    v: Value,
    env0: Scope,
    env1: Scope,
    host0: H,
    host1: H,
    r: Result<Value, RuntimeError>,
) -> bool
    decreases value_height(v), 0int,
{
    &&& (atomic(v) ==> r == atomic_eval(v, env0) && env1 == env0 && host1 == host0)
    &&& (v matches Value::List(l) ==> call_post::<H>(l, env0, env1, host0, host1, r))
}

/// Whether `r` is the quotation of `v`: the two-element list
/// `(quote <v>)`.
pub open spec fn quotation_of(r: Value, v: Value) -> bool {
    &&& r matches Value::List(l)
    &&& l matches List::Node(c)
    &&& c.car matches Value::Symbol(q)
    &&& q@ == "quote"@
    &&& c.cdr matches List::Node(c2)
    &&& c2.car == v
    &&& c2.cdr is End
}

/// Structural equality of values: `Nil` only to itself, numbers by value,
/// symbols and strings by their characters, callables by their handles,
/// lists elementwise.
pub open spec fn value_eq(a: Value, b: Value) -> bool
    decreases a,
{
    match (a, b) {
        (Value::Nil, Value::Nil) => true,
        (Value::Number(x), Value::Number(y)) => x == y,
        (Value::Symbol(s), Value::Symbol(t)) => s@ == t@,
        (Value::Str(s), Value::Str(t)) => s@ == t@,
        (Value::Builtin(x), Value::Builtin(y)) => x == y,
        (Value::Lambda(x), Value::Lambda(y)) => x == y,
        (Value::List(x), Value::List(y)) => list_eq(x, y),
        _ => false,
    }
}

/// Structural equality of errors: same kind, same carried text.
pub open spec fn error_eq(a: RuntimeError, b: RuntimeError) -> bool {
    match (a, b) {
        (RuntimeError::UnkSymbol(s), RuntimeError::UnkSymbol(t)) => s@ == t@,
        (RuntimeError::InvalidCall(s), RuntimeError::InvalidCall(t)) => s@ == t@,
        _ => false,
    }
}

pub(crate) fn eq_values(a: &Value, b: &Value) -> (r: bool)
    ensures
        r == value_eq(*a, *b),
    decreases value_height(*a),
{
    match (a, b) {
        (Value::Nil, Value::Nil) => true,
        (Value::Number(x), Value::Number(y)) => *x == *y,
        (Value::Symbol(s), Value::Symbol(t)) => *s == *t,
        (Value::Str(s), Value::Str(t)) => *s == *t,
        (Value::Builtin(x), Value::Builtin(y)) => *x == *y,
        (Value::Lambda(x), Value::Lambda(y)) => *x == *y,
        (Value::List(x), Value::List(y)) => eq_lists(x, y),
        _ => false,
    }
}

impl PartialEq for Value {
    /// Structural equality, elementwise on lists.
    fn eq(&self, other: &Value) -> (r: bool)
        ensures
            r == value_eq(*self, *other),
    {
        eq_values(self, other)
    }
}

impl vstd::std_specs::cmp::PartialEqSpecImpl for Value {
    open spec fn obeys_eq_spec() -> bool {
        true
    }

    open spec fn eq_spec(&self, other: &Value) -> bool {
        value_eq(*self, *other)
    }
}

impl PartialEq for RuntimeError {
    /// Equal when of the same kind and carrying the same text.
    fn eq(&self, other: &RuntimeError) -> (r: bool)
        ensures
            r == error_eq(*self, *other),
    {
        match (self, other) {
            (RuntimeError::UnkSymbol(s), RuntimeError::UnkSymbol(t)) => *s == *t,
            (RuntimeError::InvalidCall(s), RuntimeError::InvalidCall(t)) => *s == *t,
            _ => false,
        }
    }
}

impl vstd::std_specs::cmp::PartialEqSpecImpl for RuntimeError {
    open spec fn obeys_eq_spec() -> bool {
        true
    }

    open spec fn eq_spec(&self, other: &RuntimeError) -> bool {
        error_eq(*self, *other)
    }
}

impl Value {
    /// The stable, human-readable tag of this value's variant, used for
    /// diagnostics only.
    pub fn type_tag(&self) -> (r: &'static str)
        ensures
            r@ == type_tag_view(*self),
    {
        match self {
            Value::Nil => "Nil",
            Value::Number(_) => "Number",
            Value::Symbol(_) => "Symbol",
            Value::Str(_) => "String",
            Value::Builtin(_) => "Builtin",
            Value::Lambda(_) => "Lambda",
            Value::List(_) => "List",
        }
    }

    /// Wraps this value as the syntax `(quote <self>)`: a two-element list
    /// whose head is the symbol `quote` and whose second element is the
    /// value itself. Evaluating that syntax (with `quote` bound to a
    /// builtin that returns its raw first argument) yields the value back
    /// unevaluated.
    pub fn quote(self) -> (r: Value)
        ensures
            quotation_of(r, self),
    {
        Value::List(
            List::cons(Value::Symbol("quote".to_owned()), List::cons(self, List::End)),
        )
    }

    /// Evaluates this value against `env`: a symbol resolves (failing with
    /// `UnkSymbol` when unbound), a list dispatches as a call, and every
    /// other value yields a clone of itself.
    ///
    /// On an atomic value the outcome is exactly `atomic_eval` and nothing
    /// moves; on a list it is whatever the call-dispatch rule promises:
    /// `eval_post` carries both.
    pub fn eval<H: Host>(&self, env: &mut Scope, host: &mut H) -> (r: Result<Value, RuntimeError>)
        ensures
            eval_post::<H>(*self, *old(env), *final(env), *old(host), *final(host), r),
        decreases value_height(*self),
    {
        match self {
            Value::Symbol(name) => match env.get(name) {
                Some(v) => Ok(v),
                None => Err(RuntimeError::UnkSymbol(name.clone())),
            },
            Value::List(l) => l.call(env, host),
            _ => Ok(self.clone()),
        }
    }
}

/// Law: quoting bypasses evaluation. Let `q` be the quotation of any value
/// `v`, and let the environment bind `quote` to a builtin whose policy says
/// "do not evaluate the arguments" and whose native routine hands back its
/// raw first argument. Then the promise the evaluator makes for evaluating
/// `q` — `call_post`, as ensured by `Value::eval` and `List::call` — forces
/// the result to be exactly `Ok(v)`, the value back unevaluated, whatever
/// else the environment holds.
pub proof fn lemma_quote_round_trip<H: Host>(
    v: Value,
    q: Value,
    env0: Scope,
    env1: Scope,
    host0: H,
    host1: H,
    b: Builtin,
    r: Result<Value, RuntimeError>,
)
    requires
        quotation_of(q, v),
        env0.has("quote"@),
        env0.resolve("quote"@) == Value::Builtin(b),
        !b.do_eval,
        q matches Value::List(l) ==> call_post::<H>(l, env0, env1, host0, host1, r),
        forall|args: Seq<Value>, rr: Result<Value, RuntimeError>, h1: H, e1: Scope|
            #[trigger] H::builtin_post(host0, h1, b, args, env0, e1, rr) && args.len() == 1
                ==> rr == Ok::<Value, RuntimeError>(args[0]),
    ensures
        r == Ok::<Value, RuntimeError>(v),
{
    let l = q->List_0;
    let c = l->Node_0;
    let t = crate::list::tail_of(l);
    let c2 = t->Node_0;
    assert(atomic(c.car));
    assert(atomic_eval(c.car, env0) == Ok::<Value, RuntimeError>(Value::Builtin(b)));
    assert(list_elems(t) == seq![c2.car] + list_elems(c2.cdr));
    assert(list_elems(c2.cdr) == Seq::<Value>::empty());
    assert(list_elems(t) =~= seq![v]);
    assert(dispatch_post::<H>(Value::Builtin(b), t, env0, env1, host0, host1, r));
    assert(H::builtin_post(host0, host1, b, list_elems(t), env0, env1, r));
    assert(list_elems(t)[0] == v);
}

impl Clone for Value {
    /// Cloning is shallow on lists (the cons cells are shared) and yields a
    /// value equal to the original.
    fn clone(&self) -> (r: Value)
        ensures
            r == *self,
    {
        match self {
            Value::Nil => Value::Nil,
            Value::Number(n) => Value::Number(*n),
            Value::Symbol(s) => Value::Symbol(s.clone()),
            Value::Str(s) => Value::Str(s.clone()),
            Value::Builtin(b) => Value::Builtin(*b),
            Value::Lambda(f) => Value::Lambda(*f),
            Value::List(l) => Value::List(l.clone()),
        }
    }
}

} // verus!
