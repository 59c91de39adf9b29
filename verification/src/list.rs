use std::rc::Rc;

use vstd::prelude::*;

use crate::host::Host;
use crate::scope::Scope;
use crate::value::{
    Builtin, RuntimeError, Value, atomic, atomic_eval, eq_values, eval_post, type_tag_view,
    value_eq, value_height,
};

verus! {

/// One cell of a list: a head value (`car`) and the rest of the list
/// (`cdr`). Cells are shared by reference counting, so several lists may
/// own a common tail without copying it.
#[derive(Debug)]
pub struct Cons {
    pub car: Value,
    pub cdr: List,
}

/// An immutable, structurally shared singly-linked list of values: either
/// the empty terminal `End` or a `Node` wrapping a shared cons cell. A list
/// is always a finite chain ending in `End`; the construction api offers no
/// way to close a cycle.
#[derive(Debug)]
pub enum List {
    Node(Rc<Cons>),
    End,
}

/// Height of a list tree, the termination measure of evaluation.
pub open spec fn list_height(l: List) -> nat
    decreases l,
{
    match l {
        List::End => 0,
        List::Node(c) => 1 + if value_height(c.car) >= list_height(c.cdr) {
            value_height(c.car)
        } else {
            list_height(c.cdr)
        },
    }
}

/// The elements of a list, in list order, as a mathematical sequence.
pub open spec fn list_elems(l: List) -> Seq<Value>
    decreases l,
{
    match l {
        List::End => Seq::empty(),
        List::Node(c) => seq![c.car] + list_elems(c.cdr),
    }
}

impl View for List {
    type V = Seq<Value>;

    open spec fn view(&self) -> Seq<Value> {
        list_elems(*self)
    }
}

/// Structural equality of lists: equal when they have the same length and
/// corresponding elements are equal.
pub open spec fn list_eq(a: List, b: List) -> bool
    decreases a,
{
    match (a, b) {
        (List::End, List::End) => true,
        (List::Node(c), List::Node(d)) => value_eq(c.car, d.car) && list_eq(c.cdr, d.cdr),
        _ => false,
    }
}

pub(crate) fn eq_lists(a: &List, b: &List) -> (r: bool)
    ensures
        r == list_eq(*a, *b),
    decreases list_height(*a),
{
    match (a, b) {
        (List::End, List::End) => true,
        (List::Node(c), List::Node(d)) => eq_values(&c.car, &d.car) && eq_lists(&c.cdr, &d.cdr),
        _ => false,
    }
}

impl PartialEq for List {
    /// Structural, elementwise equality: true exactly when both lists have
    /// the same length and corresponding elements are equal, comparison
    /// stopping at the first mismatch.
    fn eq(&self, other: &List) -> (r: bool)
        ensures
            r == list_eq(*self, *other),
    {
        eq_lists(self, other)
    }
}

impl vstd::std_specs::cmp::PartialEqSpecImpl for List {
    open spec fn obeys_eq_spec() -> bool {
        true
    }

    open spec fn eq_spec(&self, other: &List) -> bool {
        list_eq(*self, *other)
    }
}

/// Whether every element of the sequence is atomic (evaluates without
/// running a callable).
pub open spec fn all_atomic(s: Seq<Value>) -> bool {
    forall|i: int| 0 <= i < s.len() ==> atomic(#[trigger] s[i])
}

/// The exact outcome of evaluating a sequence of atomic elements in `env`,
/// in order: the sequence of their results, or the first failure.
pub open spec fn atomic_eval_elems(s: Seq<Value>, env: Scope) -> Result<Seq<Value>, RuntimeError>
    decreases s.len(),
{
    if s.len() == 0 {
        Ok(Seq::empty())
    } else {
        match atomic_eval(s[0], env) {
            Ok(v) => match atomic_eval_elems(s.drop_first(), env) {
                Ok(rest) => Ok(seq![v] + rest),
                Err(e) => Err(e),
            },
            Err(e) => Err(e),
        }
    }
}

/// The exact outcome of evaluating a sequence of atomic elements in order
/// and keeping only the last result: `Nil` for the empty sequence, or the
/// first failure.
pub open spec fn atomic_eval_last(s: Seq<Value>, env: Scope) -> Result<Value, RuntimeError>
    decreases s.len(),
{
    if s.len() == 0 {
        Ok(Value::Nil)
    } else {
        match atomic_eval(s[0], env) {
            Ok(v) => if s.len() == 1 {
                Ok(v)
            } else {
                atomic_eval_last(s.drop_first(), env)
            },
            Err(e) => Err(e),
        }
    }
}

/// Whether `r` is a possible outcome of folding `f` left-to-right over
/// `elems` starting from `init`: each step feeds the accumulator and the
/// next element to `f`; the first failure becomes the outcome and no
/// further element takes part, and if every step succeeds the outcome is
/// the final accumulator.
pub open spec fn folds_to<T, F: Fn(T, Value) -> Result<T, RuntimeError>>(
    f: F,
    init: T,
    elems: Seq<Value>,
    r: Result<T, RuntimeError>,
) -> bool
    decreases elems.len(),
{
    if elems.len() == 0 {
        r == Ok::<T, RuntimeError>(init)
    } else {
        exists|step: Result<T, RuntimeError>|
            {
                &&& #[trigger] call_ensures(f, (init, elems[0]), step)
                &&& match step {
                    Ok(a2) => folds_to(f, a2, elems.drop_first(), r),
                    Err(e) => r == Err::<T, RuntimeError>(e),
                }
            }
    }
}

/// The point one evaluation step reaches: its outcome together with the
/// environment and host it leaves behind. The call and list-evaluation
/// relations below quantify over these points.
pub open spec fn step_point<R, H>(r: R, env: Scope, host: H) -> (R, Scope, H) {
    (r, env, host)
}

/// Everything applying a list as a call promises, for any list. The empty
/// call yields `Nil` and touches nothing. Otherwise there is an
/// intermediate outcome, environment and host from evaluating the head —
/// `eval_post`, which is exact for an atomic head and this same relation
/// for a head that is itself a call form — and either the head's failure
/// is the call's result with the state as head evaluation left it, or
/// dispatch proceeds from that state on the evaluated head, `dispatch_post`.
pub open spec fn call_post<H: Host>(
    l: List,
    env0: Scope,
    env1: Scope,
    host0: H,
    host1: H,
    r: Result<Value, RuntimeError>,
) -> bool
    decreases list_height(l), 2int,
{
    &&& (l is End ==> r == Ok::<Value, RuntimeError>(Value::Nil) && env1 == env0 && host1
        == host0)
    &&& (l matches List::Node(c) ==> exists|
        hr: Result<Value, RuntimeError>,
        envm: Scope,
        hostm: H,
    |
        #![trigger step_point::<Result<Value, RuntimeError>, H>(hr, envm, hostm)]
        {
            &&& eval_post::<H>(c.car, env0, envm, host0, hostm, hr)
            &&& match hr {
                Err(e) => r == Err::<Value, RuntimeError>(e) && env1 == envm && host1 == hostm,
                Ok(h) => dispatch_post::<H>(h, c.cdr, envm, env1, hostm, host1, r),
            }
        })
}

/// What dispatch does once the head of a call has evaluated to `h`, with
/// raw tail `t`. A builtin whose policy is off receives the raw tail; one
/// whose policy is on has the tail evaluated element by element first —
/// `list_eval_post` — receiving the results, a failing argument becoming
/// the call's result instead with the state as it was left; a lambda
/// receives the raw tail; any other head fails with `InvalidCall`
/// carrying its type tag, touching nothing.
pub open spec fn dispatch_post<H: Host>(
    h: Value,
    t: List,
    env0: Scope,
    env1: Scope,
    host0: H,
    host1: H,
    r: Result<Value, RuntimeError>,
) -> bool
    decreases list_height(t), 1int,
{
    &&& (h is Builtin && !h->Builtin_0.do_eval ==> H::builtin_post(
        host0,
        host1,
        h->Builtin_0,
        t@,
        env0,
        env1,
        r,
    ))
    &&& (h is Builtin && h->Builtin_0.do_eval ==> exists|
        ar: Result<Seq<Value>, RuntimeError>,
        envm: Scope,
        hostm: H,
    |
        #![trigger step_point::<Result<Seq<Value>, RuntimeError>, H>(ar, envm, hostm)]
        {
            &&& list_eval_post::<H>(t, env0, envm, host0, hostm, ar)
            &&& match ar {
                Err(e) => r == Err::<Value, RuntimeError>(e) && env1 == envm && host1 == hostm,
                Ok(args) => H::builtin_post(hostm, host1, h->Builtin_0, args, envm, env1, r),
            }
        })
    &&& (h is Lambda ==> H::lambda_post(host0, host1, h->Lambda_0, t@, env0, env1, r))
    &&& (!(h is Builtin) && !(h is Lambda) ==> {
        &&& r matches Err(e)
        &&& e matches RuntimeError::InvalidCall(tag)
        &&& tag@ == type_tag_view(h)
        &&& env1 == env0
        &&& host1 == host0
    })
}

/// Everything evaluating the elements of a list in order promises,
/// threading environment and host left to right: on success the result
/// holds each element's outcome, in order; the first element whose
/// evaluation fails makes that failure the overall result, with the state
/// exactly as that element left it and no later element taking part.
pub open spec fn list_eval_post<H: Host>(
    l: List,
    env0: Scope,
    env1: Scope,
    host0: H,
    host1: H,
    r: Result<Seq<Value>, RuntimeError>,
) -> bool
    decreases list_height(l), 0int,
{
    &&& (l is End ==> r == Ok::<Seq<Value>, RuntimeError>(Seq::empty()) && env1 == env0 && host1
        == host0)
    &&& (l matches List::Node(c) ==> exists|
        vr: Result<Value, RuntimeError>,
        envm: Scope,
        hostm: H,
    |
        #![trigger step_point::<Result<Value, RuntimeError>, H>(vr, envm, hostm)]
        {
            &&& eval_post::<H>(c.car, env0, envm, host0, hostm, vr)
            &&& match vr {
                Err(e) => r == Err::<Seq<Value>, RuntimeError>(e) && env1 == envm && host1
                    == hostm,
                Ok(v) => exists|rr: Result<Seq<Value>, RuntimeError>|
                    #![trigger step_point::<Result<Seq<Value>, RuntimeError>, H>(rr, env1, host1)]
                    {
                        &&& list_eval_post::<H>(c.cdr, envm, env1, hostm, host1, rr)
                        &&& match rr {
                            Err(e) => r == Err::<Seq<Value>, RuntimeError>(e),
                            Ok(rest) => r == Ok::<Seq<Value>, RuntimeError>(seq![v] + rest),
                        }
                    },
            }
        })
}

/// Everything evaluating a list of forms for the last result promises,
/// threading environment and host: the empty list yields `Nil` and
/// touches nothing; otherwise each element is evaluated in order, the
/// first failure is the overall result with the state exactly as that
/// element left it and no later element taking part, and on success the
/// last element's result is kept.
pub open spec fn eval_last_post<H: Host>(
    l: List,
    env0: Scope,
    env1: Scope,
    host0: H,
    host1: H,
    r: Result<Value, RuntimeError>,
) -> bool
    decreases list_height(l), 0int,
{
    &&& (l is End ==> r == Ok::<Value, RuntimeError>(Value::Nil) && env1 == env0 && host1
        == host0)
    &&& (l matches List::Node(c) ==> exists|
        vr: Result<Value, RuntimeError>,
        envm: Scope,
        hostm: H,
    |
        #![trigger step_point::<Result<Value, RuntimeError>, H>(vr, envm, hostm)]
        {
            &&& eval_post::<H>(c.car, env0, envm, host0, hostm, vr)
            &&& match vr {
                Err(e) => r == Err::<Value, RuntimeError>(e) && env1 == envm && host1 == hostm,
                Ok(v) => if c.cdr is End {
                    r == Ok::<Value, RuntimeError>(v) && env1 == envm && host1 == hostm
                } else {
                    eval_last_post::<H>(c.cdr, envm, env1, hostm, host1, r)
                },
            }
        })
}

pub(crate) open spec fn head_of(l: List) -> Value
    recommends
        l is Node,
{
    l->Node_0.car
}

pub(crate) open spec fn tail_of(l: List) -> List
    recommends
        l is Node,
{
    l->Node_0.cdr
}

// Each lemma below establishes one constructor of a relation above. The
// `step_point` asserts put the term the relation's quantifier matches on
// into the prover's hand.
proof fn lemma_list_eval_end<H: Host>(env: Scope, h: H)
    ensures
        list_eval_post::<H>(List::End, env, env, h, h, Ok::<Seq<Value>, RuntimeError>(Seq::empty())),
{
}

proof fn lemma_list_eval_head_err<H: Host>(l: List, env0: Scope, envm: Scope, host0: H, hostm: H, e: RuntimeError)
    requires
        l is Node,
        eval_post::<H>(head_of(l), env0, envm, host0, hostm, Err::<Value, RuntimeError>(e)),
    ensures
        list_eval_post::<H>(l, env0, envm, host0, hostm, Err::<Seq<Value>, RuntimeError>(e)),
{
    assert(step_point::<Result<Value, RuntimeError>, H>(Err::<Value, RuntimeError>(e), envm, hostm)
        == (Err::<Value, RuntimeError>(e), envm, hostm));
}

proof fn lemma_list_eval_step<H: Host>(
    l: List,
    env0: Scope,
    envm: Scope,
    env1: Scope,
    host0: H,
    hostm: H,
    host1: H,
    v: Value,
    rr: Result<Seq<Value>, RuntimeError>,
    r: Result<Seq<Value>, RuntimeError>,
)
    requires
        l is Node,
        eval_post::<H>(head_of(l), env0, envm, host0, hostm, Ok::<Value, RuntimeError>(v)),
        list_eval_post::<H>(tail_of(l), envm, env1, hostm, host1, rr),
        (match rr {
            Err(e) => r == Err::<Seq<Value>, RuntimeError>(e),
            Ok(rest) => r == Ok::<Seq<Value>, RuntimeError>(seq![v] + rest),
        }),
    ensures
        list_eval_post::<H>(l, env0, env1, host0, host1, r),
{
    assert(step_point::<Result<Value, RuntimeError>, H>(Ok::<Value, RuntimeError>(v), envm, hostm)
        == (Ok::<Value, RuntimeError>(v), envm, hostm));
    assert(step_point::<Result<Seq<Value>, RuntimeError>, H>(rr, env1, host1) == (rr, env1, host1));
}

proof fn lemma_eval_last_head_err<H: Host>(
    l: List,
    env0: Scope,
    envm: Scope,
    host0: H,
    hostm: H,
    e: RuntimeError,
)
    requires
        l is Node,
        eval_post::<H>(head_of(l), env0, envm, host0, hostm, Err::<Value, RuntimeError>(e)),
    ensures
        eval_last_post::<H>(l, env0, envm, host0, hostm, Err::<Value, RuntimeError>(e)),
{
    assert(step_point::<Result<Value, RuntimeError>, H>(Err::<Value, RuntimeError>(e), envm, hostm)
        == (Err::<Value, RuntimeError>(e), envm, hostm));
}

proof fn lemma_eval_last_single<H: Host>(
    l: List,
    env0: Scope,
    envm: Scope,
    host0: H,
    hostm: H,
    v: Value,
)
    requires
        l is Node,
        tail_of(l) is End,
        eval_post::<H>(head_of(l), env0, envm, host0, hostm, Ok::<Value, RuntimeError>(v)),
    ensures
        eval_last_post::<H>(l, env0, envm, host0, hostm, Ok::<Value, RuntimeError>(v)),
{
    assert(step_point::<Result<Value, RuntimeError>, H>(Ok::<Value, RuntimeError>(v), envm, hostm)
        == (Ok::<Value, RuntimeError>(v), envm, hostm));
}

proof fn lemma_eval_last_step<H: Host>(
    l: List,
    env0: Scope,
    envm: Scope,
    env1: Scope,
    host0: H,
    hostm: H,
    host1: H,
    v: Value,
    r: Result<Value, RuntimeError>,
)
    requires
        l is Node,
        tail_of(l) is Node,
        eval_post::<H>(head_of(l), env0, envm, host0, hostm, Ok::<Value, RuntimeError>(v)),
        eval_last_post::<H>(tail_of(l), envm, env1, hostm, host1, r),
    ensures
        eval_last_post::<H>(l, env0, env1, host0, host1, r),
{
    assert(step_point::<Result<Value, RuntimeError>, H>(Ok::<Value, RuntimeError>(v), envm, hostm)
        == (Ok::<Value, RuntimeError>(v), envm, hostm));
}

proof fn lemma_eval_last_end<H: Host>(env: Scope, h: H)
    ensures
        eval_last_post::<H>(List::End, env, env, h, h, Ok::<Value, RuntimeError>(Value::Nil)),
{
}

proof fn lemma_call_end<H: Host>(env: Scope, h: H)
    ensures
        call_post::<H>(List::End, env, env, h, h, Ok::<Value, RuntimeError>(Value::Nil)),
{
}

proof fn lemma_call_head_err<H: Host>(l: List, env0: Scope, envm: Scope, host0: H, hostm: H, e: RuntimeError)
    requires
        l is Node,
        eval_post::<H>(head_of(l), env0, envm, host0, hostm, Err::<Value, RuntimeError>(e)),
    ensures
        call_post::<H>(l, env0, envm, host0, hostm, Err::<Value, RuntimeError>(e)),
{
    assert(step_point::<Result<Value, RuntimeError>, H>(Err::<Value, RuntimeError>(e), envm, hostm)
        == (Err::<Value, RuntimeError>(e), envm, hostm));
}

proof fn lemma_call_dispatch<H: Host>(
    l: List,
    env0: Scope,
    envm: Scope,
    env1: Scope,
    host0: H,
    hostm: H,
    host1: H,
    h: Value,
    r: Result<Value, RuntimeError>,
)
    requires
        l is Node,
        eval_post::<H>(head_of(l), env0, envm, host0, hostm, Ok::<Value, RuntimeError>(h)),
        dispatch_post::<H>(h, tail_of(l), envm, env1, hostm, host1, r),
    ensures
        call_post::<H>(l, env0, env1, host0, host1, r),
{
    assert(step_point::<Result<Value, RuntimeError>, H>(Ok::<Value, RuntimeError>(h), envm, hostm)
        == (Ok::<Value, RuntimeError>(h), envm, hostm));
}

proof fn lemma_dispatch_args_err<H: Host>(
    b: Builtin,
    t: List,
    env0: Scope,
    envm: Scope,
    host0: H,
    hostm: H,
    e: RuntimeError,
)
    requires
        b.do_eval,
        list_eval_post::<H>(t, env0, envm, host0, hostm, Err::<Seq<Value>, RuntimeError>(e)),
    ensures
        dispatch_post::<H>(Value::Builtin(b), t, env0, envm, host0, hostm, Err::<
            Value,
            RuntimeError,
        >(e)),
{
    assert(step_point::<Result<Seq<Value>, RuntimeError>, H>(
        Err::<Seq<Value>, RuntimeError>(e),
        envm,
        hostm,
    ) == (Err::<Seq<Value>, RuntimeError>(e), envm, hostm));
}

proof fn lemma_dispatch_args_ok<H: Host>(
    b: Builtin,
    t: List,
    env0: Scope,
    envm: Scope,
    env1: Scope,
    host0: H,
    hostm: H,
    host1: H,
    args: Seq<Value>,
    r: Result<Value, RuntimeError>,
)
    requires
        b.do_eval,
        list_eval_post::<H>(t, env0, envm, host0, hostm, Ok::<Seq<Value>, RuntimeError>(args)),
        H::builtin_post(hostm, host1, b, args, envm, env1, r),
    ensures
        dispatch_post::<H>(Value::Builtin(b), t, env0, env1, host0, host1, r),
{
    assert(step_point::<Result<Seq<Value>, RuntimeError>, H>(
        Ok::<Seq<Value>, RuntimeError>(args),
        envm,
        hostm,
    ) == (Ok::<Seq<Value>, RuntimeError>(args), envm, hostm));
}

/// Two lists are equal exactly when they have the same length and
/// pairwise-equal elements in order.
pub proof fn lemma_list_eq_elementwise(a: List, b: List)
    ensures
        list_eq(a, b) <==> (a@.len() == b@.len() && (forall|i: int|
            0 <= i < a@.len() ==> value_eq(a@[i], b@[i]))),
    decreases a,
{
    if a is Node && b is Node {
        lemma_list_eq_elementwise(tail_of(a), tail_of(b));
        assert(a@ == seq![head_of(a)] + tail_of(a)@);
        assert(b@ == seq![head_of(b)] + tail_of(b)@);
        if list_eq(a, b) {
            assert forall|i: int| 0 <= i < a@.len() implies value_eq(a@[i], b@[i]) by {
                if i > 0 {
                    assert(a@[i] == tail_of(a)@[i - 1]);
                    assert(b@[i] == tail_of(b)@[i - 1]);
                }
            }
        } else {
            if a@.len() == b@.len() {
                if !value_eq(head_of(a), head_of(b)) {
                    assert(a@[0] == head_of(a) && b@[0] == head_of(b));
                } else {
                    assert(exists|i: int|
                        0 <= i < tail_of(a)@.len() && !value_eq(tail_of(a)@[i], tail_of(b)@[i]));
                    let i = choose|i: int|
                        0 <= i < tail_of(a)@.len() && !value_eq(tail_of(a)@[i], tail_of(b)@[i]);
                    assert(a@[i + 1] == tail_of(a)@[i] && b@[i + 1] == tail_of(b)@[i]);
                }
            }
        }
    } else if a is Node {
        assert(a@.len() == 1 + tail_of(a)@.len());
    } else if b is Node {
        assert(b@.len() == 1 + tail_of(b)@.len());
    }
}

/// Relies on std's `Rc::clone`: the clone is another handle to the same
/// allocation, hence holds the same value.
#[verifier::external_body]
fn rc_clone(c: &Rc<Cons>) -> (r: Rc<Cons>)
    ensures
        r == *c,
{
    Rc::clone(c)
}

impl Clone for List {
    /// Cloning shares the cons cells rather than copying them, and yields a
    /// list equal to the original.
    fn clone(&self) -> (r: List)
        ensures
            r == *self,
    {
        match self {
            List::End => List::End,
            List::Node(c) => List::Node(rc_clone(c)),
        }
    }
}

impl List {
    /// Prepends one element, returning a new list that shares `cdr` as its
    /// tail; `cdr` itself is not changed.
    pub fn cons(car: Value, cdr: List) -> (r: List)
        ensures
            r matches List::Node(c) && c.car == car && c.cdr == cdr,
            r@ == seq![car] + cdr@,
    {
        List::Node(Rc::new(Cons { car, cdr }))
    }

    /// A fresh iterator positioned at the head of the list.
    pub fn iter<'a>(&'a self) -> (r: ListIter<'a>)
        ensures
            r.remaining() == *self,
    {
        ListIter(self)
    }

    /// Builds a list holding exactly the elements of `vec`, in order.
    pub fn from_vec(vec: Vec<Value>) -> (r: List)
        ensures
            r@ == vec@,
    {
        let n = vec.len();
        let mut i = n;
        let mut l = List::End;
        while i > 0
            invariant
                i <= n,
                n == vec@.len(),
                l@ == vec@.subrange(i as int, n as int),
            decreases i,
        {
            i = i - 1;
            let x = vec[i].clone();
            proof {
                assert(seq![vec@[i as int]] + vec@.subrange(i + 1, n as int) =~= vec@.subrange(
                    i as int,
                    n as int,
                ));
            }
            l = List::cons(x, l);
        }
        proof {
            assert(vec@.subrange(0, n as int) =~= vec@);
        }
        l
    }

    /// Evaluates every element independently, in order, collecting the
    /// results into a new list; the first failure aborts evaluation of all
    /// subsequent elements and becomes the overall result.
    ///
    /// For any list the outcome satisfies `list_eval_post`: environment
    /// and host are threaded through the elements in order, a success
    /// holds each element's result in order, and the first failing
    /// element's error is the overall result, with no later element
    /// taking part. On a list of atomic elements the outcome is moreover
    /// exactly `atomic_eval_elems` and neither the environment nor the
    /// host moves.
    pub fn eval<H: Host>(&self, env: &mut Scope, host: &mut H) -> (r: Result<List, RuntimeError>)
        ensures
            r matches Ok(l2) ==> list_eval_post::<H>(
                *self,
                *old(env),
                *final(env),
                *old(host),
                *final(host),
                Ok::<Seq<Value>, RuntimeError>(l2@),
            ),
            r matches Err(e) ==> list_eval_post::<H>(
                *self,
                *old(env),
                *final(env),
                *old(host),
                *final(host),
                Err::<Seq<Value>, RuntimeError>(e),
            ),
            r matches Ok(l2) ==> l2@.len() == self@.len(),
            all_atomic(self@) ==> (match atomic_eval_elems(self@, *old(env)) {
                Ok(s) => r matches Ok(l2) && l2@ == s && *final(env) == *old(env) && *final(host)
                    == *old(host),
                Err(e) => r == Err::<List, RuntimeError>(e) && *final(env) == *old(env)
                    && *final(host) == *old(host),
            }),
        decreases list_height(*self),
    {
        match self {
            List::End => {
                proof {
                    lemma_list_eval_end::<H>(*old(env), *old(host));
                    assert(list_elems(List::End) =~= Seq::<Value>::empty());
                }
                Ok(List::End)
            },
            List::Node(c) => {
                proof {
                    assert(self@ == seq![c.car] + c.cdr@);
                    assert(head_of(*self) == c.car && tail_of(*self) == c.cdr);
                    if all_atomic(self@) {
                        assert(atomic(self@[0]));
                        assert forall|i: int| 0 <= i < c.cdr@.len() implies atomic(
                            #[trigger] c.cdr@[i],
                        ) by {
                            assert(c.cdr@[i] == self@[i + 1]);
                        }
                        assert(self@.drop_first() =~= c.cdr@);
                    }
                }
                let vr = c.car.eval(env, host);
                let ghost envm = *env;
                let ghost hostm = *host;
                match vr {
                    Err(e) => {
                        proof {
                            lemma_list_eval_head_err::<H>(
                                *self,
                                *old(env),
                                envm,
                                *old(host),
                                hostm,
                                e,
                            );
                        }
                        Err(e)
                    },
                    Ok(v) => {
                        let rr = c.cdr.eval(env, host);
                        match rr {
                            Err(e) => {
                                proof {
                                    lemma_list_eval_step::<H>(
                                        *self,
                                        *old(env),
                                        envm,
                                        *env,
                                        *old(host),
                                        hostm,
                                        *host,
                                        v,
                                        Err::<Seq<Value>, RuntimeError>(e),
                                        Err::<Seq<Value>, RuntimeError>(e),
                                    );
                                }
                                Err(e)
                            },
                            Ok(rest) => {
                                proof {
                                    if all_atomic(self@) {
                                        assert((seq![v] + rest@).drop_first() =~= rest@);
                                    }
                                    lemma_list_eval_step::<H>(
                                        *self,
                                        *old(env),
                                        envm,
                                        *env,
                                        *old(host),
                                        hostm,
                                        *host,
                                        v,
                                        Ok::<Seq<Value>, RuntimeError>(rest@),
                                        Ok::<Seq<Value>, RuntimeError>(seq![v] + rest@),
                                    );
                                }
                                Ok(List::cons(v, rest))
                            },
                        }
                    },
                }
            },
        }
    }

    /// Evaluates every element in order, discarding all results but the
    /// last, which becomes the overall result; the empty list yields `Nil`.
    /// The first failure aborts the remaining elements.
    ///
    /// For any list the outcome satisfies `eval_last_post`: environment
    /// and host are threaded through the elements in order and the first
    /// failure aborts the remaining elements. On a list of atomic
    /// elements the outcome is moreover exactly `atomic_eval_last` and
    /// neither the environment nor the host moves.
    pub fn eval_to_value<H: Host>(&self, env: &mut Scope, host: &mut H) -> (r: Result<
        Value,
        RuntimeError,
    >)
        ensures
            eval_last_post::<H>(*self, *old(env), *final(env), *old(host), *final(host), r),
            all_atomic(self@) ==> r == atomic_eval_last(self@, *old(env)) && *final(env) == *old(
                env,
            ) && *final(host) == *old(host),
        decreases list_height(*self),
    {
        match self {
            List::End => {
                proof {
                    lemma_eval_last_end::<H>(*old(env), *old(host));
                }
                Ok(Value::Nil)
            },
            List::Node(c) => {
                proof {
                    assert(self@ == seq![c.car] + c.cdr@);
                    assert(head_of(*self) == c.car && tail_of(*self) == c.cdr);
                    if all_atomic(self@) {
                        assert(atomic(self@[0]));
                        assert forall|i: int| 0 <= i < c.cdr@.len() implies atomic(
                            #[trigger] c.cdr@[i],
                        ) by {
                            assert(c.cdr@[i] == self@[i + 1]);
                        }
                        assert(self@.drop_first() =~= c.cdr@);
                        assert(c.cdr@.len() == 0 ==> self@.len() == 1);
                    }
                }
                let vr = c.car.eval(env, host);
                let ghost envm = *env;
                let ghost hostm = *host;
                match vr {
                    Err(e) => {
                        proof {
                            lemma_eval_last_head_err::<H>(
                                *self,
                                *old(env),
                                envm,
                                *old(host),
                                hostm,
                                e,
                            );
                        }
                        Err(e)
                    },
                    Ok(v) => match &c.cdr {
                        List::End => {
                            proof {
                                lemma_eval_last_single::<H>(
                                    *self,
                                    *old(env),
                                    envm,
                                    *old(host),
                                    hostm,
                                    v,
                                );
                            }
                            Ok(v)
                        },
                        List::Node(_) => {
                            let rr = c.cdr.eval_to_value(env, host);
                            proof {
                                lemma_eval_last_step::<H>(
                                    *self,
                                    *old(env),
                                    envm,
                                    *env,
                                    *old(host),
                                    hostm,
                                    *host,
                                    v,
                                    rr,
                                );
                            }
                            rr
                        },
                    },
                }
            },
        }
    }

    fn fold_ref<T, F: Fn(T, Value) -> Result<T, RuntimeError>>(&self, acc: T, f: &F) -> (r:
        Result<T, RuntimeError>)
        requires
            forall|a: T, v: Value| call_requires(*f, (a, v)),
        ensures
            folds_to(*f, acc, self@, r),
        decreases list_height(*self),
    {
        match self {
            List::End => Ok(acc),
            List::Node(c) => {
                proof {
                    assert(self@ == seq![c.car] + c.cdr@);
                    assert(self@.drop_first() =~= c.cdr@);
                }
                let v = c.car.clone();
                match f(acc, v) {
                    Err(e) => Err(e),
                    Ok(acc2) => c.cdr.fold_ref(acc2, f),
                }
            },
        }
    }

    /// Applies `f` left-to-right over the elements, threading an
    /// accumulator from `init`; stops at the first failure `f` returns and
    /// propagates it, without applying `f` to the remaining elements.
    pub fn fold<T, F: Fn(T, Value) -> Result<T, RuntimeError>>(&self, init: T, f: F) -> (r: Result<
        T,
        RuntimeError,
    >)
        requires
            forall|a: T, v: Value| call_requires(f, (a, v)),
        ensures
            folds_to(f, init, self@, r),
    {
        self.fold_ref(init, &f)
    }

    /// Applies this list as a function call: the empty list yields `Nil`;
    /// otherwise the head is evaluated to obtain the callable, a builtin
    /// receives the tail evaluated or raw according to its policy flag, a
    /// lambda receives the raw tail, and any other head fails with
    /// `InvalidCall`. `call_post` carries all of it, for any head.
    pub fn call<H: Host>(&self, env: &mut Scope, host: &mut H) -> (r: Result<Value, RuntimeError>)
        ensures
            call_post::<H>(*self, *old(env), *final(env), *old(host), *final(host), r),
        decreases list_height(*self),
    {
        match self {
            List::End => {
                proof {
                    lemma_call_end::<H>(*old(env), *old(host));
                }
                Ok(Value::Nil)
            },
            List::Node(c) => {
                proof {
                    assert(head_of(*self) == c.car && tail_of(*self) == c.cdr);
                }
                let hr = c.car.eval(env, host);
                let ghost envm = *env;
                let ghost hostm = *host;
                match hr {
                    Err(e) => {
                        proof {
                            lemma_call_head_err::<H>(*self, *old(env), envm, *old(host), hostm, e);
                        }
                        Err(e)
                    },
                    Ok(head) => {
                        match head {
                            Value::Builtin(b) => {
                                if b.do_eval {
                                    let ar = c.cdr.eval(env, host);
                                    let ghost envm2 = *env;
                                    let ghost hostm2 = *host;
                                    match ar {
                                        Err(e) => {
                                            proof {
                                                lemma_dispatch_args_err::<H>(
                                                    b,
                                                    tail_of(*self),
                                                    envm,
                                                    envm2,
                                                    hostm,
                                                    hostm2,
                                                    e,
                                                );
                                                lemma_call_dispatch::<H>(
                                                    *self,
                                                    *old(env),
                                                    envm,
                                                    envm2,
                                                    *old(host),
                                                    hostm,
                                                    hostm2,
                                                    Value::Builtin(b),
                                                    Err::<Value, RuntimeError>(e),
                                                );
                                            }
                                            Err(e)
                                        },
                                        Ok(args) => {
                                            let rr = host.call_builtin(&b, &args, env);
                                            proof {
                                                lemma_dispatch_args_ok::<H>(
                                                    b,
                                                    tail_of(*self),
                                                    envm,
                                                    envm2,
                                                    *env,
                                                    hostm,
                                                    hostm2,
                                                    *host,
                                                    args@,
                                                    rr,
                                                );
                                                lemma_call_dispatch::<H>(
                                                    *self,
                                                    *old(env),
                                                    envm,
                                                    *env,
                                                    *old(host),
                                                    hostm,
                                                    *host,
                                                    Value::Builtin(b),
                                                    rr,
                                                );
                                            }
                                            rr
                                        },
                                    }
                                } else {
                                    let rr = host.call_builtin(&b, &c.cdr, env);
                                    proof {
                                        assert(dispatch_post::<H>(
                                            Value::Builtin(b),
                                            tail_of(*self),
                                            envm,
                                            *env,
                                            hostm,
                                            *host,
                                            rr,
                                        ));
                                        lemma_call_dispatch::<H>(
                                            *self,
                                            *old(env),
                                            envm,
                                            *env,
                                            *old(host),
                                            hostm,
                                            *host,
                                            Value::Builtin(b),
                                            rr,
                                        );
                                    }
                                    rr
                                }
                            },
                            Value::Lambda(f) => {
                                let rr = host.call_lambda(&f, &c.cdr, env);
                                proof {
                                    assert(dispatch_post::<H>(
                                        Value::Lambda(f),
                                        tail_of(*self),
                                        envm,
                                        *env,
                                        hostm,
                                        *host,
                                        rr,
                                    ));
                                    lemma_call_dispatch::<H>(
                                        *self,
                                        *old(env),
                                        envm,
                                        *env,
                                        *old(host),
                                        hostm,
                                        *host,
                                        Value::Lambda(f),
                                        rr,
                                    );
                                }
                                rr
                            },
                            _ => {
                                let tag = head.type_tag();
                                let err = RuntimeError::InvalidCall(tag.to_owned());
                                proof {
                                    assert(dispatch_post::<H>(
                                        head,
                                        tail_of(*self),
                                        envm,
                                        *env,
                                        hostm,
                                        *host,
                                        Err::<Value, RuntimeError>(err),
                                    ));
                                    lemma_call_dispatch::<H>(
                                        *self,
                                        *old(env),
                                        envm,
                                        *env,
                                        *old(host),
                                        hostm,
                                        *host,
                                        head,
                                        Err::<Value, RuntimeError>(err),
                                    );
                                }
                                Err(err)
                            },
                        }
                    },
                }
            },
        }
    }
}

/// A lazy iterator over the elements of a list, yielding each element by
/// value (cloned, not referenced), in list order, until `End` is reached.
#[derive(Clone)]
pub struct ListIter<'a>(&'a List);

impl<'a> ListIter<'a> {
    /// The part of the list not yet yielded.
    pub closed spec fn remaining(self) -> List {
        *self.0
    }

    /// Yields the next element, or `None` once the end is reached.
    pub fn next(&mut self) -> (r: Option<Value>)
        ensures
            (match old(self).remaining() {
                List::Node(c) => r == Some(c.car) && final(self).remaining() == c.cdr,
                List::End => r == None::<Value> && final(self).remaining() == List::End,
            }),
    {
        let cur: &'a List = self.0;
        match cur {
            List::Node(c) => {
                self.0 = &c.cdr;
                Some(c.car.clone())
            },
            List::End => None,
        }
    }
}

} // verus!
