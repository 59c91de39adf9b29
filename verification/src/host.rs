use vstd::prelude::*;

use crate::list::List;
use crate::scope::Scope;
use crate::value::{Builtin, Lambda, RuntimeError, Value};

verus! {

/// The embedder's side of a call: the native behaviour of builtins and the
/// application of user-defined lambdas. The evaluator owns the dispatch
/// policy — which callable is invoked, and whether it sees an evaluated or
/// a raw argument list — while an implementation of this trait owns what
/// each callable then does.
///
/// Each implementation describes its callables with the two relations
/// `builtin_post` and `lambda_post`; the evaluator's contracts propagate
/// them, so whatever an implementation can promise of its callables carries
/// through to whole calls.
pub trait Host: Sized {
    /// What an invocation of the native routine of builtin `b` can do:
    /// relates the host and environment before and after, the argument
    /// list handed over (already evaluated when `b.do_eval`, raw
    /// otherwise), and the outcome. The default promises nothing; an
    /// implementation overrides it with what its callables guarantee.
    open spec fn builtin_post(
        pre: Self,
        post: Self,
        b: Builtin,
        args: Seq<Value>,
        env_pre: Scope,
        env_post: Scope,
        r: Result<Value, RuntimeError>,
    ) -> bool {
        true
    }

    /// What applying lambda `f` can do: relates the host and environment
    /// before and after, the raw argument forms, and the outcome. Lambdas
    /// evaluate their arguments exactly once, in order, bind them in a
    /// fresh scope chained to the captured one, and run their body there;
    /// that convention is the implementor's obligation. The default
    /// promises nothing.
    open spec fn lambda_post(
        pre: Self,
        post: Self,
        f: Lambda,
        args: Seq<Value>,
        env_pre: Scope,
        env_post: Scope,
        r: Result<Value, RuntimeError>,
    ) -> bool {
        true
    }

    /// Runs the native routine of `b` on the argument list `args`.
    fn call_builtin(&mut self, b: &Builtin, args: &List, env: &mut Scope) -> (r: Result<
        Value,
        RuntimeError,
    >)
        ensures
            Self::builtin_post(*old(self), *final(self), *b, args@, *old(env), *final(env), r),
    ;

    /// Applies the lambda `f` to the raw argument forms `args`.
    fn call_lambda(&mut self, f: &Lambda, args: &List, env: &mut Scope) -> (r: Result<
        Value,
        RuntimeError,
    >)
        ensures
            Self::lambda_post(*old(self), *final(self), *f, args@, *old(env), *final(env), r),
    ;
}

} // verus!
