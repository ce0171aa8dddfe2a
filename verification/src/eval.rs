use vstd::prelude::*;
use crate::error::Error;
use crate::heap::Heap;
use crate::names::NamePool;
use crate::value::{model_seq, Value, ValueModel};

verus! {

/// An opaque, cheaply copyable handle to a lexical environment. The core
/// never looks inside one; the evaluator mints them and interprets them.
pub type EnvId = u64;

/// The narrow boundary to the expression evaluator. The core depends on it
/// abstractly: forcing a lazy cell and applying a user closure are delegated
/// through this trait, which breaks the otherwise cyclic dependency between
/// the runtime core and the evaluator.
///
/// From the core's point of view evaluation is pure: what a call returns is
/// determined by the evaluator's state, the expression and the environment
/// (`eval_spec`, `apply_spec`). The name pool may only grow, and existing
/// heap cells keep their indices, so every name and box stays meaningful.
///
/// An implementation must also justify, through `force_metric`, that forcing
/// chains it produces are finite: each step strictly shrinks the metric, so
/// eager materialization of a chain terminates.
pub trait Evaluator {
    /// What forcing `tail` in `env` yields. The default describes an
    /// evaluator whose every forcing step ends the chain.
    open spec fn eval_spec(&self, tail: ValueModel, env: int) -> Result<ValueModel, ()> {
        Ok(ValueModel::Nil)
    }

    /// What applying callable `f` to `args` yields. The default describes an
    /// evaluator that refuses every application.
    open spec fn apply_spec(&self, f: ValueModel, args: Seq<ValueModel>) -> Result<ValueModel, ()> {
        Err(())
    }

    /// An upper bound on the remaining length of the forcing chain starting
    /// at `tail` in `env`.
    open spec fn force_metric(&self, tail: ValueModel, env: int) -> nat {
        0
    }

    /// Forces one step: evaluates `tail` in `env`. A step that continues
    /// the chain strictly shrinks the chain metric, so eager materialization
    /// terminates.
    fn eval(&self, tail: &Value, env: EnvId, pool: &mut NamePool, heap: &mut Heap)
        -> (r: Result<Value, Error>)
        requires
            old(pool).wf(),
        ensures
            final(pool).wf(),
            old(pool)@.is_prefix_of(final(pool)@),
            old(heap)@.len() <= final(heap)@.len(),
            (match r {
                Ok(val) => self.eval_spec(tail@, env as int) == Ok::<ValueModel, ()>(val@),
                Err(_) => self.eval_spec(tail@, env as int) is Err,
            }),
            (match self.eval_spec(tail@, env as int) {
                Ok(ValueModel::Lazy { tail: t2, env: e2, .. }) =>
                    self.force_metric(*t2, e2) < self.force_metric(tail@, env as int),
                _ => true,
            }),
    ;

    /// Applies a callable value to already-evaluated arguments.
    fn apply(&self, f: &Value, args: Vec<Value>, pool: &mut NamePool, heap: &mut Heap)
        -> (r: Result<Value, Error>)
        requires
            old(pool).wf(),
        ensures
            final(pool).wf(),
            old(pool)@.is_prefix_of(final(pool)@),
            old(heap)@.len() <= final(heap)@.len(),
            (match r {
                Ok(val) => self.apply_spec(f@, model_seq(args@)) == Ok::<ValueModel, ()>(val@),
                Err(_) => self.apply_spec(f@, model_seq(args@)) is Err,
            }),
    ;
}

/// The evaluator that evaluates nothing: every forcing step ends the chain
/// with `Nil` and every application is refused. Useful wherever the lazy and
/// closure machinery is not in play.
pub struct InertEvaluator {}

impl Evaluator for InertEvaluator {
    open spec fn eval_spec(&self, tail: ValueModel, env: int) -> Result<ValueModel, ()> {
        Ok(ValueModel::Nil)
    }

    open spec fn apply_spec(&self, f: ValueModel, args: Seq<ValueModel>) -> Result<ValueModel, ()> {
        Err(())
    }

    open spec fn force_metric(&self, tail: ValueModel, env: int) -> nat {
        0
    }

    fn eval(&self, tail: &Value, env: EnvId, pool: &mut NamePool, heap: &mut Heap)
        -> (r: Result<Value, Error>)
    {
        Ok(Value::Nil)
    }

    fn apply(&self, f: &Value, args: Vec<Value>, pool: &mut NamePool, heap: &mut Heap)
        -> (r: Result<Value, Error>)
    {
        Err(crate::error::domain_error("no evaluator is attached"))
    }
}

} // verus!
