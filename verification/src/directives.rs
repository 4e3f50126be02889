//! Custom directives and the middleware chains around them.
//!
//! A field directive runs [`OnFieldDefinition::before_field_resolve`] ahead of
//! the field's resolver and [`OnFieldDefinition::after_field_resolve`] after
//! it; both phases walk the declared directive list left to right — an
//! explicit design choice of predictable left-to-right composition over
//! reversed, onion-style middleware. Either phase stops at its first failure.
//! An input directive runs [`OnInputValue::input_value`] over an already
//! coerced argument or input-object field; the declared validators run in
//! order and the chain stops at the first rejection.

use crate::context::ExecutionContext;
use crate::error::FieldError;
use crate::error::FieldErrorV;
use crate::error::FieldResult;
use crate::error::InputValueError;
use crate::error::InputValueResult;
use crate::json::JsonVal;
use crate::json::JsonValue;
use vstd::prelude::*;

verus! {

/// A custom directive on a field: middleware around that field's resolution.
///
/// The two spec functions of each phase say, per context (and per incoming
/// value, for the after phase), whether the hook admits the resolution and
/// what it reports or rewrites; the executable hooks are bound to them, so
/// every implementation documents its own behaviour to the verifier.
pub trait OnFieldDefinition<V> {
    /// Whether the before-hook admits the resolution under this context.
    spec fn before_ok(&self, ctx: &ExecutionContext<V>) -> bool;

    /// The failure the before-hook reports when it refuses.
    spec fn before_error(&self, ctx: &ExecutionContext<V>) -> FieldErrorV;

    /// Called before the field resolves.
    fn before_field_resolve(&self, ctx: &ExecutionContext<V>) -> (r: FieldResult<()>)
        ensures
            (r is Ok) == self.before_ok(ctx),
            r matches Err(e) ==> e@ == self.before_error(ctx),
    ;

    /// Whether the after-hook admits the resolved value under this context.
    spec fn after_ok(&self, ctx: &ExecutionContext<V>, value: JsonVal) -> bool;

    /// The value the after-hook rewrites the resolved value to.
    spec fn after_value(&self, ctx: &ExecutionContext<V>, value: JsonVal) -> JsonVal;

    /// The failure the after-hook reports when it refuses.
    spec fn after_error(&self, ctx: &ExecutionContext<V>, value: JsonVal) -> FieldErrorV;

    /// Called after the field resolved, with the resolved value to inspect or
    /// rewrite in place.
    fn after_field_resolve(&self, ctx: &ExecutionContext<V>, value: &mut JsonValue) -> (r:
        FieldResult<()>)
        ensures
            (r is Ok) == self.after_ok(ctx, old(value)@),
            r is Ok ==> final(value)@ == self.after_value(ctx, old(value)@),
            r matches Err(e) ==> e@ == self.after_error(ctx, old(value)@),
    ;
}

/// A custom directive on an input value: `Object` field arguments and
/// `InputObject` fields are input values.
///
/// The three spec functions say, per already-coerced value, whether the
/// validator accepts it, what it transforms it to, and the reason it gives
/// when it rejects; [`OnInputValue::input_value`] is bound to them.
pub trait OnInputValue<T> {
    /// Whether the validator accepts the coerced value.
    spec fn accepts(&self, value: T) -> bool;

    /// The possibly transformed value it hands on when it accepts.
    spec fn transformed(&self, value: T) -> T;

    /// The reason it reports when it rejects.
    spec fn reason(&self, value: T) -> Seq<char>;

    /// Called when an input value has been coerced.
    fn input_value(&self, value: T) -> (r: InputValueResult<T>)
        ensures
            self.accepts(value) ==> (r matches Ok(v) && v == self.transformed(value)),
            !self.accepts(value) ==> (r matches Err(e) && e matches InputValueError::Custom(m)
                && m@ == self.reason(value)),
    ;
}

/// The directive of a field that declares none: it admits every resolution
/// and leaves every resolved value unchanged.
pub struct NoDirective;

impl<V> OnFieldDefinition<V> for NoDirective {
    open spec fn before_ok(&self, ctx: &ExecutionContext<V>) -> bool {
        true
    }

    open spec fn before_error(&self, ctx: &ExecutionContext<V>) -> FieldErrorV {
        FieldErrorV { message: Seq::<char>::empty(), extensions: None }
    }

    fn before_field_resolve(&self, ctx: &ExecutionContext<V>) -> (r: FieldResult<()>) {
        Ok(())
    }

    open spec fn after_ok(&self, ctx: &ExecutionContext<V>, value: JsonVal) -> bool {
        true
    }

    open spec fn after_value(&self, ctx: &ExecutionContext<V>, value: JsonVal) -> JsonVal {
        value
    }

    open spec fn after_error(&self, ctx: &ExecutionContext<V>, value: JsonVal) -> FieldErrorV {
        FieldErrorV { message: Seq::<char>::empty(), extensions: None }
    }

    fn after_field_resolve(&self, ctx: &ExecutionContext<V>, value: &mut JsonValue) -> (r:
        FieldResult<()>) {
        Ok(())
    }
}

/// Runs the before-hooks of `directives` in declared order, stopping at the
/// first refusal. Returns the outcome and how many hooks ran: on a refusal
/// the refusing hook is the last one that ran, so the later hooks never ran.
pub fn run_before_hooks<V, D: OnFieldDefinition<V>>(
    directives: &Vec<D>,
    ctx: &ExecutionContext<V>,
) -> (r: (FieldResult<()>, usize))
    ensures
        r.1 <= directives@.len(),
        (r.0 is Ok) == (forall|i: int|
            0 <= i < directives@.len() ==> (#[trigger] directives@[i]).before_ok(ctx)),
        r.0 is Ok ==> r.1 == directives@.len(),
        r.0 matches Err(e) ==> {
            &&& 1 <= r.1 <= directives@.len()
            &&& !directives@[r.1 - 1].before_ok(ctx)
            &&& forall|i: int| 0 <= i < r.1 - 1 ==> (#[trigger] directives@[i]).before_ok(ctx)
            &&& e@ == directives@[r.1 - 1].before_error(ctx)
        },
{
    let mut i: usize = 0;
    while i < directives.len()
        invariant
            i <= directives@.len(),
            forall|k: int| 0 <= k < i ==> (#[trigger] directives@[k]).before_ok(ctx),
        decreases directives@.len() - i,
    {
        let outcome = directives[i].before_field_resolve(ctx);
        match outcome {
            Ok(()) => {
                i = i + 1;
            },
            Err(e) => {
                return (Err(e), i + 1);
            },
        }
    }
    (Ok(()), i)
}

/// The value after the first `i` after-hooks ran in declared order, or the
/// failure of the first one that refused.
pub open spec fn after_chain<V, D: OnFieldDefinition<V>>(
    ds: Seq<D>,
    ctx: &ExecutionContext<V>,
    v: JsonVal,
    i: int,
) -> Result<JsonVal, FieldErrorV>
    decreases i,
{
    if i <= 0 {
        Ok(v)
    } else {
        match after_chain(ds, ctx, v, i - 1) {
            Ok(cur) => if ds[i - 1].after_ok(ctx, cur) {
                Ok(ds[i - 1].after_value(ctx, cur))
            } else {
                Err(ds[i - 1].after_error(ctx, cur))
            },
            Err(e) => Err(e),
        }
    }
}

/// An after-chain that reached step `i` intact was intact at every earlier
/// step.
pub proof fn lemma_after_chain_prefix_ok<V, D: OnFieldDefinition<V>>(
    ds: Seq<D>,
    ctx: &ExecutionContext<V>,
    v: JsonVal,
    i: int,
    j: int,
)
    requires
        0 <= j <= i,
        after_chain(ds, ctx, v, i) is Ok,
    ensures
        after_chain(ds, ctx, v, j) is Ok,
    decreases i - j,
{
    if j < i {
        lemma_after_chain_prefix_ok(ds, ctx, v, i - 1, j);
    }
}

/// An after-chain keeps the failure it stopped at, however many hooks follow.
pub proof fn lemma_after_chain_err_persists<V, D: OnFieldDefinition<V>>(
    ds: Seq<D>,
    ctx: &ExecutionContext<V>,
    v: JsonVal,
    i: int,
    m: int,
)
    requires
        0 <= i <= m,
        after_chain(ds, ctx, v, i) is Err,
    ensures
        after_chain(ds, ctx, v, m) == after_chain(ds, ctx, v, i),
    decreases m - i,
{
    if i < m {
        lemma_after_chain_err_persists(ds, ctx, v, i, m - 1);
    }
}

/// Runs the after-hooks of `directives` in declared, non-reversed order over
/// the resolved value, stopping at the first refusal. Returns the outcome and
/// how many hooks ran.
pub fn run_after_hooks<V, D: OnFieldDefinition<V>>(
    directives: &Vec<D>,
    ctx: &ExecutionContext<V>,
    value: &mut JsonValue,
) -> (r: (FieldResult<()>, usize))
    ensures
        r.1 <= directives@.len(),
        (r.0 is Ok) == (after_chain(directives@, ctx, old(value)@, directives@.len() as int)
            is Ok),
        r.0 is Ok ==> r.1 == directives@.len() && after_chain(
            directives@,
            ctx,
            old(value)@,
            directives@.len() as int,
        ) == Ok::<JsonVal, FieldErrorV>(final(value)@),
        r.0 matches Err(e) ==> {
            &&& 1 <= r.1 <= directives@.len()
            &&& after_chain(directives@, ctx, old(value)@, r.1 as int) == Err::<
                JsonVal,
                FieldErrorV,
            >(e@)
            &&& forall|j: int|
                0 <= j < r.1 ==> after_chain(directives@, ctx, old(value)@, j) is Ok
        },
{
    let ghost v0 = value@;
    let mut i: usize = 0;
    while i < directives.len()
        invariant
            v0 == old(value)@,
            i <= directives@.len(),
            after_chain(directives@, ctx, v0, i as int) == Ok::<JsonVal, FieldErrorV>(value@),
        decreases directives@.len() - i,
    {
        let ghost before = value@;
        let outcome = directives[i].after_field_resolve(ctx, value);
        match outcome {
            Ok(()) => {
                proof {
                    assert(after_chain(directives@, ctx, v0, i as int + 1) == Ok::<
                        JsonVal,
                        FieldErrorV,
                    >(value@));
                }
                i = i + 1;
            },
            Err(e) => {
                proof {
                    assert(after_chain(directives@, ctx, v0, i as int + 1) == Err::<
                        JsonVal,
                        FieldErrorV,
                    >(e@));
                    lemma_after_chain_err_persists(
                        directives@,
                        ctx,
                        v0,
                        i as int + 1,
                        directives@.len() as int,
                    );
                    assert forall|j: int| 0 <= j < i + 1 implies after_chain(
                        directives@,
                        ctx,
                        v0,
                        j,
                    ) is Ok by {
                        lemma_after_chain_prefix_ok(directives@, ctx, v0, i as int, j);
                    }
                }
                return (Err(e), i + 1);
            },
        }
    }
    (Ok(()), i)
}

/// Law: after-hooks compose left to right, in declared and not reversed
/// order. When both hooks of a two-hook chain admit their values, the chain's
/// result is the second hook's rewrite of the first hook's rewrite — never
/// the other way around.
pub proof fn lemma_after_hooks_left_to_right<V, D: OnFieldDefinition<V>>(
    ds: Seq<D>,
    ctx: &ExecutionContext<V>,
    v: JsonVal,
)
    requires
        ds.len() == 2,
        ds[0].after_ok(ctx, v),
        ds[1].after_ok(ctx, ds[0].after_value(ctx, v)),
    ensures
        after_chain(ds, ctx, v, 2) == Ok::<JsonVal, FieldErrorV>(
            ds[1].after_value(ctx, ds[0].after_value(ctx, v)),
        ),
{
    assert(after_chain(ds, ctx, v, 0) == Ok::<JsonVal, FieldErrorV>(v));
    assert(after_chain(ds, ctx, v, 1) == Ok::<JsonVal, FieldErrorV>(ds[0].after_value(ctx, v)));
}

/// The value after the first `i` validators ran in declared order, or the
/// reason of the first one that rejected.
pub open spec fn chain_value<T, D: OnInputValue<T>>(vs: Seq<D>, value: T, i: int) -> Result<
    T,
    Seq<char>,
>
    decreases i,
{
    if i <= 0 {
        Ok(value)
    } else {
        match chain_value(vs, value, i - 1) {
            Ok(cur) => if vs[i - 1].accepts(cur) {
                Ok(vs[i - 1].transformed(cur))
            } else {
                Err(vs[i - 1].reason(cur))
            },
            Err(m) => Err(m),
        }
    }
}

/// A validator chain that reached step `i` intact was intact at every earlier
/// step.
pub proof fn lemma_chain_prefix_ok<T, D: OnInputValue<T>>(vs: Seq<D>, value: T, i: int, j: int)
    requires
        0 <= j <= i,
        chain_value(vs, value, i) is Ok,
    ensures
        chain_value(vs, value, j) is Ok,
    decreases i - j,
{
    if j < i {
        lemma_chain_prefix_ok(vs, value, i - 1, j);
    }
}

/// A validator chain keeps the rejection it stopped at, however many
/// validators follow.
pub proof fn lemma_chain_err_persists<T, D: OnInputValue<T>>(vs: Seq<D>, value: T, i: int, m: int)
    requires
        0 <= i <= m,
        chain_value(vs, value, i) is Err,
    ensures
        chain_value(vs, value, m) == chain_value(vs, value, i),
    decreases m - i,
{
    if i < m {
        lemma_chain_err_persists(vs, value, i, m - 1);
    }
}

/// Law: the validator chain short-circuits. Once the first validator rejects
/// a value, the chain's verdict is that rejection whatever validators follow;
/// and a run whose first `invoked` steps were all intact, as
/// [`run_validators`] guarantees of the validators it invoked before the
/// rejecting one, invoked no validator beyond the first — the second
/// validator never runs once the first rejects.
pub proof fn lemma_chain_short_circuits<T, D: OnInputValue<T>>(
    vs: Seq<D>,
    value: T,
    i: int,
    invoked: int,
)
    requires
        vs.len() >= 1,
        !vs[0].accepts(value),
        1 <= i <= vs.len(),
        1 <= invoked <= vs.len(),
        forall|j: int| 0 <= j < invoked ==> chain_value(vs, value, j) is Ok,
    ensures
        chain_value(vs, value, i) == Err::<T, Seq<char>>(vs[0].reason(value)),
        invoked == 1,
{
    assert(chain_value(vs, value, 0) == Ok::<T, Seq<char>>(value));
    assert(chain_value(vs, value, 1) == Err::<T, Seq<char>>(vs[0].reason(value)));
    lemma_chain_err_persists(vs, value, 1, i);
    if invoked > 1 {
        assert(chain_value(vs, value, 1) is Ok);
    }
}

/// Runs the validators of `validators` in declared order over an already
/// coerced value, stopping at the first rejection. Returns the verdict and
/// how many validators ran: on a rejection the rejecting validator is the
/// last one that ran, so the later validators never ran.
pub fn run_validators<T, D: OnInputValue<T>>(validators: &Vec<D>, value: T) -> (r: (
    InputValueResult<T>,
    usize,
))
    ensures
        r.1 <= validators@.len(),
        (r.0 is Ok) == (chain_value(validators@, value, validators@.len() as int) is Ok),
        r.0 matches Ok(v) ==> r.1 == validators@.len() && chain_value(
            validators@,
            value,
            validators@.len() as int,
        ) == Ok::<T, Seq<char>>(v),
        r.0 matches Err(e) ==> {
            &&& 1 <= r.1 <= validators@.len()
            &&& e matches InputValueError::Custom(m) && chain_value(
                validators@,
                value,
                r.1 as int,
            ) == Err::<T, Seq<char>>(m@)
            &&& forall|j: int| 0 <= j < r.1 ==> chain_value(validators@, value, j) is Ok
        },
{
    let ghost v0 = value;
    let mut cur = value;
    let mut i: usize = 0;
    while i < validators.len()
        invariant
            v0 == value,
            i <= validators@.len(),
            chain_value(validators@, v0, i as int) == Ok::<T, Seq<char>>(cur),
        decreases validators@.len() - i,
    {
        let ghost before = cur;
        let outcome = validators[i].input_value(cur);
        match outcome {
            Ok(v) => {
                proof {
                    assert(chain_value(validators@, v0, i as int + 1) == Ok::<T, Seq<char>>(v));
                }
                cur = v;
                i = i + 1;
            },
            Err(e) => {
                proof {
                    assert(chain_value(validators@, v0, i as int + 1) == Err::<T, Seq<char>>(
                        validators@[i as int].reason(before),
                    ));
                    lemma_chain_err_persists(
                        validators@,
                        v0,
                        i as int + 1,
                        validators@.len() as int,
                    );
                    assert forall|j: int| 0 <= j < i + 1 implies chain_value(
                        validators@,
                        v0,
                        j,
                    ) is Ok by {
                        lemma_chain_prefix_ok(validators@, v0, i as int, j);
                    }
                }
                return (Err(e), i + 1);
            },
        }
    }
    (Ok(cur), i)
}

} // verus!
