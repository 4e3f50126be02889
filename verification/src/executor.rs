//! The execution engine.
//!
//! An executable unit pairs a builder (variables, context data) with what the
//! external parser handed back: a position-annotated operation tree, or the
//! parser's or validator's own errors, consumed verbatim. Execution resolves
//! the tree top-down. At each field the declared directives' before-hooks run
//! in order; then the resolver, consulting the validator chain for its
//! arguments; then the after-hooks, in the same non-reversed order. The first
//! failure anywhere is recorded as the request's one error, positioned at the
//! failing field (or at the offending input value) — the response envelope
//! carries either data or errors, never both, so a field error propagates to
//! the root and in-flight work below it is discarded unreported.

use crate::context::ExecutionContext;
use crate::context::path_json;
use crate::context::PathNode;
use crate::context::PathSegment;
use crate::context::PathSegV;
use crate::directives::after_chain;
use crate::directives::run_after_hooks;
use crate::directives::run_before_hooks;
use crate::directives::OnFieldDefinition;
use crate::error::Error;
use crate::error::ErrorV;
use crate::error::FieldError;
use crate::error::FieldErrorV;
use crate::error::ParseError;
use crate::error::Pos;
use crate::error::QueryError;
use crate::error::QueryErrorV;
use crate::error::RuleError;
use crate::json::json_val_of;
use crate::json::JsonVal;
use crate::json::JsonValue;
use crate::directives::chain_value;
use crate::directives::run_validators;
use crate::directives::OnInputValue;
use crate::error::InputValueError;
use crate::query::obj_lookup;
use crate::query::QueryBuilder;
use crate::query::QueryBuilderTypes;
use crate::query::BatchQueryBuilder;
use crate::query::Variables;
use crate::response::outcome_view;
use crate::response::BatchQueryResponse;
use crate::response::QueryResponse;
use crate::response::QueryResponseV;
use vstd::prelude::*;
use vstd::string::StringExecFns;

verus! {

/// An input value as the parser annotated it: a coerced scalar or an input
/// object whose fields each carry their own position.
#[derive(Debug, PartialEq)]
pub enum InputNode {
    /// An already coerced value.
    Value(JsonValue),
    /// An input object literal, each field at its own position.
    Object(Vec<InputField>),
}

/// One field of an input object literal.
#[derive(Debug, PartialEq)]
pub struct InputField {
    pub name: String,
    pub pos: Pos,
    pub value: InputNode,
}

/// The mathematical form of an input value.
#[verifier::ext_equal]
pub enum InputNodeV {
    Value(JsonVal),
    Object(Seq<InputFieldV>),
}

/// The mathematical form of an input-object field.
#[verifier::ext_equal]
pub struct InputFieldV {
    pub name: Seq<char>,
    pub pos: Pos,
    pub value: InputNodeV,
}

/// The mathematical form of an executable input value.
pub open spec fn input_node_view(n: InputNode) -> InputNodeV
    decreases n,
    via input_node_view_decreases
{
    match n {
        InputNode::Value(v) => InputNodeV::Value(json_val_of(v)),
        InputNode::Object(fields) => InputNodeV::Object(
            Seq::new(
                fields@.len(),
                |i: int|
                    if 0 <= i < fields@.len() {
                        InputFieldV {
                            name: fields@[i].name@,
                            pos: fields@[i].pos,
                            value: input_node_view(fields@[i].value),
                        }
                    } else {
                        InputFieldV { name: Seq::<char>::empty(), pos: Pos { line: 0, column: 0 }, value: InputNodeV::Value(JsonVal::Null) }
                    },
            ),
        ),
    }
}

#[via_fn]
proof fn input_node_view_decreases(n: InputNode) {
    match n {
        InputNode::Object(fields) => {
            assert forall|i: int| 0 <= i < fields@.len() implies decreases_to!(
                n => fields@[i].value,
            ) by {
                assert(decreases_to!(n => fields));
                assert(decreases_to!(fields => fields@));
                assert(decreases_to!(fields@ => fields@[i]));
                assert(decreases_to!(fields@[i] => fields@[i].value));
            }
        },
        _ => {},
    }
}

impl View for InputNode {
    type V = InputNodeV;

    open spec fn view(&self) -> InputNodeV {
        input_node_view(*self)
    }
}

impl InputNode {
    /// A structural copy.
    pub fn duplicate(&self) -> (r: InputNode)
        ensures
            r@ == self@,
        decreases self,
    {
        match self {
            InputNode::Value(v) => InputNode::Value(v.duplicate()),
            InputNode::Object(fields) => {
                let mut out: Vec<InputField> = Vec::new();
                let mut i: usize = 0;
                while i < fields.len()
                    invariant
                        *self matches InputNode::Object(fs) && fs == *fields,
                        i <= fields@.len(),
                        out@.len() == i,
                        forall|k: int|
                            0 <= k < i ==> (#[trigger] out@[k]).name@ == fields@[k].name@
                                && out@[k].pos == fields@[k].pos && input_node_view(out@[k].value)
                                == input_node_view(fields@[k].value),
                    decreases fields@.len() - i,
                {
                    proof {
                        assert(decreases_to!(*self => (*self)->Object_0));
                        assert(*fields == (*self)->Object_0);
                        assert(decreases_to!(*fields => fields@));
                        assert(decreases_to!(fields@ => fields@[i as int]));
                        assert(decreases_to!(fields@[i as int] => fields@[i as int].value));
                    }
                    let f = &fields[i];
                    let copy = InputField {
                        name: f.name.clone(),
                        pos: f.pos,
                        value: f.value.duplicate(),
                    };
                    out.push(copy);
                    i = i + 1;
                }
                let r = InputNode::Object(out);
                proof {
                    assert(r@ is Object && self@ is Object);
                    assert(r@->Object_0.len() == self@->Object_0.len());
                    assert forall|k: int| 0 <= k < self@->Object_0.len() implies r@->Object_0[k]
                        == self@->Object_0[k] by {
                        assert(r@->Object_0[k] =~~= self@->Object_0[k]);
                    }
                    assert(r@->Object_0 =~= self@->Object_0);
                    assert(r@ =~~= self@);
                }
                r
            },
        }
    }

    /// Reads the field an input object holds under a name, with its own
    /// position; the first declaration wins.
    pub fn object_field<'a>(&'a self, name: &String) -> (r: Option<&'a InputField>)
        ensures
            match r {
                Some(f) => self@ matches InputNodeV::Object(fs) && first_field(fs, name@)
                    == Some(InputFieldV { name: f.name@, pos: f.pos, value: f.value@ }),
                None => !(self@ matches InputNodeV::Object(fs) && first_field(fs, name@) is Some),
            },
    {
        match self {
            InputNode::Value(_) => None,
            InputNode::Object(fields) => {
                let ghost fs = self@->Object_0;
                let mut i: usize = 0;
                proof {
                    assert(fs.skip(0) =~= fs);
                }
                while i < fields.len()
                    invariant
                        *self matches InputNode::Object(fv) && fv == *fields,
                        fs == self@->Object_0,
                        fs.len() == fields@.len(),
                        forall|k: int|
                            0 <= k < fields@.len() ==> #[trigger] fs[k] == (InputFieldV {
                                name: fields@[k].name@,
                                pos: fields@[k].pos,
                                value: input_node_view(fields@[k].value),
                            }),
                        i <= fields@.len(),
                        first_field(fs, name@) == first_field(fs.skip(i as int), name@),
                        forall|k: int| 0 <= k < i ==> fs[k].name != name@,
                    decreases fields@.len() - i,
                {
                    let f = &fields[i];
                    proof {
                        assert(fs.skip(i as int)[0] == fs[i as int]);
                        assert(fs.skip(i as int).drop_first() =~= fs.skip(i as int + 1));
                    }
                    if f.name == *name {
                        return Some(f);
                    }
                    i = i + 1;
                }
                proof {
                    assert(fs.skip(fs.len() as int) =~= Seq::<InputFieldV>::empty());
                }
                None
            },
        }
    }
}

/// The field an input object holds under a name: the first declaration wins.
pub open spec fn first_field(fields: Seq<InputFieldV>, name: Seq<char>) -> Option<InputFieldV>
    decreases fields.len(),
{
    if fields.len() == 0 {
        None::<InputFieldV>
    } else if fields.first().name == name {
        Some(fields.first())
    } else {
        first_field(fields.drop_first(), name)
    }
}

/// Where an argument's value comes from: a literal in the document, or a
/// variable reference.
#[derive(Debug, PartialEq)]
pub enum ArgSource {
    Literal(InputNode),
    Variable(String),
}

/// One argument as the parser annotated it; `pos` is the position of the
/// supplied value — the literal's, or the variable reference's.
#[derive(Debug, PartialEq)]
pub struct ArgNode {
    pub name: String,
    pub pos: Pos,
    pub value: ArgSource,
}

/// The mathematical form of an argument source.
#[verifier::ext_equal]
pub enum ArgSourceV {
    Literal(InputNodeV),
    Variable(Seq<char>),
}

/// The mathematical form of an argument.
#[verifier::ext_equal]
pub struct ArgNodeV {
    pub name: Seq<char>,
    pub pos: Pos,
    pub value: ArgSourceV,
}

impl View for ArgNode {
    type V = ArgNodeV;

    open spec fn view(&self) -> ArgNodeV {
        ArgNodeV {
            name: self.name@,
            pos: self.pos,
            value: match self.value {
                ArgSource::Literal(n) => ArgSourceV::Literal(input_node_view(n)),
                ArgSource::Variable(v) => ArgSourceV::Variable(v@),
            },
        }
    }
}

/// One argument with its variable reference resolved: what a resolver sees.
#[derive(Debug, PartialEq)]
pub struct ResolvedArg {
    pub name: String,
    pub pos: Pos,
    pub value: InputNode,
}

/// The mathematical form of a resolved argument.
#[verifier::ext_equal]
pub struct ResolvedArgV {
    pub name: Seq<char>,
    pub pos: Pos,
    pub value: InputNodeV,
}

impl View for ResolvedArg {
    type V = ResolvedArgV;

    open spec fn view(&self) -> ResolvedArgV {
        ResolvedArgV { name: self.name@, pos: self.pos, value: self.value@ }
    }
}

/// One field of the operation tree, annotated with its position, its
/// arguments and its sub-selection (empty for a leaf).
#[derive(Debug, PartialEq)]
pub struct FieldNode {
    pub name: String,
    pub pos: Pos,
    pub args: Vec<ArgNode>,
    pub selection: Vec<FieldNode>,
}

/// The mathematical form of an operation-tree field.
#[verifier::ext_equal]
pub struct FieldNodeV {
    pub name: Seq<char>,
    pub pos: Pos,
    pub args: Seq<ArgNodeV>,
    pub selection: Seq<FieldNodeV>,
}

/// The mathematical form of an executable operation-tree field.
pub open spec fn field_node_view(f: FieldNode) -> FieldNodeV
    decreases f,
    via field_node_view_decreases
{
    FieldNodeV {
        name: f.name@,
        pos: f.pos,
        args: Seq::new(f.args@.len(), |i: int| f.args@[i]@),
        selection: Seq::new(
            f.selection@.len(),
            |i: int|
                if 0 <= i < f.selection@.len() {
                    field_node_view(f.selection@[i])
                } else {
                    FieldNodeV {
                        name: Seq::<char>::empty(),
                        pos: Pos { line: 0, column: 0 },
                        args: Seq::<ArgNodeV>::empty(),
                        selection: Seq::<FieldNodeV>::empty(),
                    }
                },
        ),
    }
}

#[via_fn]
proof fn field_node_view_decreases(f: FieldNode) {
    assert forall|i: int| 0 <= i < f.selection@.len() implies decreases_to!(
        f => f.selection@[i],
    ) by {
        assert(decreases_to!(f => f.selection));
        assert(decreases_to!(f.selection => f.selection@));
        assert(decreases_to!(f.selection@ => f.selection@[i]));
    }
}

impl View for FieldNode {
    type V = FieldNodeV;

    open spec fn view(&self) -> FieldNodeV {
        field_node_view(*self)
    }
}

/// What a resolver hands back for one field: a finished value, a handle to an
/// object the sub-selection resolves against, or a list of either.
#[derive(Debug, PartialEq)]
pub enum Resolved {
    Leaf(JsonValue),
    Object(u64),
    List(Vec<Resolved>),
}

/// The mathematical form of a resolver's answer.
#[verifier::ext_equal]
pub enum ResolvedV {
    Leaf(JsonVal),
    Object(u64),
    List(Seq<ResolvedV>),
}

/// The mathematical form of an executable resolver answer.
pub open spec fn resolved_view(r: Resolved) -> ResolvedV
    decreases r,
    via resolved_view_decreases
{
    match r {
        Resolved::Leaf(v) => ResolvedV::Leaf(json_val_of(v)),
        Resolved::Object(id) => ResolvedV::Object(id),
        Resolved::List(items) => ResolvedV::List(
            Seq::new(
                items@.len(),
                |i: int|
                    if 0 <= i < items@.len() {
                        resolved_view(items@[i])
                    } else {
                        ResolvedV::Leaf(JsonVal::Null)
                    },
            ),
        ),
    }
}

#[via_fn]
proof fn resolved_view_decreases(r: Resolved) {
    match r {
        Resolved::List(items) => {
            assert forall|i: int| 0 <= i < items@.len() implies decreases_to!(
                r => items@[i],
            ) by {
                assert(decreases_to!(r => items));
                assert(decreases_to!(items => items@));
                assert(decreases_to!(items@ => items@[i]));
            }
        },
        _ => {},
    }
}

impl View for Resolved {
    type V = ResolvedV;

    open spec fn view(&self) -> ResolvedV {
        resolved_view(*self)
    }
}

/// What went wrong inside a resolver: a field-scoped failure the engine will
/// position at the field, or an already positioned request error (an input
/// validator's rejection carries the offending value's own position).
#[derive(Debug, PartialEq)]
pub enum ResolveError {
    Field(FieldError),
    Fatal(Error),
}

/// The mathematical form of a resolver failure.
#[verifier::ext_equal]
pub enum ResolveErrorV {
    Field(FieldErrorV),
    Fatal(ErrorV),
}

impl View for ResolveError {
    type V = ResolveErrorV;

    open spec fn view(&self) -> ResolveErrorV {
        match self {
            ResolveError::Field(fe) => ResolveErrorV::Field(fe@),
            ResolveError::Fatal(e) => ResolveErrorV::Fatal(e@),
        }
    }
}

/// The mathematical form of a resolved argument list.
pub open spec fn args_view(args: Seq<ResolvedArg>) -> Seq<ResolvedArgV> {
    Seq::new(args.len(), |i: int| args[i]@)
}

/// A user-supplied schema of resolvers: objects are named by handles, and for
/// each object and field the resolver answers with a value, an object handle
/// or a list. The three spec functions pin each implementation's behaviour,
/// so the engine's own contract can speak of the resolver it was given.
pub trait ObjectResolver<V> {
    /// Whether resolution succeeds for this field on this object.
    spec fn resolve_ok(
        &self,
        object: u64,
        field: FieldNodeV,
        args: Seq<ResolvedArgV>,
        ctx: &ExecutionContext<V>,
    ) -> bool;

    /// The answer when resolution succeeds.
    spec fn resolve_value(
        &self,
        object: u64,
        field: FieldNodeV,
        args: Seq<ResolvedArgV>,
        ctx: &ExecutionContext<V>,
    ) -> ResolvedV;

    /// The failure when it does not.
    spec fn resolve_error(
        &self,
        object: u64,
        field: FieldNodeV,
        args: Seq<ResolvedArgV>,
        ctx: &ExecutionContext<V>,
    ) -> ResolveErrorV;

    /// Resolves one field of one object, with its arguments already resolved.
    fn resolve_field(
        &self,
        object: u64,
        field: &FieldNode,
        args: &Vec<ResolvedArg>,
        ctx: &ExecutionContext<V>,
    ) -> (r: Result<Resolved, ResolveError>)
        ensures
            (r is Ok) == self.resolve_ok(object, field@, args_view(args@), ctx),
            r matches Ok(v) ==> v@ == self.resolve_value(object, field@, args_view(args@), ctx),
            r matches Err(e) ==> e@ == self.resolve_error(object, field@, args_view(args@), ctx),
    ;
}

/// One schema-registry entry: the ordered directive list of one field of one
/// object.
pub struct RegistryEntry<D> {
    pub object: u64,
    pub field: String,
    pub directives: Vec<D>,
}

/// The schema registry the engine consults: per object and field, its ordered
/// directive list. Built once at startup and read-only afterwards.
pub struct Registry<D> {
    pub entries: Vec<RegistryEntry<D>>,
}

/// The directive list registered for a field: the first entry wins; a field
/// with no entry has no directives.
pub open spec fn registry_directives<D>(
    entries: Seq<RegistryEntry<D>>,
    object: u64,
    field: Seq<char>,
) -> Seq<D>
    decreases entries.len(),
{
    if entries.len() == 0 {
        Seq::<D>::empty()
    } else if entries.first().object == object && entries.first().field@ == field {
        entries.first().directives@
    } else {
        registry_directives(entries.drop_first(), object, field)
    }
}

impl<D> Registry<D> {
    /// An empty registry: no field has directives.
    pub fn new() -> (r: Registry<D>)
        ensures
            r.entries@.len() == 0,
    {
        Registry { entries: Vec::new() }
    }

    /// Registers the ordered directive list of one field.
    pub fn register(&mut self, object: u64, field: String, directives: Vec<D>)
        ensures
            final(self).entries@ == old(self).entries@.push(
                RegistryEntry { object, field, directives },
            ),
    {
        self.entries.push(RegistryEntry { object, field, directives });
    }

    /// Looks up the directive list registered for a field; the first entry
    /// wins.
    pub fn directives_for<'a>(&'a self, object: u64, field: &String) -> (r: Option<&'a Vec<D>>)
        ensures
            match r {
                Some(ds) => registry_directives(self.entries@, object, field@) == ds@,
                None => registry_directives(self.entries@, object, field@) =~= Seq::<D>::empty(),
            },
    {
        let ghost all = self.entries@;
        let mut i: usize = 0;
        proof {
            assert(all.skip(0) =~= all);
        }
        while i < self.entries.len()
            invariant
                all == self.entries@,
                i <= all.len(),
                registry_directives(all, object, field@) == registry_directives(
                    all.skip(i as int),
                    object,
                    field@,
                ),
            decreases all.len() - i,
        {
            let e = &self.entries[i];
            proof {
                assert(all.skip(i as int).first() == all[i as int]);
                assert(all.skip(i as int).drop_first() =~= all.skip(i as int + 1));
            }
            if e.object == object && e.field == *field {
                return Some(&e.directives);
            }
            i = i + 1;
        }
        proof {
            assert(all.skip(all.len() as int) =~= Seq::<RegistryEntry<D>>::empty());
        }
        None
    }
}

/// The request error recording one field-scoped failure, positioned at the
/// field and carrying the field's path.
pub open spec fn field_error_at(pos: Pos, path: Seq<PathSegV>, fe: FieldErrorV) -> ErrorV {
    ErrorV::Query {
        pos,
        path: Some(path_json(path)),
        err: QueryErrorV::FieldError { err: fe.message, extended_error: fe.extensions },
    }
}

/// Builds the request error for one field-scoped failure.
pub fn error_at(pos: Pos, path: &PathNode, fe: FieldError) -> (r: Error)
    ensures
        r@ == field_error_at(pos, path@, fe@),
{
    Error::Query {
        pos,
        path: Some(path.to_json()),
        err: QueryError::FieldError { err: fe.message, extended_error: fe.extensions },
    }
}

/// The first refusal among the first `i` before-hooks, in declared order.
pub open spec fn before_outcome<V, D: OnFieldDefinition<V>>(
    ds: Seq<D>,
    ctx: &ExecutionContext<V>,
    i: int,
) -> Option<FieldErrorV>
    decreases i,
{
    if i <= 0 {
        None::<FieldErrorV>
    } else {
        match before_outcome(ds, ctx, i - 1) {
            Some(e) => Some(e),
            None => if ds[i - 1].before_ok(ctx) {
                None::<FieldErrorV>
            } else {
                Some(ds[i - 1].before_error(ctx))
            },
        }
    }
}

/// When every before-hook admits the resolution, none refuses.
pub proof fn lemma_before_outcome_ok<V, D: OnFieldDefinition<V>>(
    ds: Seq<D>,
    ctx: &ExecutionContext<V>,
    i: int,
)
    requires
        forall|j: int| 0 <= j < i ==> (#[trigger] ds[j]).before_ok(ctx),
    ensures
        before_outcome(ds, ctx, i) is None,
    decreases i,
{
    if i > 0 {
        lemma_before_outcome_ok(ds, ctx, i - 1);
    }
}

/// When hook `k` is the first that refuses, the before phase reports exactly
/// its failure.
pub proof fn lemma_before_outcome_refused<V, D: OnFieldDefinition<V>>(
    ds: Seq<D>,
    ctx: &ExecutionContext<V>,
    k: int,
    i: int,
)
    requires
        0 <= k < i,
        forall|j: int| 0 <= j < k ==> (#[trigger] ds[j]).before_ok(ctx),
        !ds[k].before_ok(ctx),
    ensures
        before_outcome(ds, ctx, i) == Some(ds[k].before_error(ctx)),
    decreases i,
{
    if i == k + 1 {
        lemma_before_outcome_ok(ds, ctx, k);
    } else {
        lemma_before_outcome_refused(ds, ctx, k, i - 1);
    }
}

/// One argument with its variable reference resolved against the request's
/// variables: a literal passes through at its own position; a variable
/// reference takes the variable's value at the reference's position, or is
/// the request's error when the variable is not defined.
pub open spec fn resolve_arg_spec(vars: Seq<(Seq<char>, JsonVal)>, a: ArgNodeV) -> Result<
    ResolvedArgV,
    ErrorV,
> {
    match a.value {
        ArgSourceV::Literal(n) => Ok(ResolvedArgV { name: a.name, pos: a.pos, value: n }),
        ArgSourceV::Variable(vn) => match obj_lookup(vars, vn) {
            Some(j) => Ok(
                ResolvedArgV { name: a.name, pos: a.pos, value: InputNodeV::Value(j) },
            ),
            None => Err(
                ErrorV::Query {
                    pos: a.pos,
                    path: None,
                    err: QueryErrorV::VarNotDefined { name: vn },
                },
            ),
        },
    }
}

/// The first `i` arguments resolved in order, or the first failure.
pub open spec fn resolve_args_spec(
    vars: Seq<(Seq<char>, JsonVal)>,
    args: Seq<ArgNodeV>,
    i: int,
) -> Result<Seq<ResolvedArgV>, ErrorV>
    decreases i,
{
    if i <= 0 {
        Ok(Seq::<ResolvedArgV>::empty())
    } else {
        match resolve_args_spec(vars, args, i - 1) {
            Ok(ra) => match resolve_arg_spec(vars, args[i - 1]) {
                Ok(a) => Ok(ra.push(a)),
                Err(e) => Err(e),
            },
            Err(e) => Err(e),
        }
    }
}

/// Argument resolution keeps the failure it stopped at, however many
/// arguments follow.
pub proof fn lemma_resolve_args_err(
    vars: Seq<(Seq<char>, JsonVal)>,
    args: Seq<ArgNodeV>,
    i: int,
    m: int,
)
    requires
        0 <= i <= m,
        resolve_args_spec(vars, args, i) is Err,
    ensures
        resolve_args_spec(vars, args, m) == resolve_args_spec(vars, args, i),
    decreases m - i,
{
    if i < m {
        lemma_resolve_args_err(vars, args, i, m - 1);
    }
}

/// The mathematical form of an executable argument list.
pub open spec fn args_nodes_view(args: Seq<ArgNode>) -> Seq<ArgNodeV> {
    Seq::new(args.len(), |i: int| args[i]@)
}

/// The mathematical form of an executable selection.
pub open spec fn sel_view(sel: Seq<FieldNode>) -> Seq<FieldNodeV> {
    Seq::new(sel.len(), |i: int| field_node_view(sel[i]))
}

/// A field's mathematical form lists exactly its arguments and selection.
pub proof fn lemma_field_node_view_parts(f: FieldNode)
    ensures
        field_node_view(f).args =~= args_nodes_view(f.args@),
        field_node_view(f).selection =~= sel_view(f.selection@),
{
    assert forall|i: int| 0 <= i < f.selection@.len() implies field_node_view(f).selection[i]
        == sel_view(f.selection@)[i] by {
        assert(field_node_view(f).selection[i] == field_node_view(f.selection@[i]));
    }
}

/// Resolves a field's arguments against the request's variables, in declared
/// order, stopping at the first undefined variable.
pub fn resolve_args(vars: &Variables, args: &Vec<ArgNode>) -> (r: Result<Vec<ResolvedArg>, Error>)
    ensures
        match r {
            Ok(ra) => resolve_args_spec(vars@, args_nodes_view(args@), args@.len() as int) == Ok::<
                Seq<ResolvedArgV>,
                ErrorV,
            >(args_view(ra@)),
            Err(e) => resolve_args_spec(vars@, args_nodes_view(args@), args@.len() as int)
                == Err::<Seq<ResolvedArgV>, ErrorV>(e@),
        },
{
    let ghost argsv = args_nodes_view(args@);
    let mut out: Vec<ResolvedArg> = Vec::new();
    let mut i: usize = 0;
    proof {
        assert(args_view(out@) =~= Seq::<ResolvedArgV>::empty());
    }
    while i < args.len()
        invariant
            argsv == args_nodes_view(args@),
            argsv.len() == args@.len(),
            i <= args@.len(),
            out@.len() == i,
            resolve_args_spec(vars@, argsv, i as int) == Ok::<Seq<ResolvedArgV>, ErrorV>(
                args_view(out@),
            ),
        decreases args@.len() - i,
    {
        let a = &args[i];
        let value = match &a.value {
            ArgSource::Literal(n) => n.duplicate(),
            ArgSource::Variable(vn) => match vars.get(vn) {
                Some(j) => InputNode::Value(j.duplicate()),
                None => {
                    let e = Error::Query {
                        pos: a.pos,
                        path: None,
                        err: QueryError::VarNotDefined { name: vn.clone() },
                    };
                    proof {
                        assert(resolve_args_spec(vars@, argsv, i as int + 1) == Err::<
                            Seq<ResolvedArgV>,
                            ErrorV,
                        >(e@));
                        lemma_resolve_args_err(vars@, argsv, i as int + 1, argsv.len() as int);
                    }
                    return Err(e);
                },
            },
        };
        let ra = ResolvedArg { name: a.name.clone(), pos: a.pos, value };
        proof {
            assert(resolve_arg_spec(vars@, argsv[i as int]) == Ok::<ResolvedArgV, ErrorV>(ra@));
        }
        let ghost prev = out@;
        out.push(ra);
        i = i + 1;
        proof {
            assert(args_view(prev) =~= args_view(out@).drop_last());
            assert(args_view(out@) =~= args_view(prev).push(out@.last()@));
        }
    }
    Ok(out)
}

/// The entries the first `i` fields of a selection resolve to, in order, or
/// the first field's failure; each field's path is the selection's path plus
/// its own name.
pub open spec fn spec_execute_selection_upto<V, D: OnFieldDefinition<V>, R: ObjectResolver<V>>(
    reg: Seq<RegistryEntry<D>>,
    resolver: &R,
    ctx: &ExecutionContext<V>,
    object: u64,
    sel: Seq<FieldNodeV>,
    vars: Seq<(Seq<char>, JsonVal)>,
    path: Seq<PathSegV>,
    i: int,
) -> Result<Seq<(Seq<char>, JsonVal)>, ErrorV>
    decreases sel, 3int, sel, i,
{
    if i <= 0 || i > sel.len() {
        Ok(Seq::<(Seq<char>, JsonVal)>::empty())
    } else {
        match spec_execute_selection_upto(reg, resolver, ctx, object, sel, vars, path, i - 1) {
            Ok(entries) => match spec_execute_field(
                reg,
                resolver,
                ctx,
                object,
                sel[i - 1],
                vars,
                path.push(PathSegV::Name(sel[i - 1].name)),
            ) {
                Ok(v) => Ok(entries.push((sel[i - 1].name, v))),
                Err(e) => Err(e),
            },
            Err(e) => Err(e),
        }
    }
}

/// What one field resolves to: its directives' before-hooks in declared
/// order, then its arguments, then the resolver, then the completed value
/// through the after-hooks in the same order; the first failure anywhere is
/// the field's one error, positioned and, for field-scoped failures, placed
/// at the field's path.
pub open spec fn spec_execute_field<V, D: OnFieldDefinition<V>, R: ObjectResolver<V>>(
    reg: Seq<RegistryEntry<D>>,
    resolver: &R,
    ctx: &ExecutionContext<V>,
    object: u64,
    f: FieldNodeV,
    vars: Seq<(Seq<char>, JsonVal)>,
    path: Seq<PathSegV>,
) -> Result<JsonVal, ErrorV>
    decreases f, 2int, f, 0int,
{
    let ds = registry_directives(reg, object, f.name);
    match before_outcome(ds, ctx, ds.len() as int) {
        Some(fe) => Err(field_error_at(f.pos, path, fe)),
        None => match resolve_args_spec(vars, f.args, f.args.len() as int) {
            Err(e) => Err(e),
            Ok(args) => if resolver.resolve_ok(object, f, args, ctx) {
                match spec_complete(
                    reg,
                    resolver,
                    ctx,
                    f,
                    vars,
                    path,
                    resolver.resolve_value(object, f, args, ctx),
                ) {
                    Ok(v) => match after_chain(ds, ctx, v, ds.len() as int) {
                        Ok(v2) => Ok(v2),
                        Err(fe) => Err(field_error_at(f.pos, path, fe)),
                    },
                    Err(e) => Err(e),
                }
            } else {
                match resolver.resolve_error(object, f, args, ctx) {
                    ResolveErrorV::Field(fe) => Err(field_error_at(f.pos, path, fe)),
                    ResolveErrorV::Fatal(e) => Err(e),
                }
            },
        },
    }
}

/// What a resolver's answer completes to under a field: a finished value as
/// it is; an object handle through the field's sub-selection; a list element
/// by element, each under its index in the path. Lists are capped at the path
/// model's 32-bit indices.
pub open spec fn spec_complete<V, D: OnFieldDefinition<V>, R: ObjectResolver<V>>(
    reg: Seq<RegistryEntry<D>>,
    resolver: &R,
    ctx: &ExecutionContext<V>,
    f: FieldNodeV,
    vars: Seq<(Seq<char>, JsonVal)>,
    path: Seq<PathSegV>,
    rv: ResolvedV,
) -> Result<JsonVal, ErrorV>
    decreases f, 1int, rv, 1int,
{
    match rv {
        ResolvedV::Leaf(v) => Ok(v),
        ResolvedV::Object(oid) => match spec_execute_selection_upto(
            reg,
            resolver,
            ctx,
            oid,
            f.selection,
            vars,
            path,
            f.selection.len() as int,
        ) {
            Ok(entries) => Ok(JsonVal::Obj(entries)),
            Err(e) => Err(e),
        },
        ResolvedV::List(items) => if items.len() > u32::MAX as int {
            Err(
                field_error_at(
                    f.pos,
                    path,
                    FieldErrorV { message: "list is too long"@, extensions: None },
                ),
            )
        } else {
            match spec_complete_list(reg, resolver, ctx, f, vars, path, items, items.len() as int) {
                Ok(vs) => Ok(JsonVal::Arr(vs)),
                Err(e) => Err(e),
            }
        },
    }
}

/// The first `i` list elements completed in order, each under its index in
/// the path, or the first element's failure.
pub open spec fn spec_complete_list<V, D: OnFieldDefinition<V>, R: ObjectResolver<V>>(
    reg: Seq<RegistryEntry<D>>,
    resolver: &R,
    ctx: &ExecutionContext<V>,
    f: FieldNodeV,
    vars: Seq<(Seq<char>, JsonVal)>,
    path: Seq<PathSegV>,
    items: Seq<ResolvedV>,
    i: int,
) -> Result<Seq<JsonVal>, ErrorV>
    decreases f, 1int, items, i,
{
    if i <= 0 || i > items.len() {
        Ok(Seq::<JsonVal>::empty())
    } else {
        match spec_complete_list(reg, resolver, ctx, f, vars, path, items, i - 1) {
            Ok(vs) => match spec_complete(
                reg,
                resolver,
                ctx,
                f,
                vars,
                path.push(PathSegV::Index(i - 1)),
                items[i - 1],
            ) {
                Ok(v) => Ok(vs.push(v)),
                Err(e) => Err(e),
            },
            Err(e) => Err(e),
        }
    }
}

/// A selection keeps the failure it stopped at, however many fields follow.
pub proof fn lemma_selection_err_persists<V, D: OnFieldDefinition<V>, R: ObjectResolver<V>>(
    reg: Seq<RegistryEntry<D>>,
    resolver: &R,
    ctx: &ExecutionContext<V>,
    object: u64,
    sel: Seq<FieldNodeV>,
    vars: Seq<(Seq<char>, JsonVal)>,
    path: Seq<PathSegV>,
    i: int,
    m: int,
)
    requires
        0 <= i <= m <= sel.len(),
        spec_execute_selection_upto(reg, resolver, ctx, object, sel, vars, path, i) is Err,
    ensures
        spec_execute_selection_upto(reg, resolver, ctx, object, sel, vars, path, m)
            == spec_execute_selection_upto(reg, resolver, ctx, object, sel, vars, path, i),
    decreases m - i,
{
    if i < m {
        lemma_selection_err_persists(reg, resolver, ctx, object, sel, vars, path, i, m - 1);
    }
}

/// A list keeps the failure it stopped at, however many elements follow.
pub proof fn lemma_list_err_persists<V, D: OnFieldDefinition<V>, R: ObjectResolver<V>>(
    reg: Seq<RegistryEntry<D>>,
    resolver: &R,
    ctx: &ExecutionContext<V>,
    f: FieldNodeV,
    vars: Seq<(Seq<char>, JsonVal)>,
    path: Seq<PathSegV>,
    items: Seq<ResolvedV>,
    i: int,
    m: int,
)
    requires
        0 <= i <= m <= items.len(),
        spec_complete_list(reg, resolver, ctx, f, vars, path, items, i) is Err,
    ensures
        spec_complete_list(reg, resolver, ctx, f, vars, path, items, m) == spec_complete_list(
            reg,
            resolver,
            ctx,
            f,
            vars,
            path,
            items,
            i,
        ),
    decreases m - i,
{
    if i < m {
        lemma_list_err_persists(reg, resolver, ctx, f, vars, path, items, i, m - 1);
    }
}

/// Law: when before-hook `k` of a field is the first to refuse, the field's
/// outcome is exactly one error — the refusing hook's failure at the field's
/// position and path — for every resolver alike: the resolver, the later
/// hooks and the after phase cannot influence it, because they never run.
pub proof fn lemma_before_hook_failure_isolates<
    V,
    D: OnFieldDefinition<V>,
    R: ObjectResolver<V>,
>(
    reg: Seq<RegistryEntry<D>>,
    resolver: &R,
    ctx: &ExecutionContext<V>,
    object: u64,
    f: FieldNodeV,
    vars: Seq<(Seq<char>, JsonVal)>,
    path: Seq<PathSegV>,
    k: int,
)
    requires
        0 <= k < registry_directives(reg, object, f.name).len(),
        forall|j: int|
            0 <= j < k ==> (#[trigger] registry_directives(reg, object, f.name)[j]).before_ok(ctx),
        !registry_directives(reg, object, f.name)[k].before_ok(ctx),
    ensures
        spec_execute_field(reg, resolver, ctx, object, f, vars, path) == Err::<JsonVal, ErrorV>(
            field_error_at(
                f.pos,
                path,
                registry_directives(reg, object, f.name)[k].before_error(ctx),
            ),
        ),
{
    let ds = registry_directives(reg, object, f.name);
    lemma_before_outcome_refused(ds, ctx, k, ds.len() as int);
}

/// Runs the fields of one selection against one object, in order, stopping at
/// the first failure.
pub fn execute_selection<V, D: OnFieldDefinition<V>, R: ObjectResolver<V>>(
    registry: &Registry<D>,
    resolver: &R,
    ctx: &ExecutionContext<V>,
    object: u64,
    selection: &Vec<FieldNode>,
    vars: &Variables,
    parent: Option<&PathNode>,
    Ghost(path): Ghost<Seq<PathSegV>>,
) -> (r: Result<JsonValue, Error>)
    requires
        parent matches Some(p) ==> p@ == path,
        parent is None ==> path == Seq::<PathSegV>::empty(),
    ensures
        match r {
            Ok(v) => spec_execute_selection_upto(
                registry.entries@,
                resolver,
                ctx,
                object,
                sel_view(selection@),
                vars@,
                path,
                selection@.len() as int,
            ) matches Ok(entries) && v@ == JsonVal::Obj(entries),
            Err(e) => spec_execute_selection_upto(
                registry.entries@,
                resolver,
                ctx,
                object,
                sel_view(selection@),
                vars@,
                path,
                selection@.len() as int,
            ) == Err::<Seq<(Seq<char>, JsonVal)>, ErrorV>(e@),
        },
    decreases selection, 3int, selection, 0int,
{
    let ghost sv = sel_view(selection@);
    let mut entries: Vec<(String, JsonValue)> = Vec::new();
    let mut i: usize = 0;
    proof {
        assert(crate::query::obj_entries_view(entries@) =~= Seq::<(Seq<char>, JsonVal)>::empty());
    }
    while i < selection.len()
        invariant
            parent matches Some(p) ==> p@ == path,
            parent is None ==> path == Seq::<PathSegV>::empty(),
            sv == sel_view(selection@),
            sv.len() == selection@.len(),
            i <= selection@.len(),
            entries@.len() == i,
            spec_execute_selection_upto(
                registry.entries@,
                resolver,
                ctx,
                object,
                sv,
                vars@,
                path,
                i as int,
            ) == Ok::<Seq<(Seq<char>, JsonVal)>, ErrorV>(
                crate::query::obj_entries_view(entries@),
            ),
        decreases selection@.len() - i,
    {
        let f = &selection[i];
        let node = match parent {
            None => PathNode::root(PathSegment::Name(f.name.clone())),
            Some(p) => PathNode::child(p, PathSegment::Name(f.name.clone())),
        };
        proof {
            assert(node@ =~= path.push(PathSegV::Name(sv[i as int].name)));
            assert(decreases_to!(*selection => selection@));
            assert(decreases_to!(selection@ => selection@[i as int]));
        }
        match execute_field(registry, resolver, ctx, object, f, vars, &node) {
            Ok(v) => {
                let ghost prev = entries@;
                entries.push((f.name.clone(), v));
                i = i + 1;
                proof {
                    assert(crate::query::obj_entries_view(prev) =~= crate::query::obj_entries_view(
                        entries@,
                    ).drop_last());
                    assert(crate::query::obj_entries_view(entries@)
                        =~= crate::query::obj_entries_view(prev).push(
                        (entries@.last().0@, json_val_of(entries@.last().1)),
                    ));
                }
            },
            Err(e) => {
                proof {
                    lemma_selection_err_persists(
                        registry.entries@,
                        resolver,
                        ctx,
                        object,
                        sv,
                        vars@,
                        path,
                        i as int + 1,
                        sv.len() as int,
                    );
                }
                return Err(e);
            },
        }
    }
    let r = JsonValue::Obj(entries);
    proof {
        crate::query::lemma_obj_entries(r);
    }
    Ok(r)
}

/// Resolves one field: before-hooks, arguments, resolver, completion,
/// after-hooks; `path` is the field's own path node.
pub fn execute_field<V, D: OnFieldDefinition<V>, R: ObjectResolver<V>>(
    registry: &Registry<D>,
    resolver: &R,
    ctx: &ExecutionContext<V>,
    object: u64,
    field: &FieldNode,
    vars: &Variables,
    path: &PathNode,
) -> (r: Result<JsonValue, Error>)
    ensures
        match r {
            Ok(v) => spec_execute_field(
                registry.entries@,
                resolver,
                ctx,
                object,
                field@,
                vars@,
                path@,
            ) == Ok::<JsonVal, ErrorV>(v@),
            Err(e) => spec_execute_field(
                registry.entries@,
                resolver,
                ctx,
                object,
                field@,
                vars@,
                path@,
            ) == Err::<JsonVal, ErrorV>(e@),
        },
    decreases field, 2int, field, 0int,
{
    let ghost fv = field@;
    let ghost ds = registry_directives(registry.entries@, object, fv.name);
    proof {
        lemma_field_node_view_parts(*field);
    }
    let ds_ref = registry.directives_for(object, &field.name);
    let before = match ds_ref {
        Some(dsv) => run_before_hooks(dsv, ctx),
        None => (Ok(()), 0),
    };
    match before.0 {
        Err(fe) => {
            proof {
                lemma_before_outcome_refused(ds, ctx, before.1 - 1, ds.len() as int);
            }
            return Err(error_at(field.pos, path, fe));
        },
        Ok(()) => {
            proof {
                lemma_before_outcome_ok(ds, ctx, ds.len() as int);
            }
        },
    }
    let rargs = match resolve_args(vars, &field.args) {
        Ok(a) => a,
        Err(e) => {
            return Err(e);
        },
    };
    let resolved = match resolver.resolve_field(object, field, &rargs, ctx) {
        Ok(res) => res,
        Err(ResolveError::Field(fe)) => {
            return Err(error_at(field.pos, path, fe));
        },
        Err(ResolveError::Fatal(e)) => {
            return Err(e);
        },
    };
    let mut value = match complete_value(registry, resolver, ctx, field, vars, path, resolved) {
        Ok(v) => v,
        Err(e) => {
            return Err(e);
        },
    };
    let ghost completed = value@;
    let after = match ds_ref {
        Some(dsv) => run_after_hooks(dsv, ctx, &mut value),
        None => (Ok(()), 0),
    };
    match after.0 {
        Err(fe) => {
            proof {
                crate::directives::lemma_after_chain_err_persists(
                    ds,
                    ctx,
                    completed,
                    after.1 as int,
                    ds.len() as int,
                );
            }
            Err(error_at(field.pos, path, fe))
        },
        Ok(()) => Ok(value),
    }
}

/// Completes a resolver's answer under a field; `path` is the field's own
/// path node, and list elements are completed under their indices.
pub fn complete_value<V, D: OnFieldDefinition<V>, R: ObjectResolver<V>>(
    registry: &Registry<D>,
    resolver: &R,
    ctx: &ExecutionContext<V>,
    field: &FieldNode,
    vars: &Variables,
    path: &PathNode,
    resolved: Resolved,
) -> (r: Result<JsonValue, Error>)
    ensures
        match r {
            Ok(v) => spec_complete(
                registry.entries@,
                resolver,
                ctx,
                field@,
                vars@,
                path@,
                resolved@,
            ) == Ok::<JsonVal, ErrorV>(v@),
            Err(e) => spec_complete(
                registry.entries@,
                resolver,
                ctx,
                field@,
                vars@,
                path@,
                resolved@,
            ) == Err::<JsonVal, ErrorV>(e@),
        },
    decreases field, 1int, resolved, 1int,
{
    let ghost rv = resolved@;
    match resolved {
        Resolved::Leaf(v) => Ok(v),
        Resolved::Object(oid) => {
            proof {
                lemma_field_node_view_parts(*field);
                assert(decreases_to!(*field => field.selection));
            }
            let r = execute_selection(
                registry,
                resolver,
                ctx,
                oid,
                &field.selection,
                vars,
                Some(path),
                Ghost(path@),
            );
            r
        },
        Resolved::List(items) => {
            let ghost vitems = rv->List_0;
            if items.len() > u32::MAX as usize {
                return Err(
                    error_at(
                        field.pos,
                        path,
                        FieldError { message: String::from_str("list is too long"), extensions: None },
                    ),
                );
            }
            let ghost orig = items@;
            let mut items = items;
            let mut out: Vec<JsonValue> = Vec::new();
            let n = items.len();
            let mut k: usize = 0;
            proof {
                assert(Seq::new(out@.len(), |j: int| json_val_of(out@[j])) =~= Seq::<
                    JsonVal,
                >::empty());
            }
            while k < n
                invariant
                    rv == resolved@,
                    rv matches ResolvedV::List(vi) && vi == vitems,
                    resolved matches Resolved::List(l) && l@ == orig,
                    n == orig.len(),
                    n <= u32::MAX,
                    k <= n,
                    items@.len() == n - k,
                    forall|j: int| 0 <= j < n - k ==> items@[j] == orig[k + j],
                    vitems.len() == orig.len(),
                    forall|j: int| 0 <= j < orig.len() ==> vitems[j] == resolved_view(orig[j]),
                    out@.len() == k,
                    spec_complete_list(
                        registry.entries@,
                        resolver,
                        ctx,
                        field@,
                        vars@,
                        path@,
                        vitems,
                        k as int,
                    ) == Ok::<Seq<JsonVal>, ErrorV>(
                        Seq::new(out@.len(), |j: int| json_val_of(out@[j])),
                    ),
                decreases n - k,
            {
                let item = items.remove(0);
                let node = PathNode::child(path, PathSegment::Index(k as u32));
                proof {
                    assert(node@ =~= path@.push(PathSegV::Index(k as int)));
                    assert(item == orig[k as int]);
                    assert(decreases_to!(resolved => resolved->List_0));
                    assert(decreases_to!(resolved->List_0 => (resolved->List_0)@));
                    assert((resolved->List_0)@ == orig);
                    assert(decreases_to!(orig => orig[k as int]));
                }
                match complete_value(registry, resolver, ctx, field, vars, &node, item) {
                    Ok(v) => {
                        let ghost prev = out@;
                        out.push(v);
                        k = k + 1;
                        proof {
                            assert(Seq::new(prev.len(), |j: int| json_val_of(prev[j])) =~= Seq::new(
                                out@.len(),
                                |j: int| json_val_of(out@[j]),
                            ).drop_last());
                            assert(Seq::new(out@.len(), |j: int| json_val_of(out@[j])) =~= Seq::new(
                                prev.len(),
                                |j: int| json_val_of(prev[j]),
                            ).push(json_val_of(out@.last())));
                        }
                    },
                    Err(e) => {
                        proof {
                            lemma_list_err_persists(
                                registry.entries@,
                                resolver,
                                ctx,
                                field@,
                                vars@,
                                path@,
                                vitems,
                                k as int + 1,
                                vitems.len() as int,
                            );
                        }
                        return Err(e);
                    },
                }
            }
            let r = JsonValue::Arr(out);
            proof {
                crate::json::lemma_arr_eq(
                    r,
                    Seq::new((r->Arr_0)@.len(), |j: int| json_val_of((r->Arr_0)@[j])),
                );
            }
            Ok(r)
        },
    }
}

/// Runs an argument's (or input-object field's) declared validator chain over
/// its coerced value; the first rejection becomes the request's error, whose
/// position is the offending value's own — the argument literal's, the
/// variable reference's, or the inner input-object field's, never the outer
/// object literal's — and which carries no path.
pub fn apply_input_validators<T, D: OnInputValue<T>>(
    validators: &Vec<D>,
    value: T,
    pos: Pos,
) -> (r: Result<T, Error>)
    ensures
        match r {
            Ok(v) => chain_value(validators@, value, validators@.len() as int) == Ok::<
                T,
                Seq<char>,
            >(v),
            Err(e) => (chain_value(validators@, value, validators@.len() as int) matches Err(m)
                && e@ == (ErrorV::Query {
                pos,
                path: None,
                err: QueryErrorV::ParseInputValue { reason: m },
            })),
        },
{
    let outcome = run_validators(validators, value);
    match outcome.0 {
        Ok(v) => Ok(v),
        Err(InputValueError::Custom(m)) => {
            proof {
                crate::directives::lemma_chain_err_persists(
                    validators@,
                    value,
                    outcome.1 as int,
                    validators@.len() as int,
                );
            }
            Err(Error::Query { pos, path: None, err: QueryError::ParseInputValue { reason: m } })
        },
    }
}

/// The kind of operation a document holds.
#[derive(Debug, PartialEq, Eq, Structural, Clone, Copy)]
pub enum OperationKind {
    Query,
    Mutation,
    Subscription,
}

/// A position-annotated operation, as the external parser hands it back.
#[derive(Debug, PartialEq)]
pub struct Document {
    pub kind: OperationKind,
    pub pos: Pos,
    pub selection: Vec<FieldNode>,
}

/// What the external parser and validator produced for one request: an
/// operation tree, or their own errors, consumed verbatim.
#[derive(Debug, PartialEq)]
pub enum ParseOutcome {
    Doc(Document),
    Parse(ParseError),
    Rules(Vec<RuleError>),
}

/// What one unit executes to: the parser's or validator's error as the
/// request's failure; a non-query operation refused as unsupported; a query
/// resolved top-down from the root object, its data an object of the
/// top-level fields.
pub open spec fn spec_execute_unit<V, D: OnFieldDefinition<V>, R: ObjectResolver<V>>(
    reg: Seq<RegistryEntry<D>>,
    resolver: &R,
    ctx: &ExecutionContext<V>,
    root: u64,
    outcome: ParseOutcome,
    vars: Seq<(Seq<char>, JsonVal)>,
) -> Result<QueryResponseV, ErrorV> {
    match outcome {
        ParseOutcome::Parse(e) => Err(ErrorV::Parse(e@)),
        ParseOutcome::Rules(errors) => Err(
            ErrorV::Rule { errors: Seq::new(errors@.len(), |i: int| errors@[i]@) },
        ),
        ParseOutcome::Doc(doc) => if doc.kind != OperationKind::Query {
            Err(ErrorV::Query { pos: doc.pos, path: None, err: QueryErrorV::NotSupported })
        } else {
            match spec_execute_selection_upto(
                reg,
                resolver,
                ctx,
                root,
                sel_view(doc.selection@),
                vars,
                Seq::<PathSegV>::empty(),
                doc.selection@.len() as int,
            ) {
                Ok(entries) => Ok(
                    QueryResponseV {
                        data: JsonVal::Obj(entries),
                        label: None,
                        path: None,
                        extensions: None,
                    },
                ),
                Err(e) => Err(e),
            }
        },
    }
}

/// Executes one unit: document-level errors abort before any resolution
/// starts; a query resolves top-down from the root object.
pub fn execute_unit<V, D: OnFieldDefinition<V>, R: ObjectResolver<V>>(
    registry: &Registry<D>,
    resolver: &R,
    ctx: &ExecutionContext<V>,
    root: u64,
    outcome: &ParseOutcome,
    vars: &Variables,
) -> (r: Result<QueryResponse, Error>)
    ensures
        outcome_view(r) == spec_execute_unit(registry.entries@, resolver, ctx, root, *outcome, vars@),
{
    match outcome {
        ParseOutcome::Parse(e) => Err(Error::Parse(e.duplicate())),
        ParseOutcome::Rules(errors) => {
            let mut out: Vec<RuleError> = Vec::new();
            let mut i: usize = 0;
            while i < errors.len()
                invariant
                    *outcome matches ParseOutcome::Rules(es) && es == *errors,
                    i <= errors@.len(),
                    out@.len() == i,
                    forall|k: int| 0 <= k < i ==> (#[trigger] out@[k])@ == errors@[k]@,
                decreases errors@.len() - i,
            {
                let copy = errors[i].duplicate();
                out.push(copy);
                i = i + 1;
            }
            let r = Error::Rule { errors: out };
            proof {
                assert(Seq::new(out@.len(), |k: int| out@[k]@) =~= Seq::new(
                    errors@.len(),
                    |k: int| errors@[k]@,
                ));
            }
            Err(r)
        },
        ParseOutcome::Doc(doc) => {
            if !(doc.kind == OperationKind::Query) {
                return Err(
                    Error::Query { pos: doc.pos, path: None, err: QueryError::NotSupported },
                );
            }
            match execute_selection(
                registry,
                resolver,
                ctx,
                root,
                &doc.selection,
                vars,
                None,
                Ghost(Seq::<PathSegV>::empty()),
            ) {
                Ok(data) => Ok(QueryResponse { data, label: None, path: None, extensions: None }),
                Err(e) => Err(e),
            }
        },
    }
}

impl<V> QueryBuilder<V> {
    /// Executes this unit against a schema: the context holds the data this
    /// builder attached.
    pub fn execute<D: OnFieldDefinition<V>, R: ObjectResolver<V>>(
        self,
        outcome: &ParseOutcome,
        registry: &Registry<D>,
        resolver: &R,
        root: u64,
    ) -> (r: Result<QueryResponse, Error>)
        ensures
            outcome_view(r) == spec_execute_unit(
                registry.entries@,
                resolver,
                &(ExecutionContext { entries: self.ctx_data }),
                root,
                *outcome,
                self.variables@,
            ),
    {
        let QueryBuilder { variables, ctx_data, .. } = self;
        let ctx = ExecutionContext { entries: ctx_data };
        execute_unit(registry, resolver, &ctx, root, outcome, &variables)
    }
}

impl<V> BatchQueryBuilder<V> {
    /// Splits the batch into the context its units share — the attached data,
    /// identical for every unit — and the units themselves.
    pub fn into_parts(self) -> (r: (ExecutionContext<V>, QueryBuilderTypes<V>))
        ensures
            self.ctx_data matches Some(d) ==> r.0 == (ExecutionContext { entries: d }),
            self.ctx_data is None ==> r.0.entries@.len() == 0,
            r.1 == self.builder,
    {
        let BatchQueryBuilder { builder, ctx_data } = self;
        let ctx = match ctx_data {
            Some(d) => ExecutionContext { entries: d },
            None => ExecutionContext::new(),
        };
        (ctx, builder)
    }
}

/// Executes one unit per parse outcome against one shared context, and keeps
/// the request's shape and order: a single unit yields a single response and
/// a batch of n yields a batch of n, the i-th response from the i-th unit.
/// Units run independently: one unit's document-level failure never touches
/// its siblings.
pub fn execute_batch<V, D: OnFieldDefinition<V>, R: ObjectResolver<V>>(
    units: QueryBuilderTypes<V>,
    ctx: &ExecutionContext<V>,
    outcomes: &Vec<ParseOutcome>,
    registry: &Registry<D>,
    resolver: &R,
    root: u64,
) -> (r: BatchQueryResponse)
    requires
        outcomes@.len() == (match units {
            QueryBuilderTypes::Single(_) => 1int,
            QueryBuilderTypes::Batch(bs) => bs@.len() as int,
        }),
    ensures
        (r is Single) == (units is Single),
        units matches QueryBuilderTypes::Single(b) ==> (r matches BatchQueryResponse::Single(out)
            && outcome_view(out) == spec_execute_unit(
            registry.entries@,
            resolver,
            ctx,
            root,
            outcomes@[0],
            b.variables@,
        )),
        units matches QueryBuilderTypes::Batch(bs) ==> (r matches BatchQueryResponse::Batch(outs)
            && outs@.len() == bs@.len() && (forall|i: int|
            0 <= i < bs@.len() ==> outcome_view(#[trigger] outs@[i]) == spec_execute_unit(
                registry.entries@,
                resolver,
                ctx,
                root,
                outcomes@[i],
                bs@[i].variables@,
            ))),
{
    match units {
        QueryBuilderTypes::Single(b) => {
            let out = execute_unit(registry, resolver, ctx, root, &outcomes[0], &b.variables);
            BatchQueryResponse::Single(out)
        },
        QueryBuilderTypes::Batch(bs) => {
            let ghost orig = bs@;
            let mut bs = bs;
            let mut outs: Vec<Result<QueryResponse, Error>> = Vec::new();
            let n = bs.len();
            let mut i: usize = 0;
            while i < n
                invariant
                    n == orig.len(),
                    outcomes@.len() == n,
                    i <= n,
                    bs@.len() == n - i,
                    forall|k: int| 0 <= k < n - i ==> bs@[k] == orig[i + k],
                    outs@.len() == i,
                    forall|k: int|
                        0 <= k < i ==> outcome_view(#[trigger] outs@[k]) == spec_execute_unit(
                            registry.entries@,
                            resolver,
                            ctx,
                            root,
                            outcomes@[k],
                            orig[k].variables@,
                        ),
                decreases n - i,
            {
                let b = bs.remove(0);
                let out = execute_unit(registry, resolver, ctx, root, &outcomes[i], &b.variables);
                outs.push(out);
                i = i + 1;
            }
            BatchQueryResponse::Batch(outs)
        },
    }
}

/// One constant field of a table-driven schema.
pub struct ScalarEntry {
    pub object: u64,
    pub field: String,
    pub value: JsonValue,
}

/// One object-valued field of a table-driven schema.
pub struct LinkEntry {
    pub object: u64,
    pub field: String,
    pub target: u64,
}

/// One list-valued field of a table-driven schema: a list of object handles.
pub struct ListEntry {
    pub object: u64,
    pub field: String,
    pub targets: Vec<u64>,
}

/// A resolver defined by data: constant fields, object links and lists of
/// object handles, looked up in that order, first entry first. A field no
/// table lists fails field-scoped.
pub struct TableResolver {
    pub scalars: Vec<ScalarEntry>,
    pub links: Vec<LinkEntry>,
    pub lists: Vec<ListEntry>,
}

/// The constant a table holds for a field: the first entry wins.
pub open spec fn scalar_lookup(entries: Seq<ScalarEntry>, object: u64, field: Seq<char>) -> Option<
    JsonVal,
>
    decreases entries.len(),
{
    if entries.len() == 0 {
        None::<JsonVal>
    } else if entries.first().object == object && entries.first().field@ == field {
        Some(json_val_of(entries.first().value))
    } else {
        scalar_lookup(entries.drop_first(), object, field)
    }
}

/// The link a table holds for a field: the first entry wins.
pub open spec fn link_lookup(entries: Seq<LinkEntry>, object: u64, field: Seq<char>) -> Option<
    u64,
>
    decreases entries.len(),
{
    if entries.len() == 0 {
        None::<u64>
    } else if entries.first().object == object && entries.first().field@ == field {
        Some(entries.first().target)
    } else {
        link_lookup(entries.drop_first(), object, field)
    }
}

/// The handle list a table holds for a field: the first entry wins.
pub open spec fn list_lookup(entries: Seq<ListEntry>, object: u64, field: Seq<char>) -> Option<
    Seq<u64>,
>
    decreases entries.len(),
{
    if entries.len() == 0 {
        None::<Seq<u64>>
    } else if entries.first().object == object && entries.first().field@ == field {
        Some(entries.first().targets@)
    } else {
        list_lookup(entries.drop_first(), object, field)
    }
}

/// Finds the first constant entry for a field.
fn find_scalar<'a>(entries: &'a Vec<ScalarEntry>, object: u64, field: &String) -> (r: Option<
    &'a ScalarEntry,
>)
    ensures
        match r {
            Some(e) => scalar_lookup(entries@, object, field@) == Some(json_val_of(e.value)),
            None => scalar_lookup(entries@, object, field@) is None,
        },
{
    let ghost all = entries@;
    let mut i: usize = 0;
    proof {
        assert(all.skip(0) =~= all);
    }
    while i < entries.len()
        invariant
            all == entries@,
            i <= all.len(),
            scalar_lookup(all, object, field@) == scalar_lookup(all.skip(i as int), object, field@),
        decreases all.len() - i,
    {
        let e = &entries[i];
        proof {
            assert(all.skip(i as int).first() == all[i as int]);
            assert(all.skip(i as int).drop_first() =~= all.skip(i as int + 1));
        }
        if e.object == object && e.field == *field {
            return Some(e);
        }
        i = i + 1;
    }
    proof {
        assert(all.skip(all.len() as int) =~= Seq::<ScalarEntry>::empty());
    }
    None
}

/// Finds the first link entry for a field.
fn find_link<'a>(entries: &'a Vec<LinkEntry>, object: u64, field: &String) -> (r: Option<
    &'a LinkEntry,
>)
    ensures
        match r {
            Some(e) => link_lookup(entries@, object, field@) == Some(e.target),
            None => link_lookup(entries@, object, field@) is None,
        },
{
    let ghost all = entries@;
    let mut i: usize = 0;
    proof {
        assert(all.skip(0) =~= all);
    }
    while i < entries.len()
        invariant
            all == entries@,
            i <= all.len(),
            link_lookup(all, object, field@) == link_lookup(all.skip(i as int), object, field@),
        decreases all.len() - i,
    {
        let e = &entries[i];
        proof {
            assert(all.skip(i as int).first() == all[i as int]);
            assert(all.skip(i as int).drop_first() =~= all.skip(i as int + 1));
        }
        if e.object == object && e.field == *field {
            return Some(e);
        }
        i = i + 1;
    }
    proof {
        assert(all.skip(all.len() as int) =~= Seq::<LinkEntry>::empty());
    }
    None
}

/// Finds the first list entry for a field.
fn find_list<'a>(entries: &'a Vec<ListEntry>, object: u64, field: &String) -> (r: Option<
    &'a ListEntry,
>)
    ensures
        match r {
            Some(e) => list_lookup(entries@, object, field@) == Some(e.targets@),
            None => list_lookup(entries@, object, field@) is None,
        },
{
    let ghost all = entries@;
    let mut i: usize = 0;
    proof {
        assert(all.skip(0) =~= all);
    }
    while i < entries.len()
        invariant
            all == entries@,
            i <= all.len(),
            list_lookup(all, object, field@) == list_lookup(all.skip(i as int), object, field@),
        decreases all.len() - i,
    {
        let e = &entries[i];
        proof {
            assert(all.skip(i as int).first() == all[i as int]);
            assert(all.skip(i as int).drop_first() =~= all.skip(i as int + 1));
        }
        if e.object == object && e.field == *field {
            return Some(e);
        }
        i = i + 1;
    }
    proof {
        assert(all.skip(all.len() as int) =~= Seq::<ListEntry>::empty());
    }
    None
}

impl<V> ObjectResolver<V> for TableResolver {
    open spec fn resolve_ok(
        &self,
        object: u64,
        field: FieldNodeV,
        args: Seq<ResolvedArgV>,
        ctx: &ExecutionContext<V>,
    ) -> bool {
        scalar_lookup(self.scalars@, object, field.name) is Some || link_lookup(
            self.links@,
            object,
            field.name,
        ) is Some || list_lookup(self.lists@, object, field.name) is Some
    }

    open spec fn resolve_value(
        &self,
        object: u64,
        field: FieldNodeV,
        args: Seq<ResolvedArgV>,
        ctx: &ExecutionContext<V>,
    ) -> ResolvedV {
        match scalar_lookup(self.scalars@, object, field.name) {
            Some(v) => ResolvedV::Leaf(v),
            None => match link_lookup(self.links@, object, field.name) {
                Some(t) => ResolvedV::Object(t),
                None => match list_lookup(self.lists@, object, field.name) {
                    Some(ts) => ResolvedV::List(
                        Seq::new(ts.len(), |i: int| ResolvedV::Object(ts[i])),
                    ),
                    None => ResolvedV::Leaf(JsonVal::Null),
                },
            },
        }
    }

    open spec fn resolve_error(
        &self,
        object: u64,
        field: FieldNodeV,
        args: Seq<ResolvedArgV>,
        ctx: &ExecutionContext<V>,
    ) -> ResolveErrorV {
        ResolveErrorV::Field(
            FieldErrorV { message: "unknown field "@ + field.name, extensions: None },
        )
    }

    fn resolve_field(
        &self,
        object: u64,
        field: &FieldNode,
        args: &Vec<ResolvedArg>,
        ctx: &ExecutionContext<V>,
    ) -> (r: Result<Resolved, ResolveError>) {
        if let Some(e) = find_scalar(&self.scalars, object, &field.name) {
            return Ok(Resolved::Leaf(e.value.duplicate()));
        }
        if let Some(e) = find_link(&self.links, object, &field.name) {
            return Ok(Resolved::Object(e.target));
        }
        if let Some(e) = find_list(&self.lists, object, &field.name) {
            let mut items: Vec<Resolved> = Vec::new();
            let mut i: usize = 0;
            while i < e.targets.len()
                invariant
                    i <= e.targets@.len(),
                    items@.len() == i,
                    forall|k: int|
                        0 <= k < i ==> resolved_view(#[trigger] items@[k]) == ResolvedV::Object(
                            e.targets@[k],
                        ),
                decreases e.targets@.len() - i,
            {
                items.push(Resolved::Object(e.targets[i]));
                i = i + 1;
            }
            let r = Resolved::List(items);
            proof {
                let expected = <TableResolver as ObjectResolver<V>>::resolve_value(
                    self,
                    object,
                    field@,
                    args_view(args@),
                    ctx,
                );
                assert(r@ is List && expected is List);
                assert(r@->List_0.len() == expected->List_0.len());
                assert forall|k: int| 0 <= k < expected->List_0.len() implies r@->List_0[k]
                    == expected->List_0[k] by {
                    assert(resolved_view(items@[k]) == ResolvedV::Object(e.targets@[k]));
                }
                assert(r@->List_0 =~= expected->List_0);
                assert(r@ =~~= expected);
            }
            return Ok(r);
        }
        let mut message = String::new();
        message.append("unknown field ");
        message.append(field.name.as_str());
        proof {
            assert(message@ =~= "unknown field "@ + field@.name);
        }
        Err(ResolveError::Field(FieldError { message, extensions: None }))
    }
}

} // verus!
