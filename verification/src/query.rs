//! Requests and the query/batch builder.
//!
//! A wire request is an object `{query, operationName?, variables?}` or a
//! non-empty array of such objects; the shape is inspected before a variant
//! is chosen and an empty array is rejected here, before anything executes.
//! A builder is made from each request: a malformed `variables` payload is
//! dropped at this stage, so a query that references no variable still runs;
//! one that does reference a variable fails only when that reference is
//! resolved.

use crate::json::json_val_of;
use crate::json::JsonVal;
use crate::json::JsonValue;
use vstd::prelude::*;
use vstd::string::StringExecFns;

verus! {

/// Why a decoded request was refused before execution.
#[derive(Debug, PartialEq, Eq, Structural, Clone, Copy)]
pub enum ParseRequestError {
    /// The payload is not a request object, or a required key is missing or
    /// of the wrong type.
    InvalidRequest,
    /// The payload is an empty array.
    EmptyBatch,
}

/// The mathematical form of the keys and values of an executable object.
pub open spec fn obj_entries_view(entries: Seq<(String, JsonValue)>) -> Seq<(Seq<char>, JsonVal)> {
    Seq::new(entries.len(), |i: int| (entries[i].0@, json_val_of(entries[i].1)))
}

/// An executable object's mathematical form lists exactly its keys and
/// values.
pub proof fn lemma_obj_entries(v: JsonValue)
    requires
        v is Obj,
    ensures
        json_val_of(v)->Obj_0 =~= obj_entries_view((v->Obj_0)@),
{
    let entries = (v->Obj_0)@;
    assert forall|i: int| 0 <= i < entries.len() implies json_val_of(v)->Obj_0[i]
        == obj_entries_view(entries)[i] by {
        assert(json_val_of(v)->Obj_0[i] == (entries[i].0@, json_val_of(entries[i].1)));
    }
}

/// The value an object holds under a key: the last entry wins, as it does for
/// duplicate keys in a decoded JSON object.
pub open spec fn obj_lookup(entries: Seq<(Seq<char>, JsonVal)>, key: Seq<char>) -> Option<JsonVal>
    decreases entries.len(),
{
    if entries.len() == 0 {
        None::<JsonVal>
    } else if entries.last().0 == key {
        Some(entries.last().1)
    } else {
        obj_lookup(entries.drop_last(), key)
    }
}

/// Reads the value an executable object holds under a key; the last entry
/// wins.
pub fn obj_get<'a>(entries: &'a Vec<(String, JsonValue)>, key: &String) -> (r: Option<
    &'a JsonValue,
>)
    ensures
        match r {
            Some(v) => obj_lookup(obj_entries_view(entries@), key@) == Some(json_val_of(*v)),
            None => obj_lookup(obj_entries_view(entries@), key@) is None,
        },
{
    let ghost all = obj_entries_view(entries@);
    let mut i: usize = entries.len();
    proof {
        assert(all.take(i as int) =~= all);
    }
    while i > 0
        invariant
            i <= entries@.len(),
            all == obj_entries_view(entries@),
            all.len() == entries@.len(),
            obj_lookup(all, key@) == obj_lookup(all.take(i as int), key@),
        decreases i,
    {
        i = i - 1;
        let e = &entries[i];
        proof {
            assert(all.take(i as int + 1).last() == all[i as int]);
            assert(all.take(i as int + 1).drop_last() =~= all.take(i as int));
        }
        if e.0 == *key {
            return Some(&e.1);
        }
    }
    proof {
        assert(all.take(0) =~= Seq::<(Seq<char>, JsonVal)>::empty());
    }
    None
}

/// A decoded wire request.
#[derive(Debug, PartialEq)]
pub struct GQLRequest {
    /// Query source.
    pub query: String,
    /// Operation name for this query.
    pub operation_name: Option<String>,
    /// Variables for this query, kept loosely typed.
    pub variables: Option<JsonValue>,
}

/// The mathematical form of a request.
#[verifier::ext_equal]
pub struct GQLRequestV {
    pub query: Seq<char>,
    pub operation_name: Option<Seq<char>>,
    pub variables: Option<JsonVal>,
}

impl View for GQLRequest {
    type V = GQLRequestV;

    open spec fn view(&self) -> GQLRequestV {
        GQLRequestV {
            query: self.query@,
            operation_name: match self.operation_name {
                Some(s) => Some(s@),
                None => None,
            },
            variables: match self.variables {
                Some(v) => Some(json_val_of(v)),
                None => None,
            },
        }
    }
}

/// What a request object decodes to: its query text must be a string, its
/// operation name a string or null, its variables anything.
pub open spec fn request_of_json(v: JsonVal) -> Result<GQLRequestV, ParseRequestError> {
    match v {
        JsonVal::Obj(entries) => match obj_lookup(entries, "query"@) {
            Some(JsonVal::Str(q)) => {
                let op = match obj_lookup(entries, "operationName"@) {
                    None => Ok(None::<Seq<char>>),
                    Some(JsonVal::Null) => Ok(None::<Seq<char>>),
                    Some(JsonVal::Str(s)) => Ok(Some(s)),
                    Some(_) => Err(ParseRequestError::InvalidRequest),
                };
                match op {
                    Ok(operation_name) => {
                        let variables = match obj_lookup(entries, "variables"@) {
                            None => None::<JsonVal>,
                            Some(JsonVal::Null) => None::<JsonVal>,
                            Some(x) => Some(x),
                        };
                        Ok(GQLRequestV { query: q, operation_name, variables })
                    },
                    Err(e) => Err(e),
                }
            },
            _ => Err(ParseRequestError::InvalidRequest),
        },
        _ => Err(ParseRequestError::InvalidRequest),
    }
}

impl GQLRequest {
    /// Decodes one request object.
    pub fn from_json(v: &JsonValue) -> (r: Result<GQLRequest, ParseRequestError>)
        ensures
            match r {
                Ok(req) => request_of_json(v@) == Ok::<GQLRequestV, ParseRequestError>(req@),
                Err(e) => request_of_json(v@) == Err::<GQLRequestV, ParseRequestError>(e),
            },
    {
        match v {
            JsonValue::Obj(entries) => {
                proof {
                    lemma_obj_entries(*v);
                }
                let qkey = String::from_str("query");
                let query = match obj_get(entries, &qkey) {
                    Some(JsonValue::Str(q)) => q.clone(),
                    _ => {
                        return Err(ParseRequestError::InvalidRequest);
                    },
                };
                let okey = String::from_str("operationName");
                let operation_name = match obj_get(entries, &okey) {
                    None => None,
                    Some(JsonValue::Null) => None,
                    Some(JsonValue::Str(s)) => Some(s.clone()),
                    Some(_) => {
                        return Err(ParseRequestError::InvalidRequest);
                    },
                };
                let vkey = String::from_str("variables");
                let variables = match obj_get(entries, &vkey) {
                    None => None,
                    Some(JsonValue::Null) => None,
                    Some(x) => Some(x.duplicate()),
                };
                Ok(GQLRequest { query, operation_name, variables })
            },
            _ => Err(ParseRequestError::InvalidRequest),
        }
    }
}

/// One or many requests, as the wire shape distinguished them.
#[derive(Debug, PartialEq)]
pub enum BatchGQLRequest {
    /// A single request object.
    Single(GQLRequest),
    /// A non-empty array of request objects.
    Batch(Vec<GQLRequest>),
}

/// The mathematical form of one or many requests.
#[verifier::ext_equal]
pub enum BatchRequestV {
    Single(GQLRequestV),
    Batch(Seq<GQLRequestV>),
}

impl View for BatchGQLRequest {
    type V = BatchRequestV;

    open spec fn view(&self) -> BatchRequestV {
        match self {
            BatchGQLRequest::Single(r) => BatchRequestV::Single(r@),
            BatchGQLRequest::Batch(rs) => BatchRequestV::Batch(
                Seq::new(rs@.len(), |i: int| rs@[i]@),
            ),
        }
    }
}

/// What the first `i` items of a batch array decode to, or the first item's
/// refusal.
pub open spec fn batch_items_of_json(items: Seq<JsonVal>, i: int) -> Result<
    Seq<GQLRequestV>,
    ParseRequestError,
>
    decreases i,
{
    if i <= 0 {
        Ok(Seq::<GQLRequestV>::empty())
    } else {
        match batch_items_of_json(items, i - 1) {
            Ok(rs) => match request_of_json(items[i - 1]) {
                Ok(r) => Ok(rs.push(r)),
                Err(e) => Err(e),
            },
            Err(e) => Err(e),
        }
    }
}

/// What a wire payload decodes to: an object is a single request, an array a
/// batch, and an empty array is refused here — before any query executes.
pub open spec fn batch_request_of_json(v: JsonVal) -> Result<BatchRequestV, ParseRequestError> {
    match v {
        JsonVal::Obj(_) => match request_of_json(v) {
            Ok(r) => Ok(BatchRequestV::Single(r)),
            Err(e) => Err(e),
        },
        JsonVal::Arr(items) => if items.len() == 0 {
            Err(ParseRequestError::EmptyBatch)
        } else {
            match batch_items_of_json(items, items.len() as int) {
                Ok(rs) => Ok(BatchRequestV::Batch(rs)),
                Err(e) => Err(e),
            }
        },
        _ => Err(ParseRequestError::InvalidRequest),
    }
}

/// Law: an empty batch array is rejected when the request decodes, which
/// happens before any execution can start, with the empty-batch refusal.
pub proof fn lemma_empty_batch_rejected(v: JsonVal)
    requires
        v matches JsonVal::Arr(items) && items.len() == 0,
    ensures
        batch_request_of_json(v) == Err::<BatchRequestV, ParseRequestError>(
            ParseRequestError::EmptyBatch,
        ),
{
}

impl BatchGQLRequest {
    /// Decodes a wire payload by its top-level shape: object or array.
    pub fn from_json(v: &JsonValue) -> (r: Result<BatchGQLRequest, ParseRequestError>)
        ensures
            match r {
                Ok(b) => batch_request_of_json(v@) == Ok::<BatchRequestV, ParseRequestError>(b@),
                Err(e) => batch_request_of_json(v@) == Err::<BatchRequestV, ParseRequestError>(e),
            },
    {
        match v {
            JsonValue::Obj(_) => match GQLRequest::from_json(v) {
                Ok(r) => Ok(BatchGQLRequest::Single(r)),
                Err(e) => Err(e),
            },
            JsonValue::Arr(items) => {
                if items.len() == 0 {
                    return Err(ParseRequestError::EmptyBatch);
                }
                let ghost vitems = v@->Arr_0;
                let mut rs: Vec<GQLRequest> = Vec::new();
                let mut i: usize = 0;
                proof {
                    assert(Seq::new(rs@.len(), |k: int| rs@[k]@) =~= Seq::<GQLRequestV>::empty());
                }
                while i < items.len()
                    invariant
                        *v matches JsonValue::Arr(it) && it == *items,
                        vitems == v@->Arr_0,
                        vitems.len() == items@.len(),
                        forall|k: int| 0 <= k < items@.len() ==> vitems[k] == json_val_of(
                            items@[k],
                        ),
                        i <= items@.len(),
                        rs@.len() == i,
                        batch_items_of_json(vitems, i as int) == Ok::<
                            Seq<GQLRequestV>,
                            ParseRequestError,
                        >(Seq::new(rs@.len(), |k: int| rs@[k]@)),
                    decreases items@.len() - i,
                {
                    match GQLRequest::from_json(&items[i]) {
                        Ok(r) => {
                            let ghost prev = rs@;
                            let ghost rv = r@;
                            rs.push(r);
                            proof {
                                assert(Seq::new(prev.len(), |k: int| prev[k]@) =~= Seq::new(
                                    (rs@.len() - 1) as nat,
                                    |k: int| rs@[k]@,
                                ));
                                assert(Seq::new(rs@.len(), |k: int| rs@[k]@) =~= Seq::new(
                                    (rs@.len() - 1) as nat,
                                    |k: int| rs@[k]@,
                                ).push(rv));
                            }
                        },
                        Err(e) => {
                            proof {
                                lemma_batch_items_err(vitems, i as int + 1, vitems.len() as int);
                            }
                            return Err(e);
                        },
                    }
                    i = i + 1;
                }
                Ok(BatchGQLRequest::Batch(rs))
            },
            _ => Err(ParseRequestError::InvalidRequest),
        }
    }
}

/// A batch decode keeps the refusal it stopped at, however many items follow.
pub proof fn lemma_batch_items_err(items: Seq<JsonVal>, i: int, m: int)
    requires
        0 <= i <= m,
        batch_items_of_json(items, i) is Err,
    ensures
        batch_items_of_json(items, m) == batch_items_of_json(items, i),
    decreases m - i,
{
    if i < m {
        lemma_batch_items_err(items, i, m - 1);
    }
}

/// The engine's form of a request's variables: named JSON documents.
pub struct Variables {
    pub entries: Vec<(String, JsonValue)>,
}

impl View for Variables {
    type V = Seq<(Seq<char>, JsonVal)>;

    open spec fn view(&self) -> Seq<(Seq<char>, JsonVal)> {
        obj_entries_view(self.entries@)
    }
}

impl Variables {
    /// No variables.
    pub fn new() -> (r: Variables)
        ensures
            r@ =~= Seq::<(Seq<char>, JsonVal)>::empty(),
    {
        let r = Variables { entries: Vec::new() };
        proof {
            assert(r@ =~= Seq::<(Seq<char>, JsonVal)>::empty());
        }
        r
    }

    /// Parses the loosely typed `variables` payload: only an object is
    /// accepted.
    pub fn parse_from_json(value: JsonValue) -> (r: Result<Variables, ParseRequestError>)
        ensures
            value@ is Obj ==> (r matches Ok(vars) && vars@ == value@->Obj_0),
            !(value@ is Obj) ==> r == Err::<Variables, ParseRequestError>(
                ParseRequestError::InvalidRequest,
            ),
    {
        match value {
            JsonValue::Obj(entries) => {
                let r = Variables { entries };
                proof {
                    lemma_obj_entries_seq(r.entries@);
                }
                Ok(r)
            },
            _ => Err(ParseRequestError::InvalidRequest),
        }
    }

    /// Reads a variable by name; the last entry wins.
    pub fn get<'a>(&'a self, name: &String) -> (r: Option<&'a JsonValue>)
        ensures
            match r {
                Some(v) => obj_lookup(self@, name@) == Some(json_val_of(*v)),
                None => obj_lookup(self@, name@) is None,
            },
    {
        obj_get(&self.entries, name)
    }
}

/// An object's mathematical form is its entries' mathematical forms: the
/// guarded and the plain mapping agree.
pub proof fn lemma_obj_entries_seq(entries: Seq<(String, JsonValue)>)
    ensures
        forall|v: JsonValue|
            v matches JsonValue::Obj(en) && en@ == entries ==> #[trigger] json_val_of(v)->Obj_0
                =~= obj_entries_view(entries),
{
    assert forall|v: JsonValue|
        v matches JsonValue::Obj(en) && en@ == entries implies #[trigger] json_val_of(v)->Obj_0
        =~= obj_entries_view(entries) by {
        lemma_obj_entries(v);
    }
}

/// Options handed through request-to-builder conversion; the conversion in
/// this engine reads none of them.
pub struct IntoQueryBuilderOpts {}

/// One executable unit in the making: the query text, the operation it names,
/// its parsed variables, and the context data attached so far.
pub struct QueryBuilder<V> {
    pub query: String,
    pub operation_name: Option<String>,
    pub variables: Variables,
    pub ctx_data: Vec<(u64, V)>,
}

impl<V> QueryBuilder<V> {
    /// A builder for a query text, with no operation name, no variables and
    /// no context data.
    pub fn new(query: String) -> (r: QueryBuilder<V>)
        ensures
            r.query@ == query@,
            r.operation_name is None,
            r.variables@ =~= Seq::<(Seq<char>, JsonVal)>::empty(),
            r.ctx_data@.len() == 0,
    {
        let r = QueryBuilder {
            query,
            operation_name: None,
            variables: Variables::new(),
            ctx_data: Vec::new(),
        };
        r
    }

    /// Names the operation to run.
    pub fn operation_name(self, name: String) -> (r: QueryBuilder<V>)
        ensures
            r.query == self.query,
            r.operation_name matches Some(n) && n@ == name@,
            r.variables == self.variables,
            r.ctx_data == self.ctx_data,
    {
        QueryBuilder { operation_name: Some(name), ..self }
    }

    /// Replaces the variables.
    pub fn variables(self, variables: Variables) -> (r: QueryBuilder<V>)
        ensures
            r.query == self.query,
            r.operation_name == self.operation_name,
            r.variables == variables,
            r.ctx_data == self.ctx_data,
    {
        QueryBuilder { variables, ..self }
    }

    /// Attaches context data under a type key, before execution begins.
    pub fn data(self, key: u64, value: V) -> (r: QueryBuilder<V>)
        ensures
            r.query == self.query,
            r.operation_name == self.operation_name,
            r.variables == self.variables,
            r.ctx_data@ == self.ctx_data@.push((key, value)),
    {
        let mut ctx_data = self.ctx_data;
        ctx_data.push((key, value));
        QueryBuilder { ctx_data, ..self }
    }
}

/// The variables a builder ends up with: a request's object payload, or none
/// when the payload is absent or malformed — a malformed payload is dropped
/// here, not refused, so queries that reference no variable still run.
pub open spec fn parsed_variables(vars: Option<JsonVal>) -> Seq<(Seq<char>, JsonVal)> {
    match vars {
        Some(JsonVal::Obj(entries)) => entries,
        _ => Seq::<(Seq<char>, JsonVal)>::empty(),
    }
}

/// How a builder must relate to the request it was made from.
pub open spec fn builder_of_request<V>(b: QueryBuilder<V>, req: GQLRequestV) -> bool {
    &&& b.query@ == req.query
    &&& match req.operation_name {
        Some(n) => b.operation_name matches Some(m) && m@ == n,
        None => b.operation_name is None,
    }
    &&& b.variables@ == parsed_variables(req.variables)
    &&& b.ctx_data@.len() == 0
}

impl GQLRequest {
    /// Builds the executable unit for this request. The variables payload is
    /// parsed if it is an object and silently dropped otherwise.
    pub fn into_query_builder_opts<V>(self, opts: &IntoQueryBuilderOpts) -> (r: Result<
        QueryBuilder<V>,
        ParseRequestError,
    >)
        ensures
            r matches Ok(b) && builder_of_request(b, self@),
    {
        let ghost gself = self;
        let mut builder: QueryBuilder<V> = QueryBuilder::new(self.query);
        if let Some(operation_name) = self.operation_name {
            builder = builder.operation_name(operation_name);
        }
        if let Some(variables) = self.variables {
            match Variables::parse_from_json(variables) {
                Ok(variables) => {
                    builder = builder.variables(variables);
                },
                Err(_) => {},
            }
        }
        proof {
            assert(builder.variables@ =~= parsed_variables(gself@.variables));
        }
        Ok(builder)
    }
}

/// One or many executable units.
pub enum QueryBuilderTypes<V> {
    Single(QueryBuilder<V>),
    Batch(Vec<QueryBuilder<V>>),
}

/// One or many executable units with the context data every unit in the batch
/// shares: the data is attached once, identically for all of them, never per
/// unit.
pub struct BatchQueryBuilder<V> {
    pub builder: QueryBuilderTypes<V>,
    pub ctx_data: Option<Vec<(u64, V)>>,
}

impl BatchGQLRequest {
    /// Builds the executable units for these requests, one per request, in
    /// order, keeping the single-or-batch shape.
    pub fn into_batch_query_builder_opts<V>(self, opts: &IntoQueryBuilderOpts) -> (r: Result<
        BatchQueryBuilder<V>,
        ParseRequestError,
    >)
        ensures
            r matches Ok(bb) && bb.ctx_data is None,
            r matches Ok(bb) ==> match self {
                BatchGQLRequest::Single(req) => bb.builder matches QueryBuilderTypes::Single(b)
                    && builder_of_request(b, req@),
                BatchGQLRequest::Batch(reqs) => bb.builder matches QueryBuilderTypes::Batch(bs)
                    && bs@.len() == reqs@.len() && (forall|k: int|
                    0 <= k < reqs@.len() ==> builder_of_request(#[trigger] bs@[k], reqs@[k]@)),
            },
    {
        match self {
            BatchGQLRequest::Single(request) => {
                let b = match request.into_query_builder_opts(opts) {
                    Ok(b) => b,
                    Err(e) => {
                        return Err(e);
                    },
                };
                Ok(BatchQueryBuilder { builder: QueryBuilderTypes::Single(b), ctx_data: None })
            },
            BatchGQLRequest::Batch(requests) => {
                let ghost orig = requests@;
                let mut requests = requests;
                let mut bs: Vec<QueryBuilder<V>> = Vec::new();
                let n = requests.len();
                let mut i: usize = 0;
                while i < n
                    invariant
                        n == orig.len(),
                        i <= n,
                        requests@.len() == n - i,
                        forall|k: int| 0 <= k < n - i ==> requests@[k] == orig[i + k],
                        bs@.len() == i,
                        forall|k: int|
                            0 <= k < i ==> builder_of_request(#[trigger] bs@[k], orig[k]@),
                    decreases n - i,
                {
                    let request = requests.remove(0);
                    let b = match request.into_query_builder_opts(opts) {
                        Ok(b) => b,
                        Err(e) => {
                            return Err(e);
                        },
                    };
                    bs.push(b);
                    i = i + 1;
                }
                Ok(BatchQueryBuilder { builder: QueryBuilderTypes::Batch(bs), ctx_data: None })
            },
        }
    }
}

} // verus!
