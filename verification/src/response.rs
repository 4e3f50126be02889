//! The response envelope assembler.
//!
//! A successful outcome becomes an object with a required `data` key; `label`,
//! `path` and `extensions` appear only when present upstream, never as null
//! placeholders. A failed outcome becomes an object holding only `errors`, an
//! ordered array of wire-shaped error objects. Batch outcomes serialize as an
//! array mirroring the batch request; single outcomes as a lone object.

use crate::error::Error;
use crate::error::ErrorV;
use crate::error::Pos;
use crate::error::QueryError;
use crate::error::QueryErrorV;
use crate::error::RuleErrorV;
use crate::error::query_error_message;
use crate::json::json_text;
use crate::json::json_val_of;
use crate::json::JsonVal;
use crate::json::JsonValue;
use vstd::prelude::*;
use vstd::string::StringExecFns;

verus! {

/// One query's successful outcome, before assembly.
#[derive(Debug, PartialEq)]
pub struct QueryResponse {
    /// The resolved data tree.
    pub data: JsonValue,
    /// An upstream label, emitted only when present.
    pub label: Option<String>,
    /// An upstream path, emitted only when present.
    pub path: Option<JsonValue>,
    /// An upstream extensions payload, emitted only when present.
    pub extensions: Option<JsonValue>,
}

/// The mathematical form of a [`QueryResponse`].
#[verifier::ext_equal]
pub struct QueryResponseV {
    pub data: JsonVal,
    pub label: Option<Seq<char>>,
    pub path: Option<JsonVal>,
    pub extensions: Option<JsonVal>,
}

impl View for QueryResponse {
    type V = QueryResponseV;

    open spec fn view(&self) -> QueryResponseV {
        QueryResponseV {
            data: self.data@,
            label: match self.label {
                Some(l) => Some(l@),
                None => None,
            },
            path: match self.path {
                Some(p) => Some(json_val_of(p)),
                None => None,
            },
            extensions: match self.extensions {
                Some(e) => Some(json_val_of(e)),
                None => None,
            },
        }
    }
}

impl QueryResponse {
    /// A response that carries data and nothing else.
    pub fn of_data(data: JsonValue) -> (r: QueryResponse)
        ensures
            r@.data == data@,
            r@.label is None,
            r@.path is None,
            r@.extensions is None,
    {
        QueryResponse { data, label: None, path: None, extensions: None }
    }
}

/// The wire object for a position: `{"line":l,"column":c}`.
pub open spec fn pos_json(p: Pos) -> JsonVal {
    JsonVal::Obj(
        seq![
            ("line"@, JsonVal::Int(p.line as int)),
            ("column"@, JsonVal::Int(p.column as int)),
        ],
    )
}

/// The wire array holding one position.
pub open spec fn locations_json(p: Pos) -> JsonVal {
    JsonVal::Arr(seq![pos_json(p)])
}

/// The wire object for one rule violation: its message and its locations.
pub open spec fn rule_error_json(e: RuleErrorV) -> JsonVal {
    JsonVal::Obj(
        seq![
            ("message"@, JsonVal::Str(e.message)),
            (
                "locations"@,
                JsonVal::Arr(Seq::new(e.locations.len(), |i: int| pos_json(e.locations[i]))),
            ),
        ],
    )
}

/// The wire object for a failure during field resolution: message and
/// locations always; `path` only when the error carries one; `extensions`
/// only when a field error carries an object payload.
pub open spec fn query_error_json(pos: Pos, path: Option<JsonVal>, err: QueryErrorV) -> JsonVal {
    match err {
        QueryErrorV::FieldError { err: msg, extended_error } => {
            let head = seq![
                ("message"@, JsonVal::Str(msg)),
                ("locations"@, locations_json(pos)),
            ];
            let path_part = match path {
                Some(p) => seq![("path"@, p)],
                None => Seq::<(Seq<char>, JsonVal)>::empty(),
            };
            let ext_part = match extended_error {
                Some(x) => if x is Obj {
                    seq![("extensions"@, x)]
                } else {
                    Seq::<(Seq<char>, JsonVal)>::empty()
                },
                None => Seq::<(Seq<char>, JsonVal)>::empty(),
            };
            JsonVal::Obj(head + path_part + ext_part)
        },
        _ => JsonVal::Obj(
            seq![
                ("message"@, JsonVal::Str(query_error_message(err))),
                ("locations"@, locations_json(pos)),
            ],
        ),
    }
}

/// The wire `errors` array for a request-level failure.
pub open spec fn errors_json(e: ErrorV) -> JsonVal {
    match e {
        ErrorV::Parse(p) => JsonVal::Arr(
            seq![
                JsonVal::Obj(
                    seq![
                        ("message"@, JsonVal::Str(p.message)),
                        ("locations"@, locations_json(p.pos)),
                    ],
                ),
            ],
        ),
        ErrorV::Query { pos, path, err } => JsonVal::Arr(seq![query_error_json(pos, path, err)]),
        ErrorV::Rule { errors } => JsonVal::Arr(
            Seq::new(errors.len(), |i: int| rule_error_json(errors[i])),
        ),
    }
}

/// Law: a failure during field resolution surfaces as exactly one wire error
/// object, and a parse error likewise; only rule errors may report more.
pub proof fn lemma_field_failure_is_one_error(e: ErrorV)
    requires
        e is Query || e is Parse,
    ensures
        errors_json(e) matches JsonVal::Arr(items) && items.len() == 1,
{
}

/// The whole wire object for one outcome: `data` (with the optional keys
/// around it) on success, only `errors` on failure.
pub open spec fn response_json(r: Result<QueryResponseV, ErrorV>) -> JsonVal {
    match r {
        Ok(res) => {
            let label_part = match res.label {
                Some(l) => seq![("label"@, JsonVal::Str(l))],
                None => Seq::<(Seq<char>, JsonVal)>::empty(),
            };
            let path_part = match res.path {
                Some(p) => seq![("path"@, p)],
                None => Seq::<(Seq<char>, JsonVal)>::empty(),
            };
            let ext_part = match res.extensions {
                Some(x) => seq![("extensions"@, x)],
                None => Seq::<(Seq<char>, JsonVal)>::empty(),
            };
            JsonVal::Obj(label_part + path_part + seq![("data"@, res.data)] + ext_part)
        },
        Err(e) => JsonVal::Obj(seq![("errors"@, errors_json(e))]),
    }
}

/// The serializable error list of one failed outcome.
pub struct GQLError<'a>(pub &'a Error);

/// Builds the wire object for one position.
fn pos_value(p: Pos) -> (r: JsonValue)
    ensures
        r@ == pos_json(p),
{
    let entries = vec![
        (String::from_str("line"), JsonValue::Int(p.line as i64)),
        (String::from_str("column"), JsonValue::Int(p.column as i64)),
    ];
    let r = JsonValue::Obj(entries);
    proof {
        crate::json::lemma_obj_eq(r, pos_json(p)->Obj_0);
    }
    r
}

/// Builds the wire array holding one position.
fn locations_value(p: Pos) -> (r: JsonValue)
    ensures
        r@ == locations_json(p),
{
    let r = JsonValue::Arr(vec![pos_value(p)]);
    proof {
        crate::json::lemma_arr_eq(r, locations_json(p)->Arr_0);
    }
    r
}

impl<'a> GQLError<'a> {
    /// Builds the wire `errors` array for the error this borrows.
    pub fn to_json(&self) -> (r: JsonValue)
        ensures
            r@ == errors_json(self.0@),
    {
        match self.0 {
            Error::Parse(p) => {
                let obj = JsonValue::Obj(
                    vec![
                        (String::from_str("message"), JsonValue::Str(p.message.clone())),
                        (String::from_str("locations"), locations_value(p.pos)),
                    ],
                );
                proof {
                    crate::json::lemma_obj_eq(obj, errors_json(self.0@)->Arr_0[0]->Obj_0);
                }
                let r = JsonValue::Arr(vec![obj]);
                proof {
                    crate::json::lemma_arr_eq(r, errors_json(self.0@)->Arr_0);
                }
                r
            },
            Error::Query { pos, path, err } => {
                let mut entries: Vec<(String, JsonValue)> = Vec::new();
                match err {
                    QueryError::FieldError { err: msg, extended_error } => {
                        entries.push((String::from_str("message"), JsonValue::Str(msg.clone())));
                        entries.push((String::from_str("locations"), locations_value(*pos)));
                        if let Some(p) = path {
                            entries.push((String::from_str("path"), p.duplicate()));
                        }
                        if let Some(x) = extended_error {
                            if let JsonValue::Obj(_) = x {
                                entries.push((String::from_str("extensions"), x.duplicate()));
                            }
                        }
                    },
                    _ => {
                        entries.push((String::from_str("message"), JsonValue::Str(err.message())));
                        entries.push((String::from_str("locations"), locations_value(*pos)));
                    },
                }
                let obj = JsonValue::Obj(entries);
                proof {
                    crate::json::lemma_obj_eq(obj, errors_json(self.0@)->Arr_0[0]->Obj_0);
                }
                let r = JsonValue::Arr(vec![obj]);
                proof {
                    crate::json::lemma_arr_eq(r, errors_json(self.0@)->Arr_0);
                }
                r
            },
            Error::Rule { errors } => {
                let mut out: Vec<JsonValue> = Vec::new();
                let mut i: usize = 0;
                while i < errors.len()
                    invariant
                        *self.0 matches Error::Rule { errors: en } && en == *errors,
                        i <= errors@.len(),
                        out@.len() == i,
                        forall|k: int|
                            0 <= k < i ==> json_val_of(out@[k]) == rule_error_json(errors@[k]@),
                    decreases errors@.len() - i,
                {
                    let e = &errors[i];
                    let mut locs: Vec<JsonValue> = Vec::new();
                    let mut j: usize = 0;
                    while j < e.locations.len()
                        invariant
                            j <= e.locations@.len(),
                            locs@.len() == j,
                            forall|k: int|
                                0 <= k < j ==> json_val_of(locs@[k]) == pos_json(
                                    e.locations@[k],
                                ),
                        decreases e.locations@.len() - j,
                    {
                        locs.push(pos_value(e.locations[j]));
                        j = j + 1;
                    }
                    let locs_value = JsonValue::Arr(locs);
                    proof {
                        crate::json::lemma_arr_eq(
                            locs_value,
                            rule_error_json(errors@[i as int]@)->Obj_0[1].1->Arr_0,
                        );
                    }
                    let obj = JsonValue::Obj(
                        vec![
                            (String::from_str("message"), JsonValue::Str(e.message.clone())),
                            (String::from_str("locations"), locs_value),
                        ],
                    );
                    proof {
                        crate::json::lemma_obj_eq(obj, rule_error_json(errors@[i as int]@)->Obj_0);
                    }
                    out.push(obj);
                    i = i + 1;
                }
                let r = JsonValue::Arr(out);
                proof {
                    crate::json::lemma_arr_eq(r, errors_json(self.0@)->Arr_0);
                }
                r
            },
        }
    }

    /// Serializes the wire `errors` array.
    pub fn serialize(&self) -> (s: String)
        ensures
            s@ == json_text(errors_json(self.0@)),
    {
        self.to_json().to_text()
    }
}

/// One outcome, ready for the wire.
pub struct GQLResponse(pub Result<QueryResponse, Error>);

impl View for GQLResponse {
    type V = Result<QueryResponseV, ErrorV>;

    open spec fn view(&self) -> Result<QueryResponseV, ErrorV> {
        match self.0 {
            Ok(res) => Ok(res@),
            Err(e) => Err(e@),
        }
    }
}

impl GQLResponse {
    /// Builds the wire object for this outcome.
    pub fn to_json(&self) -> (r: JsonValue)
        ensures
            r@ == response_json(self@),
    {
        match &self.0 {
            Ok(res) => {
                let mut entries: Vec<(String, JsonValue)> = Vec::new();
                if let Some(label) = &res.label {
                    entries.push((String::from_str("label"), JsonValue::Str(label.clone())));
                }
                if let Some(path) = &res.path {
                    entries.push((String::from_str("path"), path.duplicate()));
                }
                entries.push((String::from_str("data"), res.data.duplicate()));
                if let Some(x) = &res.extensions {
                    entries.push((String::from_str("extensions"), x.duplicate()));
                }
                let r = JsonValue::Obj(entries);
                proof {
                    crate::json::lemma_obj_eq(r, response_json(self@)->Obj_0);
                }
                r
            },
            Err(e) => {
                let errors = GQLError(e).to_json();
                let r = JsonValue::Obj(vec![(String::from_str("errors"), errors)]);
                proof {
                    crate::json::lemma_obj_eq(r, response_json(self@)->Obj_0);
                }
                r
            },
        }
    }

    /// Serializes the outcome to its exact wire text.
    pub fn serialize(&self) -> (s: String)
        ensures
            s@ == json_text(response_json(self@)),
    {
        self.to_json().to_text()
    }
}

/// One or many outcomes, as execution produced them.
pub enum BatchQueryResponse {
    Single(Result<QueryResponse, Error>),
    Batch(Vec<Result<QueryResponse, Error>>),
}

/// One or many outcomes, ready for the wire; mirrors the request's shape.
pub enum BatchGQLResponse {
    Single(GQLResponse),
    Batch(Vec<GQLResponse>),
}

/// The mathematical form of a batch of outcomes.
#[verifier::ext_equal]
pub enum BatchResponseV {
    Single(Result<QueryResponseV, ErrorV>),
    Batch(Seq<Result<QueryResponseV, ErrorV>>),
}

/// The mathematical form of one outcome.
pub open spec fn outcome_view(r: Result<QueryResponse, Error>) -> Result<QueryResponseV, ErrorV> {
    match r {
        Ok(res) => Ok(res@),
        Err(e) => Err(e@),
    }
}

impl View for BatchQueryResponse {
    type V = BatchResponseV;

    open spec fn view(&self) -> BatchResponseV {
        match self {
            BatchQueryResponse::Single(r) => BatchResponseV::Single(outcome_view(*r)),
            BatchQueryResponse::Batch(rs) => BatchResponseV::Batch(
                Seq::new(rs@.len(), |i: int| outcome_view(rs@[i])),
            ),
        }
    }
}

impl View for BatchGQLResponse {
    type V = BatchResponseV;

    open spec fn view(&self) -> BatchResponseV {
        match self {
            BatchGQLResponse::Single(r) => BatchResponseV::Single(r@),
            BatchGQLResponse::Batch(rs) => BatchResponseV::Batch(
                Seq::new(rs@.len(), |i: int| rs@[i]@),
            ),
        }
    }
}

/// The wire document for a batch of outcomes: an array for a batch, a lone
/// object for a single outcome.
pub open spec fn batch_response_json(b: BatchResponseV) -> JsonVal {
    match b {
        BatchResponseV::Single(r) => response_json(r),
        BatchResponseV::Batch(rs) => JsonVal::Arr(
            Seq::new(rs.len(), |i: int| response_json(rs[i])),
        ),
    }
}

impl BatchGQLResponse {
    /// Wraps execution outcomes for the wire, keeping their shape and order.
    pub fn from(item: BatchQueryResponse) -> (r: BatchGQLResponse)
        ensures
            r@ == item@,
    {
        let ghost gitem = item;
        match item {
            BatchQueryResponse::Single(resp) => BatchGQLResponse::Single(GQLResponse(resp)),
            BatchQueryResponse::Batch(responses) => {
                let ghost orig = responses@;
                let mut rs: Vec<GQLResponse> = Vec::new();
                let mut responses = responses;
                let mut i: usize = 0;
                let n = responses.len();
                while i < n
                    invariant
                        n == orig.len(),
                        i <= n,
                        responses@.len() == n - i,
                        forall|k: int| 0 <= k < n - i ==> responses@[k] == orig[i + k],
                        rs@.len() == i,
                        forall|k: int| 0 <= k < i ==> rs@[k]@ == outcome_view(orig[k]),
                    decreases n - i,
                {
                    let resp = responses.remove(0);
                    rs.push(GQLResponse(resp));
                    i = i + 1;
                }
                let r = BatchGQLResponse::Batch(rs);
                proof {
                    assert(r@ is Batch && gitem@ is Batch);
                    assert forall|k: int| 0 <= k < orig.len() implies r@->Batch_0[k]
                        == gitem@->Batch_0[k] by {
                        assert(rs@[k]@ == outcome_view(orig[k]));
                    }
                    assert(r@->Batch_0 =~= gitem@->Batch_0);
                    assert(r@ =~~= gitem@);
                }
                r
            },
        }
    }

    /// Builds the wire document for this batch of outcomes.
    pub fn to_json(&self) -> (r: JsonValue)
        ensures
            r@ == batch_response_json(self@),
    {
        match self {
            BatchGQLResponse::Single(resp) => resp.to_json(),
            BatchGQLResponse::Batch(rs) => {
                let mut out: Vec<JsonValue> = Vec::new();
                let mut i: usize = 0;
                while i < rs.len()
                    invariant
                        *self matches BatchGQLResponse::Batch(b) && b == *rs,
                        i <= rs@.len(),
                        out@.len() == i,
                        forall|k: int|
                            0 <= k < i ==> json_val_of(out@[k]) == response_json(rs@[k]@),
                    decreases rs@.len() - i,
                {
                    out.push(rs[i].to_json());
                    i = i + 1;
                }
                let r = JsonValue::Arr(out);
                proof {
                    crate::json::lemma_arr_eq(r, batch_response_json(self@)->Arr_0);
                }
                r
            },
        }
    }

    /// Serializes the batch of outcomes to its exact wire text.
    pub fn serialize(&self) -> (s: String)
        ensures
            s@ == json_text(batch_response_json(self@)),
    {
        self.to_json().to_text()
    }
}

} // verus!
