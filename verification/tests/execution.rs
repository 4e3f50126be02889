use std::cell::RefCell;
use std::rc::Rc;

use gql_core::context::ExecutionContext;
use gql_core::directives::OnFieldDefinition;
use gql_core::executor::execute_batch;
use gql_core::executor::ArgNode;
use gql_core::executor::ArgSource;
use gql_core::executor::Document;
use gql_core::executor::FieldNode;
use gql_core::executor::InputNode;
use gql_core::executor::ObjectResolver;
use gql_core::executor::OperationKind;
use gql_core::executor::ParseOutcome;
use gql_core::executor::Registry;
use gql_core::executor::Resolved;
use gql_core::executor::ResolveError;
use gql_core::executor::ResolvedArg;
use gql_core::error::FieldErrorV;
use gql_core::executor::FieldNodeV;
use gql_core::executor::ResolveErrorV;
use gql_core::executor::ResolvedArgV;
use gql_core::executor::ResolvedV;
use gql_core::json::JsonVal;
use gql_core::json::JsonValue;
use gql_core::BatchGQLRequest;
use vstd::prelude::Seq;
use gql_core::BatchGQLResponse;
use gql_core::Error;
use gql_core::FieldError;
use gql_core::FieldResult;
use gql_core::GQLRequest;
use gql_core::GQLResponse;
use gql_core::IntoQueryBuilderOpts;
use gql_core::Pos;
use gql_core::QueryBuilder;
use gql_core::QueryError;

const ROOT: u64 = 0;

fn leaf(name: &str, column: u32) -> FieldNode {
    FieldNode {
        name: name.to_string(),
        pos: Pos { line: 1, column },
        args: vec![],
        selection: vec![],
    }
}

fn doc(selection: Vec<FieldNode>) -> ParseOutcome {
    ParseOutcome::Doc(Document {
        kind: OperationKind::Query,
        pos: Pos { line: 1, column: 1 },
        selection,
    })
}

/// A directive that records each hook invocation and can be told to refuse.
struct Probe {
    id: u32,
    fail_before: bool,
    fail_after: bool,
    log: Rc<RefCell<Vec<u32>>>,
}

impl OnFieldDefinition<u8> for Probe {
    fn before_field_resolve(&self, _ctx: &ExecutionContext<u8>) -> FieldResult<()> {
        self.log.borrow_mut().push(self.id);
        if self.fail_before {
            Err(FieldError::new(format!("halt {}", self.id)))
        } else {
            Ok(())
        }
    }

    fn after_field_resolve(
        &self,
        _ctx: &ExecutionContext<u8>,
        value: &mut JsonValue,
    ) -> FieldResult<()> {
        self.log.borrow_mut().push(100 + self.id);
        if let JsonValue::Arr(items) = value {
            items.push(JsonValue::Int(self.id as i64));
        }
        if self.fail_after {
            Err(FieldError::new(format!("after halt {}", self.id)))
        } else {
            Ok(())
        }
    }

    // The trait's specification items; never called at run time.
    fn before_ok(&self, _ctx: &ExecutionContext<u8>) -> bool {
        unreachable!()
    }

    fn before_error(&self, _ctx: &ExecutionContext<u8>) -> FieldErrorV {
        unreachable!()
    }

    fn after_ok(&self, _ctx: &ExecutionContext<u8>, _value: JsonVal) -> bool {
        unreachable!()
    }

    fn after_value(&self, _ctx: &ExecutionContext<u8>, _value: JsonVal) -> JsonVal {
        unreachable!()
    }

    fn after_error(&self, _ctx: &ExecutionContext<u8>, _value: JsonVal) -> FieldErrorV {
        unreachable!()
    }
}

/// A scripted resolver over object handles; notes whether it ever ran.
struct Table {
    entries: Vec<(u64, &'static str, i64)>,
    objects: Vec<(u64, &'static str, u64)>,
    lists: Vec<(u64, &'static str, Vec<u64>)>,
    failures: Vec<(u64, &'static str)>,
    ran: Rc<RefCell<bool>>,
}

impl Table {
    fn new() -> Table {
        Table {
            entries: vec![],
            objects: vec![],
            lists: vec![],
            failures: vec![],
            ran: Rc::new(RefCell::new(false)),
        }
    }
}

impl ObjectResolver<u8> for Table {
    fn resolve_field(
        &self,
        object: u64,
        field: &FieldNode,
        args: &Vec<ResolvedArg>,
        _ctx: &ExecutionContext<u8>,
    ) -> Result<Resolved, ResolveError> {
        *self.ran.borrow_mut() = true;
        if let Some(arg) = args.first() {
            if let InputNode::Value(v) = &arg.value {
                if let JsonValue::Int(n) = v {
                    return Ok(Resolved::Leaf(JsonValue::Int(*n)));
                }
            }
        }
        for (obj, name) in &self.failures {
            if *obj == object && *name == field.name.as_str() {
                return Err(ResolveError::Field(FieldError::new("boom".to_string())));
            }
        }
        for (obj, name, value) in &self.entries {
            if *obj == object && *name == field.name.as_str() {
                return Ok(Resolved::Leaf(JsonValue::Int(*value)));
            }
        }
        for (obj, name, target) in &self.objects {
            if *obj == object && *name == field.name.as_str() {
                return Ok(Resolved::Object(*target));
            }
        }
        for (obj, name, targets) in &self.lists {
            if *obj == object && *name == field.name.as_str() {
                return Ok(Resolved::List(
                    targets.iter().map(|t| Resolved::Object(*t)).collect(),
                ));
            }
        }
        if field.name.as_str() == "empty" {
            return Ok(Resolved::Leaf(JsonValue::Arr(vec![])));
        }
        Err(ResolveError::Field(FieldError::new(format!(
            "unknown field {}",
            field.name
        ))))
    }

    // The trait's specification items; never called at run time.
    fn resolve_ok(
        &self,
        _object: u64,
        _field: FieldNodeV,
        _args: Seq<ResolvedArgV>,
        _ctx: &ExecutionContext<u8>,
    ) -> bool {
        unreachable!()
    }

    fn resolve_value(
        &self,
        _object: u64,
        _field: FieldNodeV,
        _args: Seq<ResolvedArgV>,
        _ctx: &ExecutionContext<u8>,
    ) -> ResolvedV {
        unreachable!()
    }

    fn resolve_error(
        &self,
        _object: u64,
        _field: FieldNodeV,
        _args: Seq<ResolvedArgV>,
        _ctx: &ExecutionContext<u8>,
    ) -> ResolveErrorV {
        unreachable!()
    }
}

#[test]
pub fn test_sync_resolver() {
    let mut table = Table::new();
    table.objects.push((ROOT, "obj", 1));
    table.objects.push((ROOT, "simpleObj", 2));
    table.entries.push((1, "value1", 10));
    table.entries.push((2, "value1", 10));
    table.entries.push((2, "value2", 20));
    let registry: Registry<Probe> = Registry::new();

    let query = doc(vec![
        FieldNode {
            name: "obj".to_string(),
            pos: Pos { line: 3, column: 17 },
            args: vec![],
            selection: vec![leaf("value1", 21)],
        },
        FieldNode {
            name: "simpleObj".to_string(),
            pos: Pos { line: 6, column: 17 },
            args: vec![],
            selection: vec![leaf("value1", 21), leaf("value2", 25)],
        },
    ]);
    let resp = QueryBuilder::<u8>::new("{ obj { value1 } simpleObj { value1 value2 } }".to_string())
        .execute(&query, &registry, &table, ROOT)
        .unwrap();
    assert_eq!(
        resp.data,
        JsonValue::Obj(vec![
            (
                "obj".to_string(),
                JsonValue::Obj(vec![("value1".to_string(), JsonValue::Int(10))]),
            ),
            (
                "simpleObj".to_string(),
                JsonValue::Obj(vec![
                    ("value1".to_string(), JsonValue::Int(10)),
                    ("value2".to_string(), JsonValue::Int(20)),
                ]),
            ),
        ])
    );
}

#[test]
fn test_data_only_exact_text() {
    let mut table = Table::new();
    table.entries.push((ROOT, "a", 1));
    table.entries.push((ROOT, "b", 2));
    table.entries.push((ROOT, "c", 3));
    let registry: Registry<Probe> = Registry::new();
    let query = doc(vec![leaf("a", 3), leaf("b", 5), leaf("c", 7)]);
    let outcome = QueryBuilder::<u8>::new("{ a b c }".to_string())
        .execute(&query, &registry, &table, ROOT);
    let response = GQLResponse(outcome);
    assert_eq!(response.serialize(), r#"{"data":{"a":1,"b":2,"c":3}}"#);
}

#[test]
fn test_before_hooks_run_in_order_and_short_circuit() {
    let log = Rc::new(RefCell::new(Vec::new()));
    let mut registry: Registry<Probe> = Registry::new();
    registry.register(
        ROOT,
        "guarded".to_string(),
        vec![
            Probe { id: 1, fail_before: false, fail_after: false, log: log.clone() },
            Probe { id: 2, fail_before: true, fail_after: false, log: log.clone() },
            Probe { id: 3, fail_before: false, fail_after: false, log: log.clone() },
        ],
    );
    let mut table = Table::new();
    table.entries.push((ROOT, "guarded", 7));
    let query = doc(vec![leaf("guarded", 3)]);
    let err = QueryBuilder::<u8>::new("{ guarded }".to_string())
        .execute(&query, &registry, &table, ROOT)
        .unwrap_err();
    // Hooks ran in declared order up to the refusal; the rest, and the
    // resolver, never ran.
    assert_eq!(*log.borrow(), vec![1, 2]);
    assert!(!*table.ran.borrow());
    assert_eq!(
        err,
        Error::Query {
            pos: Pos { line: 1, column: 3 },
            path: Some(JsonValue::Arr(vec![JsonValue::Str("guarded".to_string())])),
            err: QueryError::FieldError {
                err: "halt 2".to_string(),
                extended_error: None,
            },
        }
    );
    // Exactly one error is recorded, at the field's path.
    let text = GQLResponse(Err(err)).serialize();
    let parsed: serde_json::Value = serde_json::from_str(&text).unwrap();
    assert_eq!(parsed["errors"].as_array().unwrap().len(), 1);
}

#[test]
fn test_after_hooks_run_in_declared_order() {
    let log = Rc::new(RefCell::new(Vec::new()));
    let mut registry: Registry<Probe> = Registry::new();
    registry.register(
        ROOT,
        "empty".to_string(),
        vec![
            Probe { id: 1, fail_before: false, fail_after: false, log: log.clone() },
            Probe { id: 2, fail_before: false, fail_after: false, log: log.clone() },
            Probe { id: 3, fail_before: false, fail_after: false, log: log.clone() },
        ],
    );
    let table = Table::new();
    let query = doc(vec![leaf("empty", 3)]);
    let resp = QueryBuilder::<u8>::new("{ empty }".to_string())
        .execute(&query, &registry, &table, ROOT)
        .unwrap();
    // Before hooks 1..3, then after hooks 1..3 — the same, non-reversed order.
    assert_eq!(*log.borrow(), vec![1, 2, 3, 101, 102, 103]);
    // Each after hook appended its own mark, so the value shows the order too.
    assert_eq!(
        resp.data,
        JsonValue::Obj(vec![(
            "empty".to_string(),
            JsonValue::Arr(vec![JsonValue::Int(1), JsonValue::Int(2), JsonValue::Int(3)]),
        )])
    );
}

#[test]
fn test_after_hook_failure_is_field_scoped() {
    let log = Rc::new(RefCell::new(Vec::new()));
    let mut registry: Registry<Probe> = Registry::new();
    registry.register(
        ROOT,
        "empty".to_string(),
        vec![Probe { id: 4, fail_before: false, fail_after: true, log: log.clone() }],
    );
    let table = Table::new();
    let query = doc(vec![leaf("empty", 3)]);
    let err = QueryBuilder::<u8>::new("{ empty }".to_string())
        .execute(&query, &registry, &table, ROOT)
        .unwrap_err();
    assert_eq!(
        err,
        Error::Query {
            pos: Pos { line: 1, column: 3 },
            path: Some(JsonValue::Arr(vec![JsonValue::Str("empty".to_string())])),
            err: QueryError::FieldError {
                err: "after halt 4".to_string(),
                extended_error: None,
            },
        }
    );
}

#[test]
fn test_list_error_carries_element_index_in_path() {
    let mut table = Table::new();
    table.lists.push((ROOT, "items", vec![5, 6]));
    table.entries.push((5, "x", 1));
    table.failures.push((6, "x"));
    let registry: Registry<Probe> = Registry::new();
    let query = doc(vec![FieldNode {
        name: "items".to_string(),
        pos: Pos { line: 1, column: 3 },
        args: vec![],
        selection: vec![leaf("x", 11)],
    }]);
    let err = QueryBuilder::<u8>::new("{ items { x } }".to_string())
        .execute(&query, &registry, &table, ROOT)
        .unwrap_err();
    assert_eq!(
        err,
        Error::Query {
            pos: Pos { line: 1, column: 11 },
            path: Some(JsonValue::Arr(vec![
                JsonValue::Str("items".to_string()),
                JsonValue::Int(1),
                JsonValue::Str("x".to_string()),
            ])),
            err: QueryError::FieldError {
                err: "boom".to_string(),
                extended_error: None,
            },
        }
    );
}

#[test]
fn test_mutation_not_supported() {
    let table = Table::new();
    let registry: Registry<Probe> = Registry::new();
    let query = ParseOutcome::Doc(Document {
        kind: OperationKind::Mutation,
        pos: Pos { line: 1, column: 1 },
        selection: vec![],
    });
    let err = QueryBuilder::<u8>::new("mutation { nothing }".to_string())
        .execute(&query, &registry, &table, ROOT)
        .unwrap_err();
    assert_eq!(
        err,
        Error::Query {
            pos: Pos { line: 1, column: 1 },
            path: None,
            err: QueryError::NotSupported,
        }
    );
}

fn echo_query(column: u32) -> ParseOutcome {
    doc(vec![FieldNode {
        name: "echo".to_string(),
        pos: Pos { line: 1, column: 3 },
        args: vec![ArgNode {
            name: "v".to_string(),
            pos: Pos { line: 1, column },
            value: ArgSource::Variable("v".to_string()),
        }],
        selection: vec![],
    }])
}

#[test]
fn test_variables_resolve_and_missing_variable_fails() {
    let table = Table::new();
    let registry: Registry<Probe> = Registry::new();

    let request = GQLRequest::from_json(&JsonValue::Obj(vec![
        ("query".to_string(), JsonValue::Str("{ echo(v: $v) }".to_string())),
        (
            "variables".to_string(),
            JsonValue::Obj(vec![("v".to_string(), JsonValue::Int(5))]),
        ),
    ]))
    .unwrap();
    let builder: QueryBuilder<u8> = request
        .into_query_builder_opts(&IntoQueryBuilderOpts {})
        .unwrap();
    let resp = builder
        .execute(&echo_query(11), &registry, &table, ROOT)
        .unwrap();
    assert_eq!(
        resp.data,
        JsonValue::Obj(vec![("echo".to_string(), JsonValue::Int(5))])
    );

    let err = QueryBuilder::<u8>::new("{ echo(v: $v) }".to_string())
        .execute(&echo_query(11), &registry, &table, ROOT)
        .unwrap_err();
    assert_eq!(
        err,
        Error::Query {
            pos: Pos { line: 1, column: 11 },
            path: None,
            err: QueryError::VarNotDefined { name: "v".to_string() },
        }
    );
}

#[test]
fn test_malformed_variables_ignored_without_references() {
    // A malformed variables payload is dropped at the builder; a query that
    // references no variable still runs.
    let table = {
        let mut t = Table::new();
        t.entries.push((ROOT, "a", 1));
        t
    };
    let registry: Registry<Probe> = Registry::new();
    let request = GQLRequest {
        query: "{ a }".to_string(),
        operation_name: None,
        variables: Some(JsonValue::Int(3)),
    };
    let builder: QueryBuilder<u8> = request
        .into_query_builder_opts(&IntoQueryBuilderOpts {})
        .unwrap();
    let resp = builder
        .execute(&doc(vec![leaf("a", 3)]), &registry, &table, ROOT)
        .unwrap();
    assert_eq!(
        resp.data,
        JsonValue::Obj(vec![("a".to_string(), JsonValue::Int(1))])
    );
}

#[test]
fn test_batch_keeps_shape_and_order() {
    let mut table = Table::new();
    table.entries.push((ROOT, "a", 1));
    let registry: Registry<Probe> = Registry::new();

    let request = BatchGQLRequest::from_json(&JsonValue::Arr(vec![
        JsonValue::Obj(vec![("query".to_string(), JsonValue::Str("{ bad".to_string()))]),
        JsonValue::Obj(vec![("query".to_string(), JsonValue::Str("{ a }".to_string()))]),
    ]))
    .unwrap();
    let batch = request
        .into_batch_query_builder_opts::<u8>(&IntoQueryBuilderOpts {})
        .unwrap();
    let (ctx, units) = batch.into_parts();
    let outcomes = vec![
        ParseOutcome::Parse(gql_core::ParseError {
            message: "unexpected end of input".to_string(),
            pos: Pos { line: 1, column: 6 },
        }),
        doc(vec![leaf("a", 3)]),
    ];
    let result = execute_batch(units, &ctx, &outcomes, &registry, &table, ROOT);
    let response = BatchGQLResponse::from(result);
    // Batch(2) in, Batch(2) out, order preserved; the first unit's fatal
    // error does not abort its sibling.
    match &response {
        BatchGQLResponse::Batch(items) => assert_eq!(items.len(), 2),
        BatchGQLResponse::Single(_) => panic!("batch answered as single"),
    }
    assert_eq!(
        response.serialize(),
        r#"[{"errors":[{"message":"unexpected end of input","locations":[{"line":1,"column":6}]}]},{"data":{"a":1}}]"#
    );
}

#[test]
fn test_context_data_last_insert_wins() {
    let mut ctx: ExecutionContext<u8> = ExecutionContext::new();
    ctx.insert_data(1, 10);
    ctx.insert_data(1, 20);
    ctx.insert_data(2, 5);
    assert_eq!(ctx.data_opt(1), Some(&20));
    assert_eq!(ctx.data_opt(2), Some(&5));
    assert_eq!(ctx.data_opt(3), None);
}

#[test]
fn test_single_request_single_response() {
    let mut table = Table::new();
    table.entries.push((ROOT, "a", 1));
    let registry: Registry<Probe> = Registry::new();
    let request = BatchGQLRequest::from_json(&JsonValue::Obj(vec![(
        "query".to_string(),
        JsonValue::Str("{ a }".to_string()),
    )]))
    .unwrap();
    let batch = request
        .into_batch_query_builder_opts::<u8>(&IntoQueryBuilderOpts {})
        .unwrap();
    let (ctx, units) = batch.into_parts();
    let outcomes = vec![doc(vec![leaf("a", 3)])];
    let result = execute_batch(units, &ctx, &outcomes, &registry, &table, ROOT);
    let response = BatchGQLResponse::from(result);
    match &response {
        BatchGQLResponse::Single(_) => {},
        BatchGQLResponse::Batch(_) => panic!("single answered as batch"),
    }
    assert_eq!(response.serialize(), r#"{"data":{"a":1}}"#);
}
