use gql_core::context::ExecutionContext;
use gql_core::directives::OnFieldDefinition;
use gql_core::directives::OnInputValue;
use gql_core::executor::apply_input_validators;
use gql_core::executor::ArgNode;
use gql_core::executor::ArgSource;
use gql_core::executor::Document;
use gql_core::executor::FieldNode;
use gql_core::executor::InputField;
use gql_core::executor::InputNode;
use gql_core::executor::OperationKind;
use gql_core::executor::ParseOutcome;
use gql_core::executor::Registry;
use gql_core::executor::Resolved;
use gql_core::executor::ResolveError;
use gql_core::executor::ResolvedArg;
use gql_core::executor::ObjectResolver;
use gql_core::error::FieldErrorV;
use gql_core::executor::FieldNodeV;
use gql_core::executor::ResolveErrorV;
use gql_core::executor::ResolvedArgV;
use gql_core::executor::ResolvedV;
use gql_core::json::JsonVal;
use gql_core::json::JsonValue;
use gql_core::Error;
use vstd::prelude::Seq;
use gql_core::FieldError;
use gql_core::FieldResult;
use gql_core::InputValueError;
use gql_core::InputValueResult;
use gql_core::Pos;
use gql_core::QueryBuilder;
use gql_core::QueryError;

#[derive(Clone, Copy, PartialEq, Eq, Debug)]
enum Role {
    Guest,
    Admin,
}

const ROLE_KEY: u64 = 1;
const ROOT: u64 = 0;

struct Auth {
    role: Role,
}

impl OnFieldDefinition<Role> for Auth {
    fn before_field_resolve(&self, ctx: &ExecutionContext<Role>) -> FieldResult<()> {
        if let Some(role) = ctx.data_opt(ROLE_KEY) {
            if *role == self.role {
                return Ok(());
            }
        }
        Err(FieldError::new("forbidden".to_string()))
    }

    fn after_field_resolve(
        &self,
        _ctx: &ExecutionContext<Role>,
        _value: &mut JsonValue,
    ) -> FieldResult<()> {
        Ok(())
    }

    // The trait's specification items; never called at run time.
    fn before_ok(&self, _ctx: &ExecutionContext<Role>) -> bool {
        unreachable!()
    }

    fn before_error(&self, _ctx: &ExecutionContext<Role>) -> FieldErrorV {
        unreachable!()
    }

    fn after_ok(&self, _ctx: &ExecutionContext<Role>, _value: JsonVal) -> bool {
        unreachable!()
    }

    fn after_value(&self, _ctx: &ExecutionContext<Role>, _value: JsonVal) -> JsonVal {
        unreachable!()
    }

    fn after_error(&self, _ctx: &ExecutionContext<Role>, _value: JsonVal) -> FieldErrorV {
        unreachable!()
    }
}

struct GTZero {}

impl OnInputValue<i32> for GTZero {
    fn input_value(&self, value: i32) -> InputValueResult<i32> {
        if value <= 0 {
            return Err(InputValueError::Custom("Must be greater than 0".to_string()));
        }
        Ok(value)
    }

    // The trait's specification items; never called at run time.
    fn accepts(&self, _value: i32) -> bool {
        unreachable!()
    }

    fn transformed(&self, _value: i32) -> i32 {
        unreachable!()
    }

    fn reason(&self, _value: i32) -> Seq<char> {
        unreachable!()
    }
}

struct Query {
    value: i32,
}

fn int_of(node: &InputNode) -> i32 {
    match node {
        InputNode::Value(JsonValue::Int(v)) => *v as i32,
        _ => panic!("expected an integer input"),
    }
}

impl ObjectResolver<Role> for Query {
    fn resolve_field(
        &self,
        _object: u64,
        field: &FieldNode,
        args: &Vec<ResolvedArg>,
        _ctx: &ExecutionContext<Role>,
    ) -> Result<Resolved, ResolveError> {
        match field.name.as_str() {
            "value" => Ok(Resolved::Leaf(JsonValue::Int(10))),
            "valueRef" => Ok(Resolved::Leaf(JsonValue::Int(self.value as i64))),
            "testArg" => {
                let arg = &args[0];
                let input = int_of(&arg.value);
                match apply_input_validators(&vec![GTZero {}], input, arg.pos) {
                    Ok(input) => Ok(Resolved::Leaf(JsonValue::Int(input as i64))),
                    Err(e) => Err(ResolveError::Fatal(e)),
                }
            },
            "testInputObj" => {
                let arg = &args[0];
                let field = arg
                    .value
                    .object_field(&"value".to_string())
                    .expect("input object must carry a value field");
                let inner = int_of(&field.value);
                match apply_input_validators(&vec![GTZero {}], inner, field.pos) {
                    Ok(inner) => Ok(Resolved::Leaf(JsonValue::Int(inner as i64))),
                    Err(e) => Err(ResolveError::Fatal(e)),
                }
            },
            other => panic!("unknown field {other}"),
        }
    }

    // The trait's specification items; never called at run time.
    fn resolve_ok(
        &self,
        _object: u64,
        _field: FieldNodeV,
        _args: Seq<ResolvedArgV>,
        _ctx: &ExecutionContext<Role>,
    ) -> bool {
        unreachable!()
    }

    fn resolve_value(
        &self,
        _object: u64,
        _field: FieldNodeV,
        _args: Seq<ResolvedArgV>,
        _ctx: &ExecutionContext<Role>,
    ) -> ResolvedV {
        unreachable!()
    }

    fn resolve_error(
        &self,
        _object: u64,
        _field: FieldNodeV,
        _args: Seq<ResolvedArgV>,
        _ctx: &ExecutionContext<Role>,
    ) -> ResolveErrorV {
        unreachable!()
    }
}

fn leaf(name: &str, column: u32) -> FieldNode {
    FieldNode {
        name: name.to_string(),
        pos: Pos { line: 1, column },
        args: vec![],
        selection: vec![],
    }
}

fn doc(selection: Vec<FieldNode>) -> ParseOutcome {
    ParseOutcome::Doc(Document {
        kind: OperationKind::Query,
        pos: Pos { line: 1, column: 1 },
        selection,
    })
}

fn registry() -> Registry<Auth> {
    let mut registry = Registry::new();
    registry.register(ROOT, "value".to_string(), vec![Auth { role: Role::Admin }]);
    registry.register(ROOT, "valueRef".to_string(), vec![Auth { role: Role::Admin }]);
    registry
}

#[test]
pub fn test_custom_directive() {
    let registry = registry();
    let schema = Query { value: 99 };

    // { value }
    let value_doc = doc(vec![leaf("value", 3)]);
    assert_eq!(
        QueryBuilder::new("{ value }".to_string())
            .data(ROLE_KEY, Role::Admin)
            .execute(&value_doc, &registry, &schema, ROOT)
            .unwrap()
            .data,
        JsonValue::Obj(vec![("value".to_string(), JsonValue::Int(10))])
    );

    assert_eq!(
        QueryBuilder::new("{ value }".to_string())
            .data(ROLE_KEY, Role::Guest)
            .execute(&value_doc, &registry, &schema, ROOT)
            .unwrap_err(),
        Error::Query {
            pos: Pos { line: 1, column: 3 },
            path: Some(JsonValue::Arr(vec![JsonValue::Str("value".to_string())])),
            err: QueryError::FieldError {
                err: "forbidden".to_string(),
                extended_error: None,
            },
        }
    );

    // { valueRef }
    let value_ref_doc = doc(vec![leaf("valueRef", 3)]);
    assert_eq!(
        QueryBuilder::new("{ valueRef }".to_string())
            .data(ROLE_KEY, Role::Admin)
            .execute(&value_ref_doc, &registry, &schema, ROOT)
            .unwrap()
            .data,
        JsonValue::Obj(vec![("valueRef".to_string(), JsonValue::Int(99))])
    );

    // { testArg(input: 10) }
    let test_arg_doc = |input: i64| {
        doc(vec![FieldNode {
            name: "testArg".to_string(),
            pos: Pos { line: 1, column: 3 },
            args: vec![ArgNode {
                name: "input".to_string(),
                pos: Pos { line: 1, column: 18 },
                value: ArgSource::Literal(InputNode::Value(JsonValue::Int(input))),
            }],
            selection: vec![],
        }])
    };
    assert_eq!(
        QueryBuilder::<Role>::new("{ testArg(input: 10) }".to_string())
            .execute(&test_arg_doc(10), &registry, &schema, ROOT)
            .unwrap()
            .data,
        JsonValue::Obj(vec![("testArg".to_string(), JsonValue::Int(10))])
    );

    assert_eq!(
        QueryBuilder::<Role>::new("{ testArg(input: -10) }".to_string())
            .execute(&test_arg_doc(-10), &registry, &schema, ROOT)
            .unwrap_err(),
        Error::Query {
            pos: Pos {
                column: 18,
                line: 1
            },
            path: None,
            err: QueryError::ParseInputValue {
                reason: "Must be greater than 0".to_string()
            }
        }
    );

    // { testInputObj(input: { value: 10 }) }; the inner field's value sits at
    // column 32, and a rejection points there — at the offending inner value,
    // not at the object literal that wraps it.
    let test_input_obj_doc = |inner: i64| {
        doc(vec![FieldNode {
            name: "testInputObj".to_string(),
            pos: Pos { line: 1, column: 3 },
            args: vec![ArgNode {
                name: "input".to_string(),
                pos: Pos { line: 1, column: 23 },
                value: ArgSource::Literal(InputNode::Object(vec![InputField {
                    name: "value".to_string(),
                    pos: Pos { line: 1, column: 32 },
                    value: InputNode::Value(JsonValue::Int(inner)),
                }])),
            }],
            selection: vec![],
        }])
    };
    assert_eq!(
        QueryBuilder::<Role>::new("{ testInputObj(input: { value: 10 }) }".to_string())
            .execute(&test_input_obj_doc(10), &registry, &schema, ROOT)
            .unwrap()
            .data,
        JsonValue::Obj(vec![("testInputObj".to_string(), JsonValue::Int(10))])
    );

    assert_eq!(
        QueryBuilder::<Role>::new("{ testInputObj(input: { value: -10 }) }".to_string())
            .execute(&test_input_obj_doc(-10), &registry, &schema, ROOT)
            .unwrap_err(),
        Error::Query {
            pos: Pos {
                column: 32,
                line: 1
            },
            path: None,
            err: QueryError::ParseInputValue {
                reason: "Must be greater than 0".to_string()
            }
        }
    );
}

#[test]
pub fn test_batch_shares_context_data() {
    // Batch-level context data is attached identically to every unit: one
    // shared store, which each unit's directives read.
    let registry = registry();
    let schema = Query { value: 99 };
    let batch = gql_core::query::BatchQueryBuilder {
        builder: gql_core::query::QueryBuilderTypes::Batch(vec![
            QueryBuilder::new("{ value }".to_string()),
            QueryBuilder::new("{ valueRef }".to_string()),
        ]),
        ctx_data: Some(vec![(ROLE_KEY, Role::Admin)]),
    };
    let (ctx, units) = batch.into_parts();
    let outcomes = vec![doc(vec![leaf("value", 3)]), doc(vec![leaf("valueRef", 3)])];
    let result =
        gql_core::executor::execute_batch(units, &ctx, &outcomes, &registry, &schema, ROOT);
    let response = gql_core::BatchGQLResponse::from(result);
    assert_eq!(
        response.serialize(),
        r#"[{"data":{"value":10}},{"data":{"valueRef":99}}]"#
    );
}

#[test]
pub fn test_forbidden_error_exact_text() {
    let registry = registry();
    let schema = Query { value: 99 };
    let value_doc = doc(vec![leaf("value", 3)]);
    let outcome = QueryBuilder::new("{ value }".to_string())
        .data(ROLE_KEY, Role::Guest)
        .execute(&value_doc, &registry, &schema, ROOT);
    let response = gql_core::GQLResponse(outcome);
    assert_eq!(
        response.serialize(),
        r#"{"errors":[{"message":"forbidden","locations":[{"line":1,"column":3}],"path":["value"]}]}"#
    );
}
