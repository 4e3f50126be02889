use gql_core::json::JsonValue;
use gql_core::query::ParseRequestError;
use gql_core::BatchGQLRequest;
use gql_core::GQLRequest;

fn request_object(query: &str) -> JsonValue {
    JsonValue::Obj(vec![("query".to_string(), JsonValue::Str(query.to_string()))])
}

#[test]
fn test_request() {
    let request: GQLRequest = GQLRequest::from_json(&request_object("{ a b c }")).unwrap();
    assert!(request.variables.is_none());
    assert!(request.operation_name.is_none());
    assert_eq!(request.query, "{ a b c }");
}

#[test]
fn test_batch_request() {
    let request: BatchGQLRequest = BatchGQLRequest::from_json(&JsonValue::Arr(vec![
        request_object("{ a b c }"),
        request_object("{ d e f }"),
    ]))
    .unwrap();
    if let BatchGQLRequest::Batch(requests) = request {
        assert_eq!(requests[0].query, "{ a b c }");
        assert_eq!(requests[1].query, "{ d e f }");
    } else {
        panic!("Batch query not parsed as a batch")
    }
}

#[test]
fn test_batch_request_single_operation() {
    let request: BatchGQLRequest =
        BatchGQLRequest::from_json(&request_object("{ a b c }")).unwrap();
    if let BatchGQLRequest::Single(request) = request {
        assert_eq!(request.query, "{ a b c }");
    } else {
        panic!("Batch query not parsed as a batch")
    }
}

#[test]
fn test_request_with_operation_name() {
    let request: GQLRequest = GQLRequest::from_json(&JsonValue::Obj(vec![
        ("query".to_string(), JsonValue::Str("{ a b c }".to_string())),
        ("operationName".to_string(), JsonValue::Str("a".to_string())),
    ]))
    .unwrap();
    assert!(request.variables.is_none());
    assert_eq!(request.operation_name.as_deref(), Some("a"));
    assert_eq!(request.query, "{ a b c }");
}

#[test]
fn test_request_with_variables() {
    let variables = JsonValue::Obj(vec![
        ("v1".to_string(), JsonValue::Int(100)),
        (
            "v2".to_string(),
            JsonValue::Arr(vec![JsonValue::Int(1), JsonValue::Int(2), JsonValue::Int(3)]),
        ),
        ("v3".to_string(), JsonValue::Str("str".to_string())),
    ]);
    let request: GQLRequest = GQLRequest::from_json(&JsonValue::Obj(vec![
        ("query".to_string(), JsonValue::Str("{ a b c }".to_string())),
        ("variables".to_string(), variables),
    ]))
    .unwrap();
    assert_eq!(
        request.variables,
        Some(JsonValue::Obj(vec![
            ("v1".to_string(), JsonValue::Int(100)),
            (
                "v2".to_string(),
                JsonValue::Arr(vec![JsonValue::Int(1), JsonValue::Int(2), JsonValue::Int(3)]),
            ),
            ("v3".to_string(), JsonValue::Str("str".to_string())),
        ]))
    );
    assert!(request.operation_name.is_none());
    assert_eq!(request.query, "{ a b c }");
}

#[test]
fn test_empty_batch_rejected() {
    let outcome = BatchGQLRequest::from_json(&JsonValue::Arr(vec![]));
    assert_eq!(outcome.unwrap_err(), ParseRequestError::EmptyBatch);
}

#[test]
fn test_request_shape_rejected() {
    assert_eq!(
        GQLRequest::from_json(&JsonValue::Int(3)).unwrap_err(),
        ParseRequestError::InvalidRequest
    );
    assert_eq!(
        GQLRequest::from_json(&JsonValue::Obj(vec![(
            "operationName".to_string(),
            JsonValue::Str("a".to_string()),
        )]))
        .unwrap_err(),
        ParseRequestError::InvalidRequest
    );
    assert_eq!(
        GQLRequest::from_json(&JsonValue::Obj(vec![
            ("query".to_string(), JsonValue::Str("{ a }".to_string())),
            ("operationName".to_string(), JsonValue::Int(1)),
        ]))
        .unwrap_err(),
        ParseRequestError::InvalidRequest
    );
    assert_eq!(
        BatchGQLRequest::from_json(&JsonValue::Str("{ a }".to_string())).unwrap_err(),
        ParseRequestError::InvalidRequest
    );
}

#[test]
fn test_duplicate_keys_last_wins() {
    let request: GQLRequest = GQLRequest::from_json(&JsonValue::Obj(vec![
        ("query".to_string(), JsonValue::Str("{ a }".to_string())),
        ("query".to_string(), JsonValue::Str("{ b }".to_string())),
    ]))
    .unwrap();
    assert_eq!(request.query, "{ b }");
}
