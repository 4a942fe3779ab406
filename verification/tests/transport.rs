use graph_node::ethereum::EthereumContractStateError;
use graph_node::mock::{mock_query, MockServeError, MOCK_REQUESTS};
use graph_node::server::{
    check_query_stream, check_serve, schema_after_added, GraphQLServeError, StreamError,
};
use graph_node::schema::{Definition, Document, ScalarType, Schema, TypeDefinition};
use graph_node::service::{Asset, GraphQLService, Response, Route};
use std::sync::{Arc, Mutex};

fn test_schema() -> Schema {
    Schema {
        id: "test-schema".to_string(),
        document: Document {
            definitions: vec![Definition::TypeDefinition(TypeDefinition::Scalar(ScalarType {
                description: None,
                name: "String".to_string(),
            }))],
        },
    }
}

fn service() -> GraphQLService<u8> {
    GraphQLService::new(Arc::new(Mutex::new(Some(test_schema()))), Arc::new(7))
}

#[test]
fn new_service_keeps_schema_and_query_runner() {
    let schema = Arc::new(Mutex::new(Some(test_schema())));
    let runner = Arc::new(7u8);
    let service = GraphQLService::new(schema.clone(), runner.clone());
    assert!(Arc::ptr_eq(&service.schema, &schema));
    assert!(Arc::ptr_eq(&service.query_runner, &runner));
    assert_eq!(*service.schema.lock().unwrap(), Some(test_schema()));
    assert_eq!(*service.query_runner, 7);
}

#[test]
fn get_requests_are_routed_to_the_graphiql_files() {
    let service = service();
    assert_eq!(service.route("GET", "/"), Route::File(Asset::Index));
    assert_eq!(service.route("GET", "/graphiql.css"), Route::File(Asset::GraphiqlCss));
    assert_eq!(service.route("GET", "/graphiql.min.js"), Route::File(Asset::GraphiqlJs));
}

#[test]
fn graphql_requests_are_routed_by_method() {
    let service = service();
    assert_eq!(service.route("POST", "/graphql"), Route::Query);
    assert_eq!(service.route("OPTIONS", "/graphql"), Route::Options);
}

#[test]
fn everything_else_is_not_found() {
    let service = service();
    for (method, path) in [
        ("GET", "/graphql"),
        ("POST", "/"),
        ("OPTIONS", "/"),
        ("PUT", "/graphql"),
        ("get", "/"),
        ("GET", ""),
        ("GET", "/graphiql.js"),
        ("POST", "/graphql/"),
        ("", ""),
    ] {
        assert_eq!(service.route(method, path), Route::NotFound, "{} {}", method, path);
    }
}

#[test]
fn files_are_served_with_status_200() {
    let response = service().serve_file("<html></html>");
    assert_eq!(
        response,
        Response { status: 200, headers: vec![], body: "<html></html>".to_string() }
    );
}

#[test]
fn options_allow_any_origin_and_content_type() {
    let response = service().handle_graphql_options();
    assert_eq!(
        response,
        Response {
            status: 200,
            headers: vec![
                ("Access-Control-Allow-Origin".to_string(), "*".to_string()),
                ("Access-Control-Allow-Headers".to_string(), "Content-Type".to_string()),
            ],
            body: String::new(),
        }
    );
}

#[test]
fn not_found_is_status_404() {
    let response = service().handle_not_found();
    assert_eq!(
        response,
        Response { status: 404, headers: vec![], body: "Not found".to_string() }
    );
}

#[test]
fn mock_serve_error_describes_itself() {
    assert_eq!(MockServeError.description(), "Mock serve error");
    assert_eq!(MockServeError.to_string(), "Mock serve error");
}

#[test]
fn serve_error_describes_itself() {
    let error = GraphQLServeError::OrphanError;
    assert_eq!(error.description(), "Failed to start the server");
    assert_eq!(
        error.to_string(),
        "OrphanError: No component set up to handle the queries"
    );
}

#[test]
fn contract_state_error_has_one_case() {
    let error = EthereumContractStateError::Failed;
    assert_eq!(error, EthereumContractStateError::Failed);
    assert!(matches!(error, EthereumContractStateError::Failed));
}

#[test]
fn the_query_stream_is_handed_out_once() {
    assert_eq!(check_query_stream(false), Ok(()));
    assert_eq!(check_query_stream(true), Err(StreamError::AlreadyCreated));
}

#[test]
fn a_server_without_a_query_handler_does_not_serve() {
    assert!(check_serve(true).is_ok());
    assert!(matches!(check_serve(false), Err(GraphQLServeError::OrphanError)));
}

#[test]
fn an_added_schema_replaces_the_schema_when_an_api_schema_is_derived() {
    let derived = Document { definitions: vec![Definition::SchemaDefinition] };
    assert_eq!(
        schema_after_added(None, "input-schema".to_string(), Some(derived.clone())),
        Some(Schema { id: "input-schema".to_string(), document: derived.clone() })
    );
    assert_eq!(
        schema_after_added(Some(test_schema()), "input-schema".to_string(), Some(derived.clone())),
        Some(Schema { id: "input-schema".to_string(), document: derived })
    );
    assert_eq!(
        schema_after_added(Some(test_schema()), "input-schema".to_string(), None),
        Some(test_schema())
    );
    assert_eq!(schema_after_added(None, "input-schema".to_string(), None), None);
}

#[test]
fn the_mock_server_runs_five_queries_for_all_users() {
    assert_eq!(MOCK_REQUESTS, 5);
    assert_eq!(mock_query(), "{ allUsers { name }}");
}
