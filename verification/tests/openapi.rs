use biubin::openapi::{
    endpoint_description, http_capabilities, http_endpoint, http_endpoints, http_tags, media_type, openapi_document,
    openapi_methods, operation, operation_id, parameter_type, path_parameters, query_parameter_schema,
    response_definitions, supports_structured_body, tag_for_path, Methods, ParameterLocation, Security,
    ENDPOINT_COUNT,
};

#[test]
fn table_lists_every_fixture() {
    let endpoints = http_endpoints();
    assert_eq!(endpoints.len(), ENDPOINT_COUNT);
    assert_eq!(endpoints[0].openapi_path, "/get");
    assert_eq!(endpoints[0].methods, Methods::Get);
    let nested = &endpoints[7];
    assert_eq!(nested.capability_path, "/anything/*");
    assert_eq!(nested.openapi_path, "/anything/{path}");
    let drip = http_endpoint(43);
    assert_eq!(drip.openapi_path, "/drip");
    assert_eq!(drip.query_parameters.len(), 5);
    assert_eq!(drip.query_parameters[3].name, "chunk_size");
}

#[test]
fn capabilities_describe_all_request_echo_routes() {
    let capabilities = http_capabilities();
    assert_eq!(capabilities.len(), ENDPOINT_COUNT);
    let get = capabilities.iter().find(|c| c.path == "/get").unwrap();
    assert_eq!(get.methods, vec!["GET".to_owned(), "HEAD".to_owned()]);
    assert_eq!(get.protocol, "http");
    let any = capabilities.iter().find(|c| c.path == "/anything/*").unwrap();
    assert_eq!(any.methods, vec!["*".to_owned()]);
    assert!(any.any_method);
    for (path, method) in [("/post", "POST"), ("/put", "PUT"), ("/patch", "PATCH"), ("/delete", "DELETE")] {
        let c = capabilities.iter().find(|c| c.path == path).unwrap();
        assert_eq!(c.methods, vec![method.to_owned()]);
    }
}

#[test]
fn operations_are_named_and_tagged() {
    assert_eq!(operation_id("/anything/", "GET"), "get_anything_trailing_slash");
    assert_eq!(operation_id("/basic-auth/{user}/{password}", "Post"), "post_basic_auth_user_password");
    assert_eq!(operation_id("/", "GET"), "get_root");
    assert_eq!(tag_for_path("/image/png"), "Media");
    assert_eq!(tag_for_path("/etag/{value}"), "State and caching");
    assert_eq!(tag_for_path("/bearer"), "Authentication");
    assert_eq!(tag_for_path("/unstable"), "Failure simulation");
    assert_eq!(tag_for_path("/get"), "Request fixtures");
    assert_eq!(path_parameters("/cookies/set/{name}/{value}"), vec!["name".to_owned(), "value".to_owned()]);
    assert!(path_parameters("/get").is_empty());
    assert_eq!(parameter_type("count"), "integer");
    assert_eq!(parameter_type("name"), "string");
    assert_eq!(media_type("text/plain; charset=utf-8"), "text/plain");
    assert!(supports_structured_body("/anything/{path}"));
    assert!(!supports_structured_body("/get"));
    assert!(endpoint_description("/drip").unwrap().contains("30 seconds"));
    assert_eq!(endpoint_description("/get"), None);
    let schema = query_parameter_schema("status_code");
    assert_eq!((schema.kind.as_str(), schema.minimum, schema.maximum), ("integer", Some(100), Some(999)));
    assert_eq!(query_parameter_schema("seed").kind, "string");
    assert_eq!(openapi_methods(Methods::Any).len(), 7);
    assert_eq!(http_tags().len(), 8);
}

#[test]
fn response_definitions_follow_the_path() {
    let responses = response_definitions("/redirect-to", "application/json");
    let statuses: Vec<&str> = responses.iter().map(|(s, _)| s.as_str()).collect();
    assert_eq!(statuses, vec!["200", "301", "302", "303", "307", "308", "400", "default"]);
    let media = response_definitions("/video/webm", "video/webm");
    assert_eq!(media[1].0, "206");
    assert_eq!(media[1].1.content_type.as_deref(), Some("video/webm"));
    assert_eq!(response_definitions("/get", "application/json").len(), 2);
}

#[test]
fn operation_collects_parameters_security_and_body() {
    let endpoints = http_endpoints();
    let auth = endpoints.iter().find(|e| e.openapi_path == "/basic-auth/{user}/{password}").unwrap();
    let op = operation(auth, "GET");
    assert_eq!(op.security, Some(Security::Basic));
    assert_eq!(op.parameters.len(), 2);
    assert_eq!(op.parameters[0].location, ParameterLocation::Path);
    assert!(op.parameters[0].required);
    let post = endpoints.iter().find(|e| e.openapi_path == "/post").unwrap();
    assert!(operation(post, "POST").request_body);
    let redirect = endpoints.iter().find(|e| e.openapi_path == "/redirect-to").unwrap();
    let op = operation(redirect, "GET");
    assert_eq!(op.parameters.len(), 2);
    assert_eq!(op.parameters[1].location, ParameterLocation::Query);
    assert!(!op.parameters[1].required);
    assert!(op.description.is_some());
    assert!(!op.request_body);
}

#[test]
fn document_has_every_path_and_method() {
    let doc = openapi_document("0.2.1");
    assert_eq!(doc.openapi, "3.0.3");
    assert_eq!(doc.version, "0.2.1");
    assert_eq!(doc.paths.len(), ENDPOINT_COUNT);
    let anything = doc.paths.iter().find(|p| p.path == "/anything").unwrap();
    assert!(anything.any_method);
    assert_eq!(anything.operations.len(), 7);
    assert_eq!(anything.operations[0].0, "get");
    let get = doc.paths.iter().find(|p| p.path == "/get").unwrap();
    let keys: Vec<&str> = get.operations.iter().map(|(k, _)| k.as_str()).collect();
    assert_eq!(keys, vec!["get", "head"]);
    assert_eq!(get.operations[0].1.operation_id, "get_get");
}
