use openapi_contract::json::{parse_json_bytes, parse_json_text, resolve_pointer};
use openapi_contract::openapi::reference_issue;
use openapi_contract::{
    defines, soundness, Description, Json, OpenApi, OpenApiFactory, Operation, Stream, StreamId,
    METHODS,
};

const ORDERS: &str = r##"{
    "openapi": "3.0.3",
    "info": {"title": "Orders", "version": "1"},
    "paths": {
        "/orders": {
            "post": {
                "operationId": "placeOrder",
                "requestBody": {"content": {"application/json": {"schema":
                    {"$ref": "#/components/schemas/Order"}}}},
                "responses": {"201": {"description": "placed"}}
            },
            "get": {"responses": {"200": {"$ref": "#/components/responses/List"}}}
        },
        "/orders/{id}": {"delete": {"operationId": "cancelOrder", "responses": {}}}
    },
    "components": {
        "schemas": {"Order": {"type": "object"}},
        "responses": {"List": {"description": "the orders"}}
    }
}"##;

fn stream(text: &str, media_type: Option<&str>) -> Stream {
    Stream::new(StreamId::new(7), text.as_bytes().to_vec(), media_type.map(str::to_string))
}

fn messages(text: &str) -> Vec<(String, String, Option<String>)> {
    OpenApi::new()
        .validate(&stream(text, None))
        .expect("validate")
        .issues
        .into_iter()
        .map(|i| (i.code, i.message, i.path))
        .collect()
}

#[test]
fn a_parsed_reference_is_parsed_again_from_how_it_is_written() {
    let route = Operation::parse("  Post   /orders/{id} ").expect("parse");
    assert_eq!(
        route,
        Operation::Route { method: "post".to_string(), path: "/orders/{id}".to_string() }
    );
    assert_eq!(route.reference(), "POST /orders/{id}");
    assert_eq!(Operation::parse(&route.reference()).expect("parse"), route);
    let id = Operation::parse("\tplaceOrder\n").expect("parse");
    assert_eq!(id, Operation::Id("placeOrder".to_string()));
    assert_eq!(id.reference(), "placeOrder");
    assert_eq!(Operation::parse(&id.reference()).expect("parse"), id);
}

#[test]
fn a_reference_that_names_nothing_is_refused_with_its_reason() {
    assert_eq!(Operation::parse("   ").unwrap_err().message, "an empty operation reference");
    assert_eq!(
        Operation::parse(" POST orders ").unwrap_err().message,
        "\"POST orders\" is not METHOD /path or an operationId"
    );
    assert_eq!(
        Operation::parse("GET \"x\"").unwrap_err().message,
        "\"GET \\\"x\\\"\" is not METHOD /path or an operationId"
    );
    assert_eq!(
        OpenApiFactory.load("POST orders").unwrap_err().message,
        "\"POST orders\" is not METHOD /path or an operationId"
    );
}

#[test]
fn a_blank_reference_loads_the_bare_contract() {
    let bare = OpenApiFactory.load("  ").expect("load");
    assert!(!bare.is_bound());
    assert_eq!(bare.descriptor().id.0, "openapi");
    assert_eq!(bare.descriptor().version, "1");
    assert_eq!(bare.descriptor().representation, "application/vnd.oai.openapi+json");
    assert_eq!(OpenApiFactory.technology(), "openapi");
    let bound = OpenApiFactory.load("placeOrder").expect("load");
    assert!(bound.is_bound());
    assert_eq!(bound.descriptor().id.0, "openapi:placeOrder");
    assert!(!OpenApi::default().is_bound());
}

#[test]
fn binding_adds_only_that_the_operation_is_not_defined() {
    let broken = ORDERS.replace("\"/orders\"", "\"orders\"");
    let bare = OpenApi::new().validate(&stream(&broken, None)).expect("validate");
    let bound = OpenApi::of(Operation::parse("patch /orders").expect("parse"))
        .validate(&stream(&broken, None))
        .expect("validate");
    assert_eq!(bound.issues.len(), bare.issues.len() + 1);
    assert_eq!(bound.issues[..bare.issues.len()], bare.issues[..]);
    let last = bound.issues.last().expect("issue");
    assert_eq!(last.code, "operation");
    assert_eq!(last.message, "does not define PATCH /orders");
    assert_eq!(last.path.as_deref(), Some("paths"));
    let held = OpenApi::of(Operation::parse("cancelOrder").expect("parse"))
        .validate(&stream(ORDERS, None))
        .expect("validate");
    assert!(held.valid);
    assert!(held.issues.is_empty());
}

#[test]
fn every_declared_operation_is_defined() {
    let document = parse_json_text(ORDERS).expect("json");
    let description = Description::of(&document);
    assert_eq!(description.title(), "Orders");
    assert_eq!(description.operations().len(), 3);
    for declared in description.operations() {
        let route = Operation::Route {
            method: declared.method.clone(),
            path: declared.template.clone(),
        };
        assert!(defines(&document, &route));
        if let Some(id) = &declared.operation_id {
            assert!(defines(&document, &Operation::Id(id.clone())));
        }
    }
    assert!(!defines(&document, &Operation::Id("listOrders".to_string())));
    assert!(!defines(
        &document,
        &Operation::Route { method: "POST".to_string(), path: "/orders".to_string() }
    ));
    assert!(!defines(&Json::Null, &Operation::Id("placeOrder".to_string())));
}

#[test]
fn a_description_is_read_from_a_value_built_by_hand() {
    let item = Json::Object(vec![
        ("trace".to_string(), Json::Object(vec![])),
        ("get".to_string(), Json::Object(vec![(
            "operationId".to_string(),
            Json::Number("1".to_string()),
        )])),
    ]);
    let document = Json::Object(vec![
        ("info".to_string(), Json::Object(vec![("title".to_string(), Json::Str("T".to_string()))])),
        ("paths".to_string(), Json::Object(vec![
            ("/a".to_string(), item),
            ("/b".to_string(), Json::Array(vec![])),
        ])),
    ]);
    let description = Description::of(&document);
    assert_eq!(description.title(), "T");
    let methods: Vec<(&str, &str, Option<&str>)> = description
        .operations()
        .iter()
        .map(|o| (o.method.as_str(), o.template.as_str(), o.operation_id.as_deref()))
        .collect();
    assert_eq!(methods, [("get", "/a", None), ("trace", "/a", None)]);
    assert_eq!(METHODS.len(), 8);
    assert_eq!(Description::default().title(), "");
    assert_eq!(
        Description::parse("{nope").unwrap_err().message,
        "not valid JSON: key must be a string at line 1 column 2"
    );
}

#[test]
fn what_is_not_json_is_malformed_with_the_parser_reason() {
    let issues = messages("{nope");
    assert_eq!(issues.len(), 1);
    assert_eq!(issues[0].0, "malformed");
    assert_eq!(issues[0].1, "not JSON: key must be a string at line 1 column 2");
    assert_eq!(issues[0].2, None);
    assert!(parse_json_bytes(b"[1, 2]").is_ok());
    assert!(parse_json_bytes(b"[1, 2").is_err());
}

#[test]
fn a_value_that_is_no_object_has_one_issue() {
    let issues = soundness(&Json::Array(vec![Json::Null]));
    assert_eq!(issues.len(), 1);
    assert_eq!(issues[0].code, "malformed");
    assert_eq!(issues[0].message, "the document is not a JSON object");
    assert_eq!(issues[0].path, None);
    assert_eq!(messages("\"openapi\"")[0].1, "the document is not a JSON object");
}

#[test]
fn the_version_decides_what_is_required() {
    let issues = messages(r#"{"openapi":"4.0","info":{"title":"t","version":"1"},"paths":{}}"#);
    assert_eq!(
        issues,
        [(
            "structure".to_string(),
            "neither openapi 3.x nor swagger 2.0 is declared".to_string(),
            Some("openapi".to_string())
        )]
    );
    let issues = messages(r#"{"openapi":3,"swagger":"2.0","info":{"title":"t","version":"1"},"paths":{}}"#);
    assert_eq!(issues.len(), 1);
    assert_eq!(issues[0].1, "neither openapi 3.x nor swagger 2.0 is declared");
    let issues = messages(r#"{"swagger":"2.0","info":{"title":"t","version":"1"}}"#);
    assert_eq!(
        issues,
        [("structure".to_string(), "paths is missing".to_string(), Some("paths".to_string()))]
    );
    let issues = messages(
        r#"{"openapi":"3.1.0","info":{"title":"t","version":"1"},"paths":{"/a":{"get":{}}}}"#,
    );
    assert!(issues.is_empty());
    let issues = messages(
        r#"{"openapi":"3.0.0","info":{"title":"t","version":"1"},"paths":{"/a":{"head":{"responses":[]}}}}"#,
    );
    assert_eq!(
        issues,
        [(
            "structure".to_string(),
            "an operation without responses".to_string(),
            Some("paths./a.head".to_string())
        )]
    );
    let issues = messages(r#"{"openapi":"3.0.0","info":7,"paths":"/a"}"#);
    let texts: Vec<&str> = issues.iter().map(|i| i.1.as_str()).collect();
    assert_eq!(
        texts,
        ["info.title is missing", "info.version is missing", "paths is not an object"]
    );
}

#[test]
fn references_that_do_not_land_are_named_where_they_stand() {
    let text = r##"{"openapi":"3.0.0","info":{"title":"t","version":"1"},"paths":{},
        "a/b": 1,
        "x": [0, 1, 2, 3, 4, 5, 6, 7, 8, 9, 10, {"$ref": "#/nowhere"}],
        "y": {"$ref": "#/a~1b"},
        "z": {"$ref": "other.json#/nowhere"},
        "w": {"$ref": "#"},
        ".v": {"$ref": "#/x/12"}}"##;
    let issues = messages(text);
    assert_eq!(
        issues,
        [
            (
                "reference".to_string(),
                "$ref #/x/12 does not land".to_string(),
                Some("v".to_string())
            ),
            (
                "reference".to_string(),
                "$ref #/nowhere does not land".to_string(),
                Some("x[11]".to_string())
            ),
        ]
    );
}

#[test]
fn a_json_pointer_resolves_through_objects_and_arrays() {
    let document = parse_json_text(r#"{"a":[{"b/c":"d"}]}"#).expect("json");
    assert_eq!(resolve_pointer(&document, "/a/0/b~1c"), Some(Json::Str("d".to_string())));
    assert_eq!(resolve_pointer(&document, "/a/1"), None);
    assert_eq!(resolve_pointer(&document, "a"), None);
    assert!(resolve_pointer(&document, "").is_some());
}

#[test]
fn a_stream_is_identified_by_its_media_type_or_its_text() {
    let bare = OpenApi::new();
    assert!(bare
        .identify(&stream("x", Some(" Application/VND.OAI.OpenAPI ; charset=utf-8")))
        .expect("identify"));
    assert!(!bare.identify(&stream("x", Some("application/json"))).expect("identify"));
    assert!(bare.identify(&stream("{\"swagger\": 2}", Some("text/plain"))).expect("identify"));
    assert!(!bare.identify(&stream("{openapi: 3}", None)).expect("identify"));
    let invalid = Stream::new(StreamId::new(2), vec![b'"', 0xff, b'"'], None);
    assert!(!bare.identify(&invalid).expect("identify"));
    assert_eq!(invalid.id(), StreamId::new(2));
    assert_eq!(invalid.media_type(), None);
    assert_eq!(invalid.bytes(), &[b'"', 0xff, b'"']);
}

#[test]
fn a_reference_is_reported_only_when_the_pointer_finds_nothing() {
    let target = "#/components/x".to_string();
    let path = "..paths./a".to_string();
    let issue = reference_issue(&target, &path, &None).expect("issue");
    assert_eq!(issue.code, "reference");
    assert_eq!(issue.message, "$ref #/components/x does not land");
    assert_eq!(issue.path.as_deref(), Some("paths./a"));
    assert!(reference_issue(&target, &path, &Some(Json::Null)).is_none());
}

#[test]
fn a_json_pointer_unescapes_tokens_and_reads_indices_strictly() {
    let document = parse_json_text(r#"{"~":{"a~1b":"t"},"list":["x","y"],"":"empty"}"#)
        .expect("json");
    assert_eq!(resolve_pointer(&document, "/~0/a~01b"), Some(Json::Str("t".to_string())));
    assert_eq!(resolve_pointer(&document, "/list/1"), Some(Json::Str("y".to_string())));
    assert_eq!(resolve_pointer(&document, "/list/01"), None);
    assert_eq!(resolve_pointer(&document, "/list/+1"), None);
    assert_eq!(resolve_pointer(&document, "/list/2"), None);
    assert_eq!(resolve_pointer(&document, "/"), Some(Json::Str("empty".to_string())));
}

#[test]
fn an_operation_is_defined_exactly_when_it_is_declared() {
    let document = parse_json_text(ORDERS).expect("json");
    let description = Description::of(&document);
    for method in METHODS {
        for template in ["/orders", "/orders/{id}", "/nowhere"] {
            let route = Operation::Route { method: method.to_string(), path: template.to_string() };
            let declared = description
                .operations()
                .iter()
                .any(|o| o.method == method && o.template == template);
            assert_eq!(defines(&document, &route), declared, "{method} {template}");
        }
    }
    for id in ["placeOrder", "cancelOrder", "listOrders"] {
        let declared = description
            .operations()
            .iter()
            .any(|o| o.operation_id.as_deref() == Some(id));
        assert_eq!(defines(&document, &Operation::Id(id.to_string())), declared, "{id}");
    }
}
