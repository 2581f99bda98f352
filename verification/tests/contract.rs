use openapi_contract::{OpenApi, OpenApiFactory, Operation, Stream, StreamId};

const ORDERS: &str = r##"{
    "openapi": "3.0.3",
    "info": {"title": "Orders", "version": "1"},
    "paths": {
        "/orders": {
            "post": {
                "operationId": "placeOrder",
                "requestBody": {"content": {"application/json": {"schema":
                    {"$ref": "#/components/schemas/Order"}}}},
                "responses": {"201": {"description": "placed"}}
            },
            "get": {"responses": {"200": {"$ref": "#/components/responses/List"}}}
        }
    },
    "components": {
        "schemas": {"Order": {"type": "object"}},
        "responses": {"List": {"description": "the orders"}}
    }
}"##;

fn stream(text: &str, media_type: Option<&str>) -> Stream {
    Stream::new(
        StreamId::new(1),
        text.as_bytes().to_vec(),
        media_type.map(str::to_string),
    )
}

#[test]
fn a_sound_description_holds_bare_and_bound() {
    let bare = OpenApi::new();
    assert!(bare.identify(&stream(ORDERS, None)).expect("identify"));
    assert!(
        bare.identify(&stream("{}", Some("application/vnd.oai.openapi+json")))
            .expect("identify")
    );
    assert!(!bare.identify(&stream("{\"a\":1}", None)).expect("identify"));
    let result = bare.validate(&stream(ORDERS, None)).expect("validate");
    assert!(result.valid, "{:?}", result.issues);
    for reference in ["POST /orders", "get /orders", "placeOrder"] {
        let bound = OpenApiFactory.load(reference).expect("load");
        assert!(
            bound
                .validate(&stream(ORDERS, None))
                .expect("validate")
                .valid,
            "{reference}"
        );
    }
    assert_eq!(
        OpenApiFactory
            .load("post /orders")
            .expect("load")
            .descriptor()
            .id
            .0,
        "openapi:POST /orders"
    );
    assert!(OpenApi::of(Operation::parse("x").expect("parse")).is_bound());
    let swagger = r#"{"swagger":"2.0","info":{"title":"t","version":"1"},"paths":{}}"#;
    assert!(
        bare.validate(&stream(swagger, None))
            .expect("validate")
            .valid
    );
    let webhooks = r#"{"openapi":"3.1.0","info":{"title":"t","version":"1"},"webhooks":{}}"#;
    assert!(
        bare.validate(&stream(webhooks, None))
            .expect("validate")
            .valid
    );
}

#[test]
fn departures_are_named_with_their_paths() {
    let broken = ORDERS
        .replace("#/components/schemas/Order", "#/components/schemas/Nope")
        .replace("\"/orders\"", "\"orders\"")
        .replace("\"version\": \"1\"", "\"v\": \"1\"");
    let result = OpenApi::new()
        .validate(&stream(&broken, None))
        .expect("validate");
    let messages: Vec<&str> = result.issues.iter().map(|i| i.message.as_str()).collect();
    assert_eq!(result.issues.len(), 3, "{messages:?}");
    assert_eq!(messages[0], "info.version is missing");
    assert_eq!(messages[1], "a path template that does not begin with /");
    assert!(messages[2].contains("$ref #/components/schemas/Nope does not land"));
    assert_eq!(
        result.issues[2].path.as_deref(),
        Some("paths.orders.post.requestBody.content.application/json.schema")
    );
    let no_responses = ORDERS.replace(
        r#""responses": {"201": {"description": "placed"}}"#,
        "\"x\": 1",
    );
    let result = OpenApi::new()
        .validate(&stream(&no_responses, None))
        .expect("validate");
    assert_eq!(result.issues[0].message, "an operation without responses");
    let bound = OpenApi::of(Operation::parse("DELETE /orders").expect("parse"));
    let result = bound.validate(&stream(ORDERS, None)).expect("validate");
    assert_eq!(result.issues[0].code, "operation");
    assert_eq!(result.issues[0].message, "does not define DELETE /orders");
    let bound = OpenApi::of(Operation::parse("cancelOrder").expect("parse"));
    assert!(
        !bound
            .validate(&stream(ORDERS, None))
            .expect("validate")
            .valid
    );
}

#[test]
fn what_is_not_a_description_does_not_hold() {
    let result = OpenApi::new()
        .validate(&stream("[1]", None))
        .expect("validate");
    assert_eq!(result.issues[0].code, "malformed");
    let result = OpenApi::new()
        .validate(&stream("{nope", None))
        .expect("validate");
    assert_eq!(result.issues[0].code, "malformed");
    let result = OpenApi::new()
        .validate(&stream(
            r#"{"info":{"title":"t","version":"1"},"paths":[]}"#,
            None,
        ))
        .expect("validate");
    assert_eq!(result.issues.len(), 2);
    assert!(Operation::parse("").is_err());
    assert!(Operation::parse("POST orders").is_err());
}
