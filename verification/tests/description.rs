use openapi_contract::Description;

const ORDERS: &str = r#"{"openapi":"3.1.0","info":{"title":"Orders"},"paths":{
  "/orders":{"post":{"operationId":"placeOrder"},"get":{"summary":"list"}},
  "/orders/{id}":{"parameters":[],"delete":{"operationId":"cancelOrder"}}}}"#;

#[test]
fn a_description_lists_its_title_and_every_operation_by_method_and_path() {
    let description = Description::parse(ORDERS).expect("json");
    assert_eq!(description.title(), "Orders");
    let ids: Vec<(&str, &str, Option<&str>)> = description
        .operations()
        .iter()
        .map(|o| {
            (
                o.method.as_str(),
                o.template.as_str(),
                o.operation_id.as_deref(),
            )
        })
        .collect();
    assert_eq!(
        ids,
        [
            ("get", "/orders", None),
            ("post", "/orders", Some("placeOrder")),
            ("delete", "/orders/{id}", Some("cancelOrder")),
        ]
    );
}

#[test]
fn a_description_without_paths_or_title_declares_nothing() {
    let webhooks = Description::parse(r#"{"openapi":"3.1.0","webhooks":{}}"#).expect("json");
    assert_eq!(webhooks.title(), "");
    assert!(webhooks.operations().is_empty());
    assert!(Description::parse("{nope").is_err());
}
