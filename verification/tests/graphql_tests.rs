use inventario_cappellettoshop::json::JsonValue;
use inventario_cappellettoshop::products::{
    build_name_search_query, build_sku_search_query, build_title_search_path,
    convert_graphql_product_to_product, filter_products_with_sku, find_exact_sku_match,
    parse_graphql_products_response,
};

fn obj(fields: Vec<(&str, JsonValue)>) -> JsonValue {
    JsonValue::Object(
        fields
            .into_iter()
            .map(|(k, v)| (k.to_string(), v))
            .collect(),
    )
}

fn s(v: &str) -> JsonValue {
    JsonValue::Str(v.to_string())
}

fn sample_product_node() -> JsonValue {
    obj(vec![
        ("id", s("gid://shopify/Product/123456789")),
        ("title", s("Test GraphQL Product")),
        ("handle", s("test-graphql-product")),
        ("descriptionHtml", s("<p>GraphQL product description</p>")),
        (
            "priceRangeV2",
            obj(vec![("minVariantPrice", obj(vec![("amount", s("49.99"))]))]),
        ),
        (
            "images",
            obj(vec![(
                "edges",
                JsonValue::Array(vec![obj(vec![(
                    "node",
                    obj(vec![("src", s("https://example.com/graphql-image.jpg"))]),
                )])]),
            )]),
        ),
        (
            "variants",
            obj(vec![(
                "edges",
                JsonValue::Array(vec![obj(vec![(
                    "node",
                    obj(vec![
                        ("id", s("gid://shopify/ProductVariant/987654321")),
                        ("title", s("GraphQL Variant")),
                        (
                            "inventoryItem",
                            obj(vec![("id", s("gid://shopify/InventoryItem/111222333"))]),
                        ),
                        ("inventoryQuantity", JsonValue::Int(15)),
                        ("price", s("49.99")),
                        ("sku", s("GQL-SKU-001")),
                    ]),
                )])]),
            )]),
        ),
    ])
}

#[test]
fn test_graphql_product_response_parsing() {
    let sample_graphql_response = obj(vec![(
        "data",
        obj(vec![(
            "products",
            obj(vec![(
                "edges",
                JsonValue::Array(vec![obj(vec![("node", sample_product_node())])]),
            )]),
        )]),
    )]);

    let products = parse_graphql_products_response(&sample_graphql_response).unwrap();
    assert_eq!(products.len(), 1);

    let product = &products[0];
    assert_eq!(product.title, "Test GraphQL Product");
    assert_eq!(product.id, "123456789");

    assert_eq!(product.variants.len(), 1);
    let variant = &product.variants[0];
    assert_eq!(variant.sku, Some("GQL-SKU-001".to_string()));
    assert_eq!(variant.inventory_quantity, 15);
    assert_eq!(variant.inventory_item_id, "111222333");
}

#[test]
fn test_graphql_id_parsing() {
    let graphql_ids = vec![
        ("gid://shopify/Product/123456789", "123456789"),
        ("gid://shopify/ProductVariant/987654321", "987654321"),
        ("gid://shopify/InventoryItem/111222333", "111222333"),
    ];

    for (full_id, expected_id) in graphql_ids {
        let parsed_id = full_id
            .replace("gid://shopify/Product/", "")
            .replace("gid://shopify/ProductVariant/", "")
            .replace("gid://shopify/InventoryItem/", "");

        assert!(
            parsed_id.contains(expected_id),
            "Should extract numeric ID from GraphQL Global ID"
        );
    }
}

#[test]
fn test_graphql_sku_search_query_structure() {
    let test_sku = "TEST-SKU-123";

    let query_sku_part = format!("query: \"sku:{}", test_sku);
    let expected_query_parts = vec![
        "products(first:",
        query_sku_part.as_str(),
        "status:active",
        "variants(first:",
        "inventoryItem",
        "inventoryQuantity",
    ];

    let query_template = format!(
        "products(first: 50, query: \"sku:{} status:active\") {{ variants(first: 50) {{ inventoryItem {{ id }} inventoryQuantity }} }}",
        test_sku
    );

    for part in expected_query_parts {
        assert!(
            query_template.contains(part),
            "Query should contain: {}",
            part
        );
    }
}

#[test]
fn test_built_sku_search_query_contains_expected_parts() {
    let query = build_sku_search_query("TEST-SKU-123", 50);
    for part in [
        "products(first: 50",
        "query: \"sku:TEST-SKU-123",
        "status:active",
        "variants(first:",
        "inventoryItem",
        "inventoryQuantity",
    ] {
        assert!(query.contains(part), "Query should contain: {}", part);
    }
}

#[test]
fn test_built_name_search_query_defaults_and_escaping() {
    let query = build_name_search_query(&"red \"shoe\"".to_string(), &None, &None);
    assert!(query.contains("title:red \\\"shoe\\\"*"));
    assert!(query.contains("sortKey: RELEVANCE"));
    assert!(query.contains("reverse: false"));

    let sorted = build_name_search_query(
        &"hat".to_string(),
        &Some("TITLE".to_string()),
        &Some(true),
    );
    assert!(sorted.contains("sortKey: TITLE"));
    assert!(sorted.contains("reverse: true"));
}

#[test]
fn test_title_search_path_is_percent_encoded() {
    let path = build_title_search_path("red shoe");
    assert_eq!(path, "products.json?title=red%20shoe&limit=250");
}

#[test]
fn test_graphql_exact_sku_matching() {
    let node = obj(vec![
        ("id", s("gid://shopify/Product/123")),
        ("title", s("Product 1")),
        (
            "variants",
            obj(vec![(
                "edges",
                JsonValue::Array(vec![
                    obj(vec![(
                        "node",
                        obj(vec![
                            ("id", s("gid://shopify/ProductVariant/456")),
                            ("sku", s("EXACT-MATCH-SKU")),
                            ("inventoryQuantity", JsonValue::Int(10)),
                            (
                                "inventoryItem",
                                obj(vec![("id", s("gid://shopify/InventoryItem/901"))]),
                            ),
                        ]),
                    )]),
                    obj(vec![(
                        "node",
                        obj(vec![
                            ("id", s("gid://shopify/ProductVariant/789")),
                            ("sku", s("PARTIAL-EXACT-MATCH-SKU")),
                            ("inventoryQuantity", JsonValue::Int(5)),
                            (
                                "inventoryItem",
                                obj(vec![("id", s("gid://shopify/InventoryItem/902"))]),
                            ),
                        ]),
                    )]),
                ]),
            )]),
        ),
    ]);

    let product = convert_graphql_product_to_product(&node).unwrap();

    let exact: Vec<_> = product
        .variants
        .iter()
        .filter(|v| v.sku.as_deref() == Some("EXACT-MATCH-SKU"))
        .collect();
    assert_eq!(exact.len(), 1);
    assert_eq!(exact[0].sku.as_deref(), Some("EXACT-MATCH-SKU"));

    let found = find_exact_sku_match(vec![product.clone()], "exact-match-sku");
    let (matched, inventory_item_id) = found.expect("case-insensitive exact match");
    assert_eq!(matched.id, "123");
    assert_eq!(inventory_item_id, "901");

    let kept = filter_products_with_sku(vec![product], "EXACT-MATCH-SKU");
    assert_eq!(kept.len(), 1);

    let none = find_exact_sku_match(kept, "NO-SUCH-SKU");
    assert!(none.is_none());
}

#[test]
fn test_graphql_error_response_handling() {
    let error_response = obj(vec![(
        "errors",
        JsonValue::Array(vec![obj(vec![
            (
                "message",
                s("Field 'products' doesn't exist on type 'QueryRoot'"),
            ),
            (
                "locations",
                JsonValue::Array(vec![obj(vec![
                    ("line", JsonValue::Int(2)),
                    ("column", JsonValue::Int(3)),
                ])]),
            ),
            ("path", JsonValue::Array(vec![s("products")])),
        ])]),
    )]);

    let has_errors = error_response.get("errors").map_or(false, |e| e.is_array());
    assert!(has_errors, "Should detect GraphQL errors");

    if let Some(errors) = error_response.get("errors").and_then(|e| e.as_array()) {
        assert!(!errors.is_empty(), "Should have error messages");
        let first_error = &errors[0];
        assert!(
            first_error.get("message").map_or(false, |m| m.is_string()),
            "Error should have message"
        );
    }
}

#[test]
fn test_graphql_empty_response_handling() {
    let empty_response = obj(vec![(
        "data",
        obj(vec![(
            "products",
            obj(vec![("edges", JsonValue::Array(vec![]))]),
        )]),
    )]);

    let products = parse_graphql_products_response(&empty_response).unwrap();
    assert_eq!(products.len(), 0, "Should handle empty product results");
}
