use inventario_cappellettoshop::inventory::{
    all_levels_empty, build_adjust_payload, build_product_status_payload,
    label_levels_for_locations, low_stock_rows, parse_inventory_levels_response, InventoryLevel,
};
use inventario_cappellettoshop::json::JsonValue;
use inventario_cappellettoshop::products::{clean_html_description, parse_product_from_json};
use inventario_cappellettoshop::stock::ProductStatus;
use inventario_cappellettoshop::utils::InventoryUpdate;

fn obj(fields: Vec<(&str, JsonValue)>) -> JsonValue {
    JsonValue::Object(
        fields
            .into_iter()
            .map(|(k, v)| (k.to_string(), v))
            .collect(),
    )
}

fn s(v: &str) -> JsonValue {
    JsonValue::Str(v.to_string())
}

#[test]
fn test_parse_shopify_product_response() {
    let sample_response = obj(vec![(
        "products",
        JsonValue::Array(vec![obj(vec![
            ("id", JsonValue::Int(123456789)),
            ("title", s("Test Product")),
            ("body_html", s("<p>Test description</p>")),
            (
                "images",
                JsonValue::Array(vec![obj(vec![(
                    "src",
                    s("https://example.com/image1.jpg"),
                )])]),
            ),
            (
                "variants",
                JsonValue::Array(vec![obj(vec![
                    ("id", JsonValue::Int(987654321)),
                    ("title", s("Default Title")),
                    ("inventory_item_id", JsonValue::Int(111222333)),
                    ("inventory_quantity", JsonValue::Int(25)),
                    ("price", s("29.99")),
                    ("sku", s("TEST-SKU-001")),
                ])]),
            ),
        ])]),
    )]);

    let products = sample_response.get("products").unwrap().as_array().unwrap();
    assert_eq!(products.len(), 1);

    let product = &products[0];
    assert_eq!(
        product.get("title").unwrap().as_str().unwrap(),
        "Test Product"
    );
    assert_eq!(
        product.get("variants").unwrap().as_array().unwrap().len(),
        1
    );

    let parsed = parse_product_from_json(product).unwrap();
    assert_eq!(parsed.id, "123456789");
    assert_eq!(parsed.title, "Test Product");
    assert_eq!(parsed.description, "Test description");
    assert_eq!(parsed.images, vec!["https://example.com/image1.jpg"]);
    assert_eq!(parsed.variants.len(), 1);
    assert_eq!(parsed.variants[0].inventory_item_id, "111222333");
    assert_eq!(parsed.variants[0].inventory_quantity, 25);
    assert_eq!(parsed.total_inventory, 25);
    assert_eq!(parsed.price, "29.99");
}

#[test]
fn test_parse_inventory_levels_response() {
    let sample_response = obj(vec![(
        "inventory_levels",
        JsonValue::Array(vec![
            obj(vec![
                ("inventory_item_id", JsonValue::Int(111222333)),
                ("location_id", JsonValue::Int(444555666)),
                ("available", JsonValue::Int(25)),
            ]),
            obj(vec![
                ("inventory_item_id", JsonValue::Int(111222333)),
                ("location_id", JsonValue::Int(777888999)),
                ("available", JsonValue::Int(15)),
            ]),
        ]),
    )]);

    let levels = sample_response
        .get("inventory_levels")
        .unwrap()
        .as_array()
        .unwrap();
    assert_eq!(levels.len(), 2);

    let level1 = &levels[0];
    assert_eq!(level1.get("available").unwrap().as_i64().unwrap(), 25);

    let parsed = parse_inventory_levels_response(&sample_response).unwrap();
    assert_eq!(parsed.len(), 2);
    assert_eq!(parsed[0].inventory_item_id, "111222333");
    assert_eq!(parsed[0].location_id, "444555666");
    assert_eq!(parsed[0].available, 25);
    assert_eq!(parsed[1].available, 15);
    assert!(!all_levels_empty(&parsed));
}

#[test]
fn test_missing_product_fields() {
    let invalid_product = obj(vec![("title", s("Product Without ID"))]);

    let id_result = invalid_product.get("id").and_then(|v| v.as_u64());
    assert!(id_result.is_none());

    assert!(parse_product_from_json(&invalid_product).is_err());
}

#[test]
fn test_empty_variants_array() {
    let product_with_no_variants = obj(vec![
        ("id", JsonValue::Int(123456789)),
        ("title", s("Product Without Variants")),
        ("variants", JsonValue::Array(vec![])),
    ]);

    let variants = product_with_no_variants
        .get("variants")
        .unwrap()
        .as_array()
        .unwrap();
    assert_eq!(variants.len(), 0);

    let total_inventory: i32 = variants
        .iter()
        .map(|v| {
            v.get("inventory_quantity")
                .and_then(|q| q.as_i64())
                .unwrap_or(0) as i32
        })
        .sum();

    assert_eq!(total_inventory, 0);

    let parsed = parse_product_from_json(&product_with_no_variants).unwrap();
    assert_eq!(parsed.total_inventory, 0);
    assert_eq!(parsed.price, "0.00");
}

#[test]
fn test_malformed_json_handling() {
    let malformed_json = obj(vec![("products", s("this should be an array"))]);

    let products_result = malformed_json.get("products").unwrap().as_array();
    assert!(products_result.is_none());
}

#[test]
fn test_large_product_list_parsing() {
    let mut products = Vec::new();
    for i in 0..100i64 {
        products.push(obj(vec![
            ("id", JsonValue::Int(i)),
            ("title", s(&format!("Product {}", i))),
            (
                "variants",
                JsonValue::Array(vec![obj(vec![
                    ("id", JsonValue::Int(i * 100)),
                    ("inventory_item_id", JsonValue::Int(i * 100)),
                    ("inventory_quantity", JsonValue::Int(i % 50)),
                    ("price", s("19.99")),
                    ("title", s("Default")),
                ])]),
            ),
        ]));
    }

    let large_response = obj(vec![("products", JsonValue::Array(products))]);

    let parsed_products = large_response
        .get("products")
        .unwrap()
        .as_array()
        .unwrap();
    assert_eq!(parsed_products.len(), 100);

    let total_inventory: i64 = parsed_products
        .iter()
        .flat_map(|p| p.get("variants").unwrap().as_array().unwrap())
        .map(|v| {
            v.get("inventory_quantity")
                .and_then(|q| q.as_i64())
                .unwrap_or(0)
        })
        .sum();

    assert!(total_inventory > 0);
}

#[test]
fn test_clean_html_description_strips_and_decodes() {
    assert_eq!(clean_html_description("<p>Test</p>"), "Test");
    assert_eq!(clean_html_description("a&amp;b"), "a&b");
    assert_eq!(clean_html_description("a&lt;b&gt;c"), "a<b>c");
    assert_eq!(clean_html_description("a\n  b"), "a b");
    assert_eq!(clean_html_description("  padded  "), "padded");
    assert_eq!(clean_html_description(""), "");
}

#[test]
fn test_adjust_payload_fields() {
    let update = InventoryUpdate {
        variant_id: "12345".to_string(),
        location_id: "67890".to_string(),
        adjustment: -1,
    };
    let payload = build_adjust_payload(&update);
    assert_eq!(
        payload.get("location_id").unwrap().as_str().unwrap(),
        "67890"
    );
    assert_eq!(
        payload.get("inventory_item_id").unwrap().as_str().unwrap(),
        "12345"
    );
    assert_eq!(
        payload
            .get("available_adjustment")
            .unwrap()
            .as_i64()
            .unwrap(),
        -1
    );
}

#[test]
fn test_product_status_payload() {
    let payload = build_product_status_payload("123456", ProductStatus::Draft).unwrap();
    let product = payload.get("product").unwrap();
    assert_eq!(product.get("id").unwrap().as_u64().unwrap(), 123456);
    assert_eq!(product.get("status").unwrap().as_str().unwrap(), "draft");

    assert!(build_product_status_payload("not-a-number", ProductStatus::Draft).is_err());
}

#[test]
fn test_parse_low_stock_response() {
    let sample_response = obj(vec![(
        "products",
        JsonValue::Array(vec![obj(vec![
            ("id", JsonValue::Int(123456789)),
            ("title", s("Low Stock Product")),
            (
                "variants",
                JsonValue::Array(vec![
                    obj(vec![
                        ("id", JsonValue::Int(987654321)),
                        ("inventory_item_id", JsonValue::Int(987654321)),
                        ("title", s("Size S")),
                        ("inventory_quantity", JsonValue::Int(2)),
                        ("sku", s("LOW-STOCK-S")),
                    ]),
                    obj(vec![
                        ("id", JsonValue::Int(987654322)),
                        ("inventory_item_id", JsonValue::Int(987654322)),
                        ("title", s("Size M")),
                        ("inventory_quantity", JsonValue::Int(15)),
                        ("sku", s("NORMAL-STOCK-M")),
                    ]),
                ]),
            ),
        ])]),
    )]);

    let products = sample_response.get("products").unwrap().as_array().unwrap();
    let variants = products[0].get("variants").unwrap().as_array().unwrap();

    let low_stock_variants: Vec<&JsonValue> = variants
        .iter()
        .filter(|variant| {
            variant
                .get("inventory_quantity")
                .and_then(|q| q.as_i64())
                .unwrap_or(0)
                <= 5
        })
        .collect();

    assert_eq!(low_stock_variants.len(), 1);
    assert_eq!(
        low_stock_variants[0].get("title").unwrap().as_str().unwrap(),
        "Size S"
    );

    let parsed = parse_product_from_json(products.first().unwrap()).unwrap();
    let rows = low_stock_rows(&vec![parsed], 5);
    assert_eq!(rows.len(), 1);
    assert_eq!(rows[0].variant_title, "Size S");
    assert_eq!(rows[0].product_title, "Low Stock Product");
    assert_eq!(rows[0].inventory_quantity, 2);
    assert_eq!(rows[0].sku, Some("LOW-STOCK-S".to_string()));
}

#[test]
fn test_label_levels_keeps_tracked_locations() {
    let levels = vec![
        InventoryLevel {
            inventory_item_id: "1".to_string(),
            location_id: "primary-id".to_string(),
            available: 4,
        },
        InventoryLevel {
            inventory_item_id: "1".to_string(),
            location_id: "elsewhere".to_string(),
            available: 9,
        },
        InventoryLevel {
            inventory_item_id: "2".to_string(),
            location_id: "secondary-id".to_string(),
            available: 0,
        },
    ];
    let labeled = label_levels_for_locations(&levels, "primary-id", "secondary-id");
    assert_eq!(labeled.len(), 2);
    assert_eq!(labeled[0].role, "primary");
    assert_eq!(labeled[0].available, 4);
    assert_eq!(labeled[1].role, "secondary");
    assert_eq!(labeled[1].inventory_item_id, "2");
}

#[test]
fn test_all_levels_empty_detects_exhaustion() {
    let empty = vec![
        InventoryLevel {
            inventory_item_id: "1".to_string(),
            location_id: "a".to_string(),
            available: 0,
        },
        InventoryLevel {
            inventory_item_id: "1".to_string(),
            location_id: "b".to_string(),
            available: -2,
        },
    ];
    assert!(all_levels_empty(&empty));

    let stocked = vec![InventoryLevel {
        inventory_item_id: "1".to_string(),
        location_id: "a".to_string(),
        available: 3,
    }];
    assert!(!all_levels_empty(&stocked));
}
