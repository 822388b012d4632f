use inventario_cappellettoshop::firebase::{
    build_variant_modification_history, check_request_to_firestore_doc,
    parse_firestore_check_request_document, CheckRequest, LogData, LogEntry,
};
use inventario_cappellettoshop::inventory::{
    build_decrease_response, build_graphql_adjust_variables, build_undo_response,
    graphql_has_user_errors, resolve_location_ids,
};
use inventario_cappellettoshop::json::JsonValue;
use inventario_cappellettoshop::location::{
    get_available_locations, get_current_location_config, get_location_by_name,
    parse_location_setting, render_location_setting,
};
use inventario_cappellettoshop::products::{
    dedup_products_by_id, should_try_exact_sku, wants_more_results,
};
use inventario_cappellettoshop::utils::{AppConfig, Product};

fn sample_check_request() -> CheckRequest {
    CheckRequest {
        check_all: false,
        checked: false,
        checked_at: None,
        checked_by: None,
        location: vec!["Treviso".to_string()],
        notes: "please verify".to_string(),
        priority: "high".to_string(),
        product_id: 123456,
        product_name: "Test Product".to_string(),
        requested_by: "staff".to_string(),
        status: "open".to_string(),
        timestamp: "2023-12-01T10:30:00Z".to_string(),
        variant_id: Some(789),
        variant_name: Some("Size M".to_string()),
        image_url: None,
    }
}

#[test]
fn test_check_request_document_and_parse() {
    let request = sample_check_request();
    let mut doc = check_request_to_firestore_doc(&request);
    // A stored document also carries its resource path.
    if let JsonValue::Object(ref mut fields) = doc {
        fields.push((
            "name".to_string(),
            JsonValue::Str("projects/p/databases/(default)/documents/checks/doc42".to_string()),
        ));
    }
    let parsed = parse_firestore_check_request_document(&doc).unwrap();
    assert_eq!(parsed.id, "doc42");
    assert_eq!(parsed.location, vec!["Treviso".to_string()]);
    assert_eq!(parsed.notes, "please verify");
    assert_eq!(parsed.priority, "high");
    assert_eq!(parsed.product_id, 123456);
    assert_eq!(parsed.product_name, "Test Product");
    assert_eq!(parsed.requested_by, "staff");
    assert_eq!(parsed.status, "open");
    assert_eq!(parsed.variant_id, Some(789));
    assert_eq!(parsed.variant_name, Some("Size M".to_string()));
    // The writer stores the flags as strings while the reader only
    // accepts booleans, so they read back as false.
    assert!(!parsed.check_all);
    assert!(!parsed.checked);
}

#[test]
fn test_check_request_parse_reads_boolean_flags() {
    let doc = JsonValue::Object(vec![(
        "fields".to_string(),
        JsonValue::Object(vec![
            (
                "checked".to_string(),
                JsonValue::Object(vec![("booleanValue".to_string(), JsonValue::Bool(true))]),
            ),
            (
                "location".to_string(),
                JsonValue::Object(vec![(
                    "arrayValue".to_string(),
                    JsonValue::Object(vec![(
                        "values".to_string(),
                        JsonValue::Array(vec![JsonValue::Object(vec![(
                            "stringValue".to_string(),
                            JsonValue::Str("Mogliano".to_string()),
                        )])]),
                    )]),
                )]),
            ),
            (
                "priority".to_string(),
                JsonValue::Object(vec![(
                    "stringValue".to_string(),
                    JsonValue::Str("low".to_string()),
                )]),
            ),
            (
                "product_id".to_string(),
                JsonValue::Object(vec![(
                    "integerValue".to_string(),
                    JsonValue::Str("42".to_string()),
                )]),
            ),
            (
                "product_name".to_string(),
                JsonValue::Object(vec![(
                    "stringValue".to_string(),
                    JsonValue::Str("Hat".to_string()),
                )]),
            ),
            (
                "requested_by".to_string(),
                JsonValue::Object(vec![(
                    "stringValue".to_string(),
                    JsonValue::Str("anna".to_string()),
                )]),
            ),
            (
                "status".to_string(),
                JsonValue::Object(vec![(
                    "stringValue".to_string(),
                    JsonValue::Str("open".to_string()),
                )]),
            ),
            (
                "timestamp".to_string(),
                JsonValue::Object(vec![(
                    "stringValue".to_string(),
                    JsonValue::Str("2023-12-01T10:30:00Z".to_string()),
                )]),
            ),
        ]),
    )]);
    let parsed = parse_firestore_check_request_document(&doc).unwrap();
    assert!(parsed.checked);
    assert!(!parsed.check_all);
    assert_eq!(parsed.id, "unknown");
    assert_eq!(parsed.product_id, 42);

    let missing_location = JsonValue::Object(vec![(
        "fields".to_string(),
        JsonValue::Object(vec![]),
    )]);
    assert!(parse_firestore_check_request_document(&missing_location).is_err());
}

#[test]
fn test_variant_history_counts_only_matching_logs() {
    let mk = |variant: &str, day: &str, change: i32| LogEntry {
        request_type: "Rettifica".to_string(),
        data: LogData {
            id: "p".to_string(),
            variant: variant.to_string(),
            negozio: "Treviso".to_string(),
            inventory_item_id: "i".to_string(),
            nome: "Hat".to_string(),
            prezzo: "10".to_string(),
            rettifica: change,
            images: vec![],
        },
        timestamp: format!("{}T10:00:00Z", day),
    };
    let logs = vec![
        mk("Size M", "2023-12-01", -1),
        mk("Size S", "2023-12-01", -5),
        mk("Size M", "2023-12-02", 2),
    ];
    let history = build_variant_modification_history(
        &"Size M".to_string(),
        &"item-1".to_string(),
        &logs,
        7,
    );
    assert_eq!(history.variant_title, "Size M");
    assert_eq!(history.inventory_item_id, "item-1");
    assert_eq!(history.current_quantity, 7);
    assert_eq!(history.app_net_change, 1);
    assert_eq!(history.daily_modifications.len(), 2);
    assert_eq!(history.daily_modifications[0].date, "2023-12-02");
    assert_eq!(history.daily_modifications[0].app_net_change, 2);
    assert_eq!(history.daily_modifications[1].date, "2023-12-01");
    assert_eq!(history.daily_modifications[1].app_net_change, -1);
}

#[test]
fn test_location_lookup_and_roles() {
    let locations = get_available_locations();
    assert_eq!(locations.len(), 2);
    assert_eq!(locations[0].name, "Treviso");
    assert_eq!(locations[1].id, "31985336425");

    let found = get_location_by_name("Mogliano").unwrap();
    assert_eq!(found.id, "31985336425");
    assert_eq!(
        get_location_by_name("Venezia").unwrap_err(),
        "Location 'Venezia' not found"
    );

    let config = AppConfig::new(
        "shop".to_string(),
        "token".to_string(),
        "k".to_string(),
        "s".to_string(),
        "2025-01".to_string(),
        "primary-id".to_string(),
        "secondary-id".to_string(),
        "fk".to_string(),
        "fd".to_string(),
        "fp".to_string(),
        "fb".to_string(),
        "fm".to_string(),
        "fa".to_string(),
        "fme".to_string(),
        "3.2.0".to_string(),
    );
    let roles = get_current_location_config("Treviso", &config);
    assert_eq!(roles.primary_location.id, "primary-id");
    assert_eq!(roles.secondary_location.name, "Mogliano");
    let swapped = get_current_location_config("Mogliano", &config);
    assert_eq!(swapped.primary_location.id, "secondary-id");
    assert_eq!(swapped.secondary_location.name, "Treviso");

    let (pid, sid) = resolve_location_ids(
        "Mogliano",
        &"primary-id".to_string(),
        &"secondary-id".to_string(),
    );
    assert_eq!(pid, "secondary-id");
    assert_eq!(sid, "primary-id");
}

#[test]
fn test_location_setting_round_trip() {
    let doc = render_location_setting("Treviso");
    let read = parse_location_setting(&doc).unwrap();
    assert_eq!(read, "Treviso");

    let bad = JsonValue::Object(vec![]);
    assert!(parse_location_setting(&bad).is_err());
}

#[test]
fn test_search_phase_decisions() {
    // The trim relies on str::trim: an identity trim would count the
    // padding and flip both answers.
    assert!(should_try_exact_sku("  ABC123  "));
    assert!(!should_try_exact_sku("abc   "));
    assert!(!should_try_exact_sku("12345"));
    assert!(wants_more_results(9));
    assert!(!wants_more_results(10));
}

fn tiny_product(id: &str, title: &str) -> Product {
    Product {
        id: id.to_string(),
        title: title.to_string(),
        handle: String::new(),
        price: "1.00".to_string(),
        description: String::new(),
        images: vec![],
        variants: vec![],
        total_inventory: 0,
        locations: Vec::new(),
    }
}

#[test]
fn test_dedup_keeps_first_occurrence() {
    let merged = vec![
        tiny_product("1", "first"),
        tiny_product("2", "second"),
        tiny_product("1", "repeat"),
        tiny_product("3", "third"),
    ];
    let unique = dedup_products_by_id(merged);
    assert_eq!(unique.len(), 3);
    assert_eq!(unique[0].title, "first");
    assert_eq!(unique[1].title, "second");
    assert_eq!(unique[2].title, "third");
}

#[test]
fn test_enhanced_responses() {
    let plain = build_decrease_response(false);
    assert_eq!(plain.status, "success");
    assert_eq!(plain.message, "Inventario diminuito e registrato con successo");
    assert!(plain.status_changed.is_none());

    let demoted = build_decrease_response(true);
    assert_eq!(demoted.status_changed, Some("to_draft".to_string()));
    assert_eq!(demoted.product_status, Some("draft".to_string()));
    assert!(demoted.message.contains("bozza"));

    let restored = build_undo_response(true);
    assert_eq!(restored.status_changed, Some("to_active".to_string()));
    assert!(restored.message.contains("riattivato"));
}

#[test]
fn test_graphql_adjust_variables_shape() {
    let vars = build_graphql_adjust_variables(
        "correction",
        -1,
        "gid://shopify/InventoryItem/1",
        "gid://shopify/Location/2",
    );
    let input = vars.get("input").unwrap();
    assert_eq!(input.get("reason").unwrap().as_str().unwrap(), "correction");
    assert_eq!(input.get("name").unwrap().as_str().unwrap(), "available");
    let changes = input.get("changes").unwrap().as_array().unwrap();
    assert_eq!(changes.len(), 1);
    assert_eq!(changes[0].get("delta").unwrap().as_i64().unwrap(), -1);

    let no_errors = JsonValue::Object(vec![(
        "data".to_string(),
        JsonValue::Object(vec![(
            "inventoryAdjustQuantities".to_string(),
            JsonValue::Object(vec![(
                "userErrors".to_string(),
                JsonValue::Array(vec![]),
            )]),
        )]),
    )]);
    assert!(!graphql_has_user_errors(&no_errors));

    let with_errors = JsonValue::Object(vec![(
        "data".to_string(),
        JsonValue::Object(vec![(
            "inventoryAdjustQuantities".to_string(),
            JsonValue::Object(vec![(
                "userErrors".to_string(),
                JsonValue::Array(vec![JsonValue::Object(vec![(
                    "message".to_string(),
                    JsonValue::Str("bad".to_string()),
                )])]),
            )]),
        )]),
    )]);
    assert!(graphql_has_user_errors(&with_errors));
}
