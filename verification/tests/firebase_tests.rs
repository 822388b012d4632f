use inventario_cappellettoshop::firebase::{
    build_check_update_document, build_logs_by_product_query, build_logs_date_range_query,
    build_logs_query, create_inventory_log_data, extract_document_id, group_modifications_by_date,
    log_entry_to_firestore_doc, parse_firestore_document, parse_firestore_runquery_response,
    sort_logs_newest_first, LogData, LogEntry,
};
use inventario_cappellettoshop::json::JsonValue;

fn sample_log_data() -> LogData {
    LogData {
        id: "123456".to_string(),
        variant: "Size M".to_string(),
        negozio: "Treviso".to_string(),
        inventory_item_id: "789012".to_string(),
        nome: "Test Product".to_string(),
        prezzo: "29.99".to_string(),
        rettifica: -1,
        images: vec!["https://example.com/image.jpg".to_string()],
    }
}

#[test]
fn test_firebase_log_data_structure() {
    let log_data = sample_log_data();

    assert_eq!(log_data.id, "123456");
    assert_eq!(log_data.variant, "Size M");
    assert_eq!(log_data.negozio, "Treviso");
    assert_eq!(log_data.rettifica, -1);
    assert_eq!(log_data.images.len(), 1);
}

#[test]
fn test_firebase_log_entry_structure() {
    let log_data = sample_log_data();

    let log_entry = LogEntry {
        request_type: "Rettifica".to_string(),
        data: log_data.clone(),
        timestamp: "2023-12-01T10:30:00Z".to_string(),
    };

    assert_eq!(log_entry.request_type, "Rettifica");
    assert_eq!(log_entry.data.id, "123456");
    assert_eq!(log_entry.timestamp, "2023-12-01T10:30:00Z");
}

#[test]
fn test_firebase_log_types() {
    let mut log_data = sample_log_data();
    log_data.images = vec![];

    let decrease_log = LogEntry {
        request_type: "Rettifica".to_string(),
        data: log_data.clone(),
        timestamp: "2023-12-01T10:30:00Z".to_string(),
    };

    let mut undo_data = log_data.clone();
    undo_data.rettifica = 1;

    let undo_log = LogEntry {
        request_type: "Annullamento".to_string(),
        data: undo_data,
        timestamp: "2023-12-01T10:35:00Z".to_string(),
    };

    assert_eq!(decrease_log.request_type, "Rettifica");
    assert_eq!(decrease_log.data.rettifica, -1);
    assert_eq!(undo_log.request_type, "Annullamento");
    assert_eq!(undo_log.data.rettifica, 1);
}

#[test]
fn test_firebase_location_validation() {
    let valid_locations = vec!["Treviso", "Mogliano"];

    for location in valid_locations {
        let mut log_data = sample_log_data();
        log_data.negozio = location.to_string();
        log_data.images = vec![];

        assert!(["Treviso", "Mogliano"].contains(&log_data.negozio.as_str()));
    }
}

#[test]
fn test_create_inventory_log_data_fields() {
    let data = create_inventory_log_data(
        "p1".to_string(),
        "Size S".to_string(),
        "Treviso".to_string(),
        "item1".to_string(),
        "Shoe".to_string(),
        "10.00".to_string(),
        -1,
        vec!["img".to_string()],
    );
    assert_eq!(data.id, "p1");
    assert_eq!(data.variant, "Size S");
    assert_eq!(data.negozio, "Treviso");
    assert_eq!(data.inventory_item_id, "item1");
    assert_eq!(data.nome, "Shoe");
    assert_eq!(data.prezzo, "10.00");
    assert_eq!(data.rettifica, -1);
    assert_eq!(data.images, vec!["img".to_string()]);
}

#[test]
fn test_log_document_round_trip() {
    let entry = LogEntry {
        request_type: "Trasferimento".to_string(),
        data: sample_log_data(),
        timestamp: "2023-12-01T10:30:00Z".to_string(),
    };
    let doc = log_entry_to_firestore_doc(&entry);
    let parsed = parse_firestore_document(&doc).expect("rendered document must parse");
    assert_eq!(parsed.request_type, entry.request_type);
    assert_eq!(parsed.timestamp, entry.timestamp);
    assert_eq!(parsed.data.id, entry.data.id);
    assert_eq!(parsed.data.variant, entry.data.variant);
    assert_eq!(parsed.data.negozio, entry.data.negozio);
    assert_eq!(parsed.data.inventory_item_id, entry.data.inventory_item_id);
    assert_eq!(parsed.data.nome, entry.data.nome);
    assert_eq!(parsed.data.prezzo, entry.data.prezzo);
    assert_eq!(parsed.data.rettifica, entry.data.rettifica);
    assert_eq!(parsed.data.images, entry.data.images);
}

#[test]
fn test_parse_rejects_incomplete_document() {
    let doc = JsonValue::Object(vec![(
        "fields".to_string(),
        JsonValue::Object(vec![(
            "timestamp".to_string(),
            JsonValue::Object(vec![(
                "stringValue".to_string(),
                JsonValue::Str("2023-12-01T10:30:00Z".to_string()),
            )]),
        )]),
    )]);
    let parsed = parse_firestore_document(&doc);
    assert!(parsed.is_err());
}

#[test]
fn test_extract_document_id_from_path() {
    let response = JsonValue::Object(vec![(
        "name".to_string(),
        JsonValue::Str("projects/p/databases/(default)/documents/logs/abc123".to_string()),
    )]);
    assert_eq!(extract_document_id(&response), "abc123");

    let missing = JsonValue::Object(vec![]);
    assert_eq!(extract_document_id(&missing), "unknown");
}

fn runquery_item(entry: &LogEntry) -> JsonValue {
    JsonValue::Object(vec![(
        "document".to_string(),
        log_entry_to_firestore_doc(entry),
    )])
}

fn entry_with(nome: &str, timestamp: &str) -> LogEntry {
    let mut data = sample_log_data();
    data.nome = nome.to_string();
    LogEntry {
        request_type: "Rettifica".to_string(),
        data,
        timestamp: timestamp.to_string(),
    }
}

#[test]
fn test_runquery_parse_filters_and_sorts() {
    let older = entry_with("Red Shoe", "2023-12-01T08:00:00Z");
    let newer = entry_with("RED SHOE deluxe", "2023-12-02T09:00:00Z");
    let other = entry_with("Blue Hat", "2023-12-03T09:00:00Z");
    let response = JsonValue::Array(vec![
        runquery_item(&older),
        runquery_item(&other),
        runquery_item(&newer),
    ]);

    let all = parse_firestore_runquery_response(&response, &None).unwrap();
    assert_eq!(all.len(), 3);
    assert_eq!(all[0].timestamp, "2023-12-03T09:00:00Z");
    assert_eq!(all[1].timestamp, "2023-12-02T09:00:00Z");
    assert_eq!(all[2].timestamp, "2023-12-01T08:00:00Z");

    // The filter folds case on both sides; an identity folding would
    // miss both of these.
    let filtered =
        parse_firestore_runquery_response(&response, &Some("red shoe".to_string())).unwrap();
    assert_eq!(filtered.len(), 2);
    let filtered_upper =
        parse_firestore_runquery_response(&response, &Some("RED SHOE".to_string())).unwrap();
    assert_eq!(filtered_upper.len(), 2);

    let not_array = JsonValue::Str("oops".to_string());
    assert!(parse_firestore_runquery_response(&not_array, &None).is_err());
}

#[test]
fn test_sort_logs_newest_first_orders_by_timestamp() {
    let logs = vec![
        entry_with("a", "2023-12-01T08:00:00Z"),
        entry_with("b", "2023-12-03T08:00:00Z"),
        entry_with("c", "2023-12-02T08:00:00Z"),
    ];
    let sorted = sort_logs_newest_first(logs);
    assert_eq!(sorted[0].data.nome, "b");
    assert_eq!(sorted[1].data.nome, "c");
    assert_eq!(sorted[2].data.nome, "a");
}

#[test]
fn test_group_modifications_by_date_groups_and_sums() {
    let mut e1 = entry_with("a", "2023-12-01T08:00:00Z");
    e1.data.rettifica = -1;
    let mut e2 = entry_with("b", "2023-12-01T09:00:00Z");
    e2.data.rettifica = -2;
    let mut e3 = entry_with("c", "2023-12-02T09:00:00Z");
    e3.data.rettifica = 1;
    let groups = group_modifications_by_date(&vec![e1, e2, e3]);
    assert_eq!(groups.len(), 2);
    assert_eq!(groups[0].date, "2023-12-02");
    assert_eq!(groups[0].app_net_change, 1);
    assert_eq!(groups[0].app_details.len(), 1);
    assert_eq!(groups[1].date, "2023-12-01");
    assert_eq!(groups[1].app_net_change, -3);
    assert_eq!(groups[1].app_details.len(), 2);
    assert_eq!(groups[1].app_details[0].source, "app");
    assert_eq!(
        groups[1].app_details[0].reason,
        Some("Rettifica".to_string())
    );
}

fn get<'a>(v: &'a JsonValue, path: &[&str]) -> &'a JsonValue {
    let mut cur = v;
    for key in path {
        cur = cur.get(key).expect("path step");
    }
    cur
}

#[test]
fn test_build_logs_query_shape() {
    let q = build_logs_query("2023-12-01", "Treviso");
    let sq = get(&q, &["structuredQuery"]);
    let filters = get(sq, &["where", "compositeFilter", "filters"])
        .as_array()
        .unwrap();
    assert_eq!(filters.len(), 3);
    let first_value = get(&filters[0], &["fieldFilter", "value", "stringValue"]);
    assert_eq!(first_value.as_str().unwrap(), "2023-12-01");
    let second_value = get(&filters[1], &["fieldFilter", "value", "stringValue"]);
    assert_eq!(second_value.as_str().unwrap(), "2023-12-01\u{ffff}");
    let third_value = get(&filters[2], &["fieldFilter", "value", "stringValue"]);
    assert_eq!(third_value.as_str().unwrap(), "Treviso");
    assert_eq!(get(sq, &["limit"]).as_i64().unwrap(), 100);
}

#[test]
fn test_build_logs_date_range_query_shape() {
    let q = build_logs_date_range_query("Mogliano", "2023-11-01", "2023-11-30");
    let sq = get(&q, &["structuredQuery"]);
    let filters = get(sq, &["where", "compositeFilter", "filters"])
        .as_array()
        .unwrap();
    assert_eq!(filters.len(), 3);
    assert_eq!(get(sq, &["limit"]).as_i64().unwrap(), 500);
}

#[test]
fn test_build_logs_by_product_query_shape() {
    let q = build_logs_by_product_query("123", "Treviso", "2023-11-01", "2023-11-30");
    let sq = get(&q, &["structuredQuery"]);
    let filters = get(sq, &["where", "compositeFilter", "filters"])
        .as_array()
        .unwrap();
    assert_eq!(filters.len(), 4);
    let product_filter = get(&filters[0], &["fieldFilter", "value", "stringValue"]);
    assert_eq!(product_filter.as_str().unwrap(), "123");
    assert_eq!(get(sq, &["limit"]).as_i64().unwrap(), 100);
}

#[test]
fn test_build_check_update_document_shape() {
    let d = build_check_update_document("completed", "all good", "2023-12-01T10:30:00Z");
    let fields = get(&d, &["fields"]);
    assert_eq!(
        get(fields, &["status", "stringValue"]).as_str().unwrap(),
        "completed"
    );
    assert_eq!(
        get(fields, &["checked", "booleanValue"]).as_bool().unwrap(),
        true
    );
    let open = build_check_update_document("open", "", "2023-12-01T10:30:00Z");
    assert_eq!(
        get(&open, &["fields", "checked", "booleanValue"])
            .as_bool()
            .unwrap(),
        false
    );
}
