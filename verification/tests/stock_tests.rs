use inventario_cappellettoshop::fetch::{
    build_products_page_path, extract_next_page_info, parse_products_page, CatalogFetch,
};
use inventario_cappellettoshop::json::JsonValue;
use inventario_cappellettoshop::stock::{
    excluded_product_ids, find_products_with_no_stock, generate_summary, DraftUpdater,
    ProductStatus, ShopifyProduct, ShopifyVariant,
};
use inventario_cappellettoshop::text::{i32_to_string, parse_i64, parse_u64, u64_to_string};

fn product(id: u64, title: &str, status: ProductStatus, quantities: &[i32]) -> ShopifyProduct {
    ShopifyProduct {
        id,
        title: title.to_string(),
        status,
        variants: quantities
            .iter()
            .map(|q| ShopifyVariant {
                inventory_quantity: *q,
            })
            .collect(),
    }
}

#[test]
fn test_stock_filter_keeps_only_active_out_of_stock() {
    let products = vec![
        product(1, "sold out", ProductStatus::Active, &[0, -1]),
        product(2, "in stock", ProductStatus::Active, &[0, 3]),
        product(3, "draft", ProductStatus::Draft, &[0]),
        product(4, "no variants", ProductStatus::Active, &[]),
    ];
    let excluded = excluded_product_ids();
    let candidates = find_products_with_no_stock(products, &excluded);
    assert_eq!(candidates.len(), 2);
    assert_eq!(candidates[0].id, "1");
    assert_eq!(candidates[0].title, "sold out");
    assert_eq!(candidates[0].status, ProductStatus::Active);
    assert!(!candidates[0].is_excluded);
    assert_eq!(candidates[1].id, "4");
}

#[test]
fn test_stock_filter_marks_protected_product() {
    let products = vec![product(
        3587363962985,
        "protected",
        ProductStatus::Active,
        &[0],
    )];
    let excluded = excluded_product_ids();
    let candidates = find_products_with_no_stock(products, &excluded);
    assert_eq!(candidates.len(), 1);
    assert!(candidates[0].is_excluded);
}

#[test]
fn test_exclusion_depends_on_id_alone() {
    let excluded = vec![42u64];
    let one = vec![product(42, "alpha", ProductStatus::Active, &[0])];
    let two = vec![product(42, "beta", ProductStatus::Active, &[-5, 0])];
    let c1 = find_products_with_no_stock(one, &excluded);
    let c2 = find_products_with_no_stock(two, &excluded);
    assert!(c1[0].is_excluded);
    assert!(c2[0].is_excluded);
    let other = find_products_with_no_stock(
        vec![product(7, "alpha", ProductStatus::Active, &[0])],
        &excluded,
    );
    assert!(!other[0].is_excluded);
}

#[test]
fn test_scan_scenario_with_exclusion_set() {
    // Exclusion set {42}; candidates 42 and 7, both active with no stock.
    let excluded = vec![42u64];
    let products = vec![
        product(42, "protected hat", ProductStatus::Active, &[0]),
        product(7, "plain hat", ProductStatus::Active, &[0]),
    ];

    // Dry run: both candidates listed, exclusion flags in order.
    let candidates = find_products_with_no_stock(products, &excluded);
    assert_eq!(candidates.len(), 2);
    assert_eq!(
        candidates.iter().map(|c| c.is_excluded).collect::<Vec<_>>(),
        vec![true, false]
    );

    // Live run: only id 7 receives a remote call.
    let mut updater = DraftUpdater::new(candidates);
    let mut called: Vec<String> = Vec::new();
    while let Some(product_id) = updater.next_request() {
        called.push(product_id);
        updater.on_response(Ok(()));
    }
    assert!(updater.is_done());
    assert_eq!(called, vec!["7".to_string()]);

    let (found, results) = updater.finish();
    let summary = generate_summary(&found, &results);
    assert_eq!(summary.total_found, 2);
    assert_eq!(summary.excluded_count, 1);
    assert_eq!(summary.eligible_count, 1);
    assert_eq!(summary.successful_updates, 1);
    assert_eq!(summary.failed_updates, 0);
    assert_eq!(results[0].error, Some("Excluded from updates".to_string()));
    assert!(results[0].success);
    assert_eq!(results[1].error, None);
}

#[test]
fn test_updater_continues_after_failure() {
    let excluded: Vec<u64> = Vec::new();
    let products = vec![
        product(1, "first", ProductStatus::Active, &[0]),
        product(2, "second", ProductStatus::Active, &[0]),
    ];
    let candidates = find_products_with_no_stock(products, &excluded);
    let mut updater = DraftUpdater::new(candidates);

    let first = updater.next_request().unwrap();
    assert_eq!(first, "1");
    updater.on_response(Err("rate limited".to_string()));

    let second = updater.next_request().unwrap();
    assert_eq!(second, "2");
    updater.on_response(Ok(()));

    assert!(updater.next_request().is_none());
    let (found, results) = updater.finish();
    let summary = generate_summary(&found, &results);
    assert_eq!(summary.successful_updates, 1);
    assert_eq!(summary.failed_updates, 1);
    assert_eq!(summary.eligible_count, 2);
    assert_eq!(
        summary.successful_updates + summary.failed_updates,
        summary.eligible_count
    );
    assert_eq!(results[0].error, Some("rate limited".to_string()));
    assert!(!results[0].success);
}

#[test]
fn test_updater_rerun_when_remote_accepts_is_all_success() {
    // When the remote store already reflects draft, setting the status
    // again is a no-op success; a repeated run reports success:true on
    // every candidate both times.
    let excluded = vec![42u64];
    for _round in 0..2 {
        let products = vec![
            product(42, "protected hat", ProductStatus::Active, &[0]),
            product(7, "plain hat", ProductStatus::Active, &[0]),
        ];
        let candidates = find_products_with_no_stock(products, &excluded);
        let mut updater = DraftUpdater::new(candidates);
        while let Some(_) = updater.next_request() {
            updater.on_response(Ok(()));
        }
        let (_, results) = updater.finish();
        assert_eq!(results.len(), 2);
        assert!(results.iter().all(|r| r.success));
    }
}

#[test]
fn test_fetch_machine_collects_every_page() {
    // Three pages with sizes 2 + 1 + 1: the fetch returns exactly the
    // four items, in dispatch order, regardless of how many requests
    // the caller keeps in flight.
    let mut fetch = CatalogFetch::new();
    assert!(fetch.next_request().unwrap().cursor.is_none());

    fetch.on_page(
        vec![
            product(1, "a", ProductStatus::Active, &[1]),
            product(2, "b", ProductStatus::Active, &[0]),
        ],
        Some("cursor-2".to_string()),
    );
    assert_eq!(
        fetch.next_request().unwrap().cursor,
        Some("cursor-2".to_string())
    );

    fetch.on_page(
        vec![product(3, "c", ProductStatus::Draft, &[2])],
        Some("cursor-3".to_string()),
    );
    fetch.on_page(vec![product(4, "d", ProductStatus::Active, &[0])], None);

    assert!(fetch.next_request().is_none());
    let items = fetch.finish();
    assert_eq!(items.len(), 4);
    assert_eq!(
        items.iter().map(|p| p.id).collect::<Vec<_>>(),
        vec![1, 2, 3, 4]
    );
}

#[test]
fn test_fetch_machine_stops_on_empty_page() {
    let mut fetch = CatalogFetch::new();
    fetch.on_page(Vec::new(), Some("cursor".to_string()));
    assert!(fetch.next_request().is_none());
    assert_eq!(fetch.finish().len(), 0);
}

#[test]
fn test_page_path_first_and_continuation() {
    assert_eq!(
        build_products_page_path(&None),
        "products.json?limit=250&fields=id,title,status,variants&status=active"
    );
    assert_eq!(
        build_products_page_path(&Some("abc".to_string())),
        "products.json?limit=250&fields=id,title,status,variants&page_info=abc"
    );
}

#[test]
fn test_extract_next_page_info_from_link_header() {
    let header = "<https://shop.myshopify.com/admin/api/2025-01/products.json?page_info=prev123&limit=250>; rel=\"previous\", <https://shop.myshopify.com/admin/api/2025-01/products.json?page_info=next456&limit=250>; rel=\"next\"";
    assert_eq!(extract_next_page_info(header), Some("next456".to_string()));

    let only_prev = "<https://shop.myshopify.com/admin/api/2025-01/products.json?page_info=prev123>; rel=\"previous\"";
    assert_eq!(extract_next_page_info(only_prev), None);
}

#[test]
fn test_parse_products_page_rows() {
    let page = JsonValue::Object(vec![(
        "products".to_string(),
        JsonValue::Array(vec![JsonValue::Object(vec![
            ("id".to_string(), JsonValue::Int(11)),
            ("title".to_string(), JsonValue::Str("Hat".to_string())),
            ("status".to_string(), JsonValue::Str("active".to_string())),
            (
                "variants".to_string(),
                JsonValue::Array(vec![JsonValue::Object(vec![(
                    "inventory_quantity".to_string(),
                    JsonValue::Int(0),
                )])]),
            ),
        ])]),
    )]);
    let rows = parse_products_page(&page).unwrap();
    assert_eq!(rows.len(), 1);
    assert_eq!(rows[0].id, 11);
    assert_eq!(rows[0].status, ProductStatus::Active);
    assert_eq!(rows[0].variants.len(), 1);

    let bad = JsonValue::Object(vec![(
        "products".to_string(),
        JsonValue::Array(vec![JsonValue::Object(vec![(
            "title".to_string(),
            JsonValue::Str("No id".to_string()),
        )])]),
    )]);
    assert!(parse_products_page(&bad).is_err());
}

#[test]
fn test_decimal_rendering_and_parsing() {
    assert_eq!(u64_to_string(0), "0");
    assert_eq!(u64_to_string(3587363962985), "3587363962985");
    assert_eq!(i32_to_string(-45), "-45");
    assert_eq!(parse_u64("123456"), Some(123456));
    assert_eq!(parse_u64(""), None);
    assert_eq!(parse_u64("12a"), None);
    assert_eq!(parse_i64("-17"), Some(-17));
    assert_eq!(parse_i64("9223372036854775807"), Some(i64::MAX));
    assert_eq!(parse_i64("-9223372036854775808"), Some(i64::MIN));
    assert_eq!(parse_i64("9223372036854775808"), None);
}

#[test]
fn test_status_text_round_trip() {
    assert_eq!(ProductStatus::parse_text("active"), Some(ProductStatus::Active));
    assert_eq!(ProductStatus::parse_text("draft"), Some(ProductStatus::Draft));
    assert_eq!(
        ProductStatus::parse_text("archived"),
        Some(ProductStatus::Archived)
    );
    assert_eq!(ProductStatus::parse_text("retired"), None);
    assert_eq!(ProductStatus::Active.as_text(), "active");
    assert_eq!(ProductStatus::Draft.as_text(), "draft");
}
