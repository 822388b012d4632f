use inventario_cappellettoshop::status::greet;
use inventario_cappellettoshop::utils::{InventoryUpdate, Product, ProductVariant, StatusResponse};

#[test]
fn test_product_creation() {
    let variant = ProductVariant {
        variant_id: "12345".to_string(),
        inventory_item_id: "12345".to_string(),
        title: "Test Variant".to_string(),
        inventory_quantity: 10,
        price: "19.99".to_string(),
        sku: Some("TEST-SKU".to_string()),
    };

    let product = Product {
        id: "1".to_string(),
        title: "Test Product".to_string(),
        handle: "test-product".to_string(),
        price: "19.99".to_string(),
        description: "A test product".to_string(),
        images: vec!["https://example.com/image.jpg".to_string()],
        variants: vec![variant],
        total_inventory: 10,
        locations: Vec::new(),
    };

    assert_eq!(product.title, "Test Product");
    assert_eq!(product.variants.len(), 1);
    assert_eq!(product.variants[0].inventory_quantity, 10);
}

#[test]
fn test_inventory_update_creation() {
    let update = InventoryUpdate {
        variant_id: "12345".to_string(),
        location_id: "67890".to_string(),
        adjustment: -5,
    };

    assert_eq!(update.adjustment, -5);
    assert_eq!(update.variant_id, "12345");
}

#[test]
fn test_status_response_creation() {
    let response = StatusResponse {
        status: "success".to_string(),
        message: "Operation completed".to_string(),
    };

    assert_eq!(response.status, "success");
    assert_eq!(response.message, "Operation completed");
}

#[test]
fn test_inventory_update_validation() {
    let valid_update = InventoryUpdate {
        variant_id: "12345".to_string(),
        location_id: "67890".to_string(),
        adjustment: -5,
    };

    assert_eq!(valid_update.adjustment, -5);
    assert_eq!(valid_update.variant_id, "12345");
    assert_eq!(valid_update.location_id, "67890");
}

#[test]
fn test_inventory_update_boundary_values() {
    let zero_adjustment = InventoryUpdate {
        variant_id: "12345".to_string(),
        location_id: "67890".to_string(),
        adjustment: 0,
    };
    assert_eq!(zero_adjustment.adjustment, 0);

    let large_positive = InventoryUpdate {
        variant_id: "12345".to_string(),
        location_id: "67890".to_string(),
        adjustment: 1000,
    };
    assert_eq!(large_positive.adjustment, 1000);

    let large_negative = InventoryUpdate {
        variant_id: "12345".to_string(),
        location_id: "67890".to_string(),
        adjustment: -1000,
    };
    assert_eq!(large_negative.adjustment, -1000);
}

#[test]
fn test_inventory_batch_operations() {
    let updates = vec![
        InventoryUpdate {
            variant_id: "12345".to_string(),
            location_id: "67890".to_string(),
            adjustment: -1,
        },
        InventoryUpdate {
            variant_id: "54321".to_string(),
            location_id: "67890".to_string(),
            adjustment: 5,
        },
        InventoryUpdate {
            variant_id: "11111".to_string(),
            location_id: "98765".to_string(),
            adjustment: -2,
        },
    ];

    assert_eq!(updates.len(), 3);

    let total_adjustment: i32 = updates.iter().map(|u| u.adjustment).sum();
    assert_eq!(total_adjustment, 2);
}

#[test]
fn test_product_inventory_calculations() {
    let variant1 = ProductVariant {
        variant_id: "1".to_string(),
        inventory_item_id: "1".to_string(),
        title: "Variant 1".to_string(),
        inventory_quantity: 10,
        price: "19.99".to_string(),
        sku: Some("SKU-1".to_string()),
    };

    let variant2 = ProductVariant {
        variant_id: "2".to_string(),
        inventory_item_id: "2".to_string(),
        title: "Variant 2".to_string(),
        inventory_quantity: 25,
        price: "29.99".to_string(),
        sku: Some("SKU-2".to_string()),
    };

    let product = Product {
        id: "1".to_string(),
        title: "Test Product".to_string(),
        handle: "test-product".to_string(),
        price: "19.99".to_string(),
        description: "A test product".to_string(),
        images: vec!["https://example.com/image.jpg".to_string()],
        variants: vec![variant1, variant2],
        total_inventory: 35,
        locations: Vec::new(),
    };

    let calculated_total: i32 = product.variants.iter().map(|v| v.inventory_quantity).sum();
    assert_eq!(calculated_total, 35);
    assert_eq!(product.total_inventory, calculated_total);
}

#[test]
fn test_network_error_simulation() {
    let error_scenarios = vec![
        ("Connection timeout", "Request timed out after 30 seconds"),
        (
            "Invalid credentials",
            "Authentication failed: Invalid access token",
        ),
        (
            "Rate limit exceeded",
            "API rate limit exceeded. Please try again later",
        ),
        ("Server error", "Internal server error (500)"),
        ("Not found", "Resource not found (404)"),
    ];

    for (scenario, expected_message) in error_scenarios {
        let formatted_error = format!("API Error [{}]: {}", scenario, expected_message);
        assert!(formatted_error.contains(scenario));
        assert!(formatted_error.contains(expected_message));
    }
}

#[test]
fn test_greeting_text() {
    assert_eq!(greet("Anna"), "Hello, Anna! You've been greeted from Rust!");
}
