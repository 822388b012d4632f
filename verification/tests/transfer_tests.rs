use inventario_cappellettoshop::inventory::EnhancedStatusResponse;
use inventario_cappellettoshop::transfer::{
    TransferRequest, TransferSaga, TransferStatus,
};
use inventario_cappellettoshop::utils::InventoryUpdate;

fn make_request() -> TransferRequest {
    TransferRequest {
        inventory_item_id: "123456789".to_string(),
        from_location_id: "loc_from".to_string(),
        to_location_id: "loc_to".to_string(),
        quantity: 1,
        product_id: "prod_123".to_string(),
        variant_title: "Size M".to_string(),
        product_name: "Test Product".to_string(),
        price: "29.99".to_string(),
        from_location: "Treviso".to_string(),
        to_location: "Mogliano".to_string(),
        images: vec!["https://example.com/image.jpg".to_string()],
    }
}

#[test]
fn test_transfer_inventory_validation() {
    let inventory_item_id = "123456789".to_string();
    let from_location_id = "loc_from".to_string();
    let to_location_id = "loc_to".to_string();
    let product_id = "prod_123".to_string();
    let variant_title = "Size M".to_string();
    let product_name = "Test Product".to_string();
    let price = "29.99".to_string();
    let from_location = "Treviso".to_string();
    let to_location = "Mogliano".to_string();
    let images = vec!["https://example.com/image.jpg".to_string()];

    assert!(!inventory_item_id.is_empty());
    assert!(!from_location_id.is_empty());
    assert!(!to_location_id.is_empty());
    assert!(!product_id.is_empty());
    assert!(!variant_title.is_empty());
    assert!(!product_name.is_empty());
    assert!(!price.is_empty());
    assert!(!from_location.is_empty());
    assert!(!to_location.is_empty());
    assert!(!images.is_empty());

    assert_ne!(from_location, to_location);
    assert_ne!(from_location_id, to_location_id);
}

#[test]
fn test_transfer_inventory_updates() {
    let inventory_item_id = "123456789".to_string();
    let from_location_id = "loc_from".to_string();
    let to_location_id = "loc_to".to_string();

    let decrease_update = InventoryUpdate {
        variant_id: inventory_item_id.clone(),
        location_id: from_location_id.clone(),
        adjustment: -1,
    };

    let increase_update = InventoryUpdate {
        variant_id: inventory_item_id.clone(),
        location_id: to_location_id.clone(),
        adjustment: 1,
    };

    assert_eq!(decrease_update.variant_id, inventory_item_id);
    assert_eq!(decrease_update.location_id, from_location_id);
    assert_eq!(decrease_update.adjustment, -1);

    assert_eq!(increase_update.variant_id, inventory_item_id);
    assert_eq!(increase_update.location_id, to_location_id);
    assert_eq!(increase_update.adjustment, 1);

    assert_eq!(decrease_update.adjustment + increase_update.adjustment, 0);
}

#[test]
fn test_transfer_rollback_structure() {
    let inventory_item_id = "123456789".to_string();
    let from_location_id = "loc_from".to_string();

    let failed_decrease = InventoryUpdate {
        variant_id: inventory_item_id.clone(),
        location_id: from_location_id.clone(),
        adjustment: -1,
    };

    let rollback_increase = InventoryUpdate {
        variant_id: inventory_item_id.clone(),
        location_id: from_location_id.clone(),
        adjustment: 1,
    };

    assert_eq!(failed_decrease.adjustment + rollback_increase.adjustment, 0);
    assert_eq!(failed_decrease.variant_id, rollback_increase.variant_id);
    assert_eq!(failed_decrease.location_id, rollback_increase.location_id);
}

#[test]
fn test_transfer_error_messages() {
    let from_location = "Treviso";
    let to_location = "Mogliano";

    let source_error = format!("Errore nella rimozione da {}: API timeout", from_location);
    assert!(source_error.contains("Errore nella rimozione da Treviso"));
    assert!(source_error.contains("API timeout"));

    let dest_error = format!("Errore nell'aggiunta a {}: Invalid location", to_location);
    assert!(dest_error.contains("Errore nell'aggiunta a Mogliano"));
    assert!(dest_error.contains("Invalid location"));

    let critical_error = format!(
        "ERRORE CRITICO: Fallimento trasferimento e rollback fallito. Originale: {}, Rollback: {}",
        "Destination failed", "Rollback also failed"
    );
    assert!(critical_error.contains("ERRORE CRITICO"));
    assert!(critical_error.contains("Destination failed"));
    assert!(critical_error.contains("Rollback also failed"));

    let insufficient_error = format!(
        "Impossibile trasferire: nessun inventario disponibile a {}",
        from_location
    );
    assert!(insufficient_error.contains("Impossibile trasferire"));
    assert!(insufficient_error.contains("Treviso"));
}

#[test]
fn test_transfer_success_message() {
    let product_name = "Test Product";
    let variant_title = "Size M";
    let from_location = "Treviso";
    let to_location = "Mogliano";

    let success_message = format!(
        "Trasferimento completato: {} ({}) spostato da {} a {}",
        product_name, variant_title, from_location, to_location
    );

    assert!(success_message.contains("Trasferimento completato"));
    assert!(success_message.contains("Test Product"));
    assert!(success_message.contains("Size M"));
    assert!(success_message.contains("da Treviso a Mogliano"));
}

#[test]
fn test_transfer_location_mapping() {
    let mock_primary_location_id = "primary_loc_123";
    let mock_secondary_location_id = "secondary_loc_456";

    let available_locations = vec!["Treviso", "Mogliano"];

    let primary_location_name = "Treviso";
    let mapped_primary_id = if primary_location_name == available_locations[0] {
        mock_primary_location_id
    } else {
        mock_secondary_location_id
    };
    assert_eq!(mapped_primary_id, mock_primary_location_id);

    let secondary_location_name = "Mogliano";
    let mapped_secondary_id = if secondary_location_name == available_locations[0] {
        mock_primary_location_id
    } else {
        mock_secondary_location_id
    };
    assert_eq!(mapped_secondary_id, mock_secondary_location_id);

    assert_ne!(mapped_primary_id, mapped_secondary_id);
}

#[test]
fn test_transfer_enhanced_status_response() {
    let success_response = EnhancedStatusResponse {
        status: "success".to_string(),
        message: "Trasferimento completato: Test Product (Size M) spostato da Treviso a Mogliano"
            .to_string(),
        status_changed: None,
        product_status: None,
    };

    assert_eq!(success_response.status, "success");
    assert!(success_response.message.contains("Trasferimento completato"));
    assert!(success_response.status_changed.is_none());
    assert!(success_response.product_status.is_none());

    let draft_response = EnhancedStatusResponse {
        status: "success".to_string(),
        message: "Trasferimento completato con cambio stato".to_string(),
        status_changed: Some("to_draft".to_string()),
        product_status: None,
    };

    assert_eq!(draft_response.status, "success");
    assert_eq!(draft_response.status_changed, Some("to_draft".to_string()));
}

#[test]
fn test_transfer_zero_inventory_detection() {
    let treviso_inventory = 0;
    let mogliano_inventory = 1;

    let has_inventory = treviso_inventory > 0 || mogliano_inventory > 0;
    assert!(has_inventory);

    let treviso_inventory_empty = 0;
    let mogliano_inventory_empty = 0;

    let has_no_inventory = treviso_inventory_empty == 0 && mogliano_inventory_empty == 0;
    assert!(has_no_inventory);
}

#[test]
fn test_transfer_firebase_logging_warnings() {
    let firebase_log_success = true;
    let firebase_log_failure = false;

    if !firebase_log_success {
        let warning_message = "⚠️ Warning: Failed to log source transfer: Connection timeout";
        assert!(warning_message.contains("Warning"));
        assert!(warning_message.contains("Failed to log source transfer"));
    }

    if !firebase_log_failure {
        let warning_message = "⚠️ Warning: Failed to log destination transfer: Invalid request";
        assert!(warning_message.contains("Warning"));
        assert!(warning_message.contains("Failed to log destination transfer"));
    }

    let transfer_result = "success";
    assert_eq!(transfer_result, "success");
}

#[test]
fn test_transfer_parameter_validation() {
    let valid_params = (
        "123456789",
        "loc_from",
        "loc_to",
        "prod_123",
        "Size M",
        "Test Product",
        "29.99",
        "Treviso",
        "Mogliano",
        vec!["image.jpg"],
    );

    assert!(!valid_params.0.is_empty());
    assert!(!valid_params.1.is_empty());
    assert!(!valid_params.2.is_empty());
    assert!(!valid_params.3.is_empty());
    assert!(!valid_params.4.is_empty());
    assert!(!valid_params.5.is_empty());
    assert!(!valid_params.6.is_empty());
    assert!(!valid_params.7.is_empty());
    assert!(!valid_params.8.is_empty());
    assert!(!valid_params.9.is_empty());

    assert_ne!(valid_params.7, valid_params.8);
    assert_ne!(valid_params.1, valid_params.2);

    let price_parsed: Result<f64, _> = valid_params.6.parse();
    assert!(price_parsed.is_ok());
    assert!(price_parsed.unwrap() > 0.0);
}

#[test]
fn test_saga_commit_run() {
    let mut saga = TransferSaga::new(make_request());
    let first = saga.next_command().unwrap();
    assert_eq!(first.location_id, "loc_from");
    assert_eq!(first.adjustment, -1);
    saga.on_result(Ok(()));
    let second = saga.next_command().unwrap();
    assert_eq!(second.location_id, "loc_to");
    assert_eq!(second.adjustment, 1);
    saga.on_result(Ok(()));
    assert!(saga.next_command().is_none());
    let (outcome, applied) = saga.finish();
    assert_eq!(outcome.status, TransferStatus::Committed);
    assert_eq!(
        outcome.message,
        "Trasferimento completato: Test Product (Size M) spostato da Treviso a Mogliano"
    );
    let net: i32 = applied.iter().map(|u| u.adjustment).sum();
    assert_eq!(net, 0);
}

#[test]
fn test_saga_rolled_back_run() {
    let mut saga = TransferSaga::new(make_request());
    saga.on_result(Ok(()));
    saga.on_result(Err("rate limited".to_string()));
    let compensation = saga.next_command().unwrap();
    assert_eq!(compensation.location_id, "loc_from");
    assert_eq!(compensation.adjustment, 1);
    saga.on_result(Ok(()));
    let (outcome, applied) = saga.finish();
    assert_eq!(outcome.status, TransferStatus::RolledBack);
    assert!(outcome.message.contains("rate limited"));
    assert!(outcome.message.contains("Errore nell'aggiunta a Mogliano"));
    let net_from: i32 = applied
        .iter()
        .filter(|u| u.location_id == "loc_from")
        .map(|u| u.adjustment)
        .sum();
    let net_to: i32 = applied
        .iter()
        .filter(|u| u.location_id == "loc_to")
        .map(|u| u.adjustment)
        .sum();
    assert_eq!(net_from, 0);
    assert_eq!(net_to, 0);
}

#[test]
fn test_saga_unrecoverable_run() {
    let mut saga = TransferSaga::new(make_request());
    saga.on_result(Ok(()));
    saga.on_result(Err("rate limited".to_string()));
    saga.on_result(Err("network error".to_string()));
    let (outcome, _) = saga.finish();
    assert_eq!(outcome.status, TransferStatus::Unrecoverable);
    assert!(outcome.message.contains("rate limited"));
    assert!(outcome.message.contains("network error"));
    assert!(outcome.message.contains("ERRORE CRITICO"));
}

#[test]
fn test_saga_removal_failed_run() {
    let mut saga = TransferSaga::new(make_request());
    saga.on_result(Err("API timeout".to_string()));
    let (outcome, applied) = saga.finish();
    assert_eq!(outcome.status, TransferStatus::RemovalFailed);
    assert_eq!(
        outcome.message,
        "Errore nella rimozione da Treviso: API timeout"
    );
    assert!(applied.is_empty());
}
