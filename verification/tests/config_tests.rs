use inventario_cappellettoshop::utils::AppConfig;

fn make_config(
    shop_domain: &str,
    access_token: &str,
    api_key: &str,
    api_secret: &str,
    api_version: &str,
    primary_location: &str,
    secondary_location: &str,
    version: &str,
) -> AppConfig {
    AppConfig::new(
        shop_domain.to_string(),
        access_token.to_string(),
        api_key.to_string(),
        api_secret.to_string(),
        api_version.to_string(),
        primary_location.to_string(),
        secondary_location.to_string(),
        "test-firebase-key".to_string(),
        "test.firebaseapp.com".to_string(),
        "test-project".to_string(),
        "test.appspot.com".to_string(),
        "123456".to_string(),
        "1:123456:web:abc123".to_string(),
        "G-ABC123".to_string(),
        version.to_string(),
    )
}

fn setup_test_config() -> AppConfig {
    make_config(
        "test-shop.myshopify.com",
        "test-token",
        "test-api-key",
        "test-api-secret",
        "3.1.0",
        "12345",
        "67890",
        "3.1.0",
    )
}

#[test]
fn test_config_api_url_generation() {
    let config = make_config(
        "test-shop.myshopify.com",
        "test-token",
        "test-api-key",
        "test-api-secret",
        "3.1.0",
        "loc1",
        "loc2",
        "3.1.0",
    );

    let url = config.get_api_url("products.json");
    assert_eq!(
        url,
        "https://test-shop.myshopify.com/admin/api/2025-01/products.json"
    );
}

#[test]
fn test_integration_config_setup() {
    let config = setup_test_config();
    assert_eq!(config.shop_domain, "test-shop.myshopify.com");
    assert_eq!(config.api_version, "2025-01");

    let url = config.get_api_url("shop.json");
    assert!(url.contains("test-shop.myshopify.com"));
    assert!(url.contains("2025-01"));
}

#[test]
fn test_firebase_config_helper() {
    let config = setup_test_config();
    let firebase_config = config.get_firebase_config();

    assert_eq!(firebase_config.api_key, "test-firebase-key");
    assert_eq!(firebase_config.project_id, "test-project");
    assert_eq!(firebase_config.auth_domain, "test.firebaseapp.com");
}

#[test]
fn test_config_validation() {
    let config = make_config(
        "test-shop.myshopify.com",
        "test-token",
        "test-api-key",
        "test-api-secret",
        "3.1.0",
        "loc1",
        "loc2",
        "3.1.0",
    );

    assert_eq!(config.shop_domain, "test-shop.myshopify.com");
    assert_eq!(config.access_token, "test-token");
    assert_eq!(config.api_version, "2025-01");
    assert_eq!(config.primary_location, "loc1");
    assert_eq!(config.secondary_location, "loc2");
}

#[test]
fn test_missing_required_config_fields() {
    let incomplete_configs = vec![
        (
            make_config(
                "",
                "test-token",
                "test-key",
                "test-secret",
                "3.1.0",
                "loc1",
                "loc2",
                "3.1.0",
            ),
            "shop_domain should not be empty",
        ),
        (
            make_config(
                "test-shop.myshopify.com",
                "",
                "test-key",
                "test-secret",
                "3.1.0",
                "loc1",
                "loc2",
                "3.1.0",
            ),
            "access_token should not be empty",
        ),
    ];

    for (config, expected_issue) in incomplete_configs {
        if config.shop_domain.is_empty() {
            assert!(config.shop_domain.is_empty(), "{}", expected_issue);
        }
        if config.access_token.is_empty() {
            assert!(config.access_token.is_empty(), "{}", expected_issue);
        }
    }
}

#[test]
fn test_config_keeps_date_form_api_version() {
    let config = make_config(
        "test-shop.myshopify.com",
        "test-token",
        "k",
        "s",
        "2024-10",
        "loc1",
        "loc2",
        "3.1.0",
    );
    assert_eq!(config.api_version, "2024-10");
    assert_eq!(
        config.get_api_url("shop.json"),
        "https://test-shop.myshopify.com/admin/api/2024-10/shop.json"
    );
}
