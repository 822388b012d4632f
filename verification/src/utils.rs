//! Shared data types and application configuration.

use vstd::prelude::*;

verus! {

/// A purchasable SKU under a product.
#[derive(Debug, Clone)]
pub struct ProductVariant {
    pub variant_id: String,
    pub inventory_item_id: String,
    pub title: String,
    pub inventory_quantity: i32,
    pub price: String,
    pub sku: Option<String>,
}

/// One product of the catalog, as the search and detail endpoints return it.
#[derive(Debug, Clone)]
pub struct Product {
    pub id: String,
    pub title: String,
    pub handle: String,
    pub price: String,
    pub description: String,
    pub images: Vec<String>,
    pub variants: Vec<ProductVariant>,
    pub total_inventory: i32,
    pub locations: Vec<(String, i32)>,
}

/// One signed stock adjustment at one location.
#[derive(Debug, Clone)]
pub struct InventoryUpdate {
    pub variant_id: String,
    pub location_id: String,
    pub adjustment: i32,
}

/// Mathematical image of an [`InventoryUpdate`].
#[verifier::ext_equal]
pub ghost struct InventoryUpdateView {
    pub variant_id: Seq<char>,
    pub location_id: Seq<char>,
    pub adjustment: int,
}

impl View for InventoryUpdate {
    type V = InventoryUpdateView;

    open spec fn view(&self) -> InventoryUpdateView {
        InventoryUpdateView {
            variant_id: self.variant_id@,
            location_id: self.location_id@,
            adjustment: self.adjustment as int,
        }
    }
}

/// Plain status/message pair returned by the simple operations.
#[derive(Debug)]
pub struct StatusResponse {
    pub status: String,
    pub message: String,
}

/// The remote admin API only accepts date-form version segments.
pub const DEFAULT_API_VERSION: &'static str = "2025-01";

pub open spec fn spec_is_digit(c: char) -> bool {
    '0' <= c && c <= '9'
}

/// A version segment of the form `YYYY-MM`.
pub open spec fn spec_is_api_version_format(s: Seq<char>) -> bool {
    &&& s.len() == 7
    &&& spec_is_digit(s[0])
    &&& spec_is_digit(s[1])
    &&& spec_is_digit(s[2])
    &&& spec_is_digit(s[3])
    &&& s[4] == '-'
    &&& spec_is_digit(s[5])
    &&& spec_is_digit(s[6])
}

/// The version segment the admin API URLs carry: a `YYYY-MM` string is
/// kept, anything else (such as an application version) falls back to
/// the default API version.
pub open spec fn spec_normalized_api_version(s: Seq<char>) -> Seq<char> {
    if spec_is_api_version_format(s) {
        s
    } else {
        DEFAULT_API_VERSION@
    }
}

fn is_digit_char(c: char) -> (r: bool)
    ensures
        r == spec_is_digit(c),
{
    '0' <= c && c <= '9'
}

/// Checks that a version string has the `YYYY-MM` shape of an admin API
/// version.
pub fn is_api_version_format(s: &str) -> (r: bool)
    ensures
        r == spec_is_api_version_format(s@),
{
    let n = s.unicode_len();
    if n != 7 {
        return false;
    }
    let ok = is_digit_char(s.get_char(0)) && is_digit_char(s.get_char(1))
        && is_digit_char(s.get_char(2)) && is_digit_char(s.get_char(3)) && s.get_char(4) == '-'
        && is_digit_char(s.get_char(5)) && is_digit_char(s.get_char(6));
    ok
}

/// Connection settings for the shop's admin API and the audit log store.
#[derive(Debug, Clone)]
pub struct AppConfig {
    pub shop_domain: String,
    pub access_token: String,
    pub api_key: String,
    pub api_secret: String,
    pub api_version: String,
    pub primary_location: String,
    pub secondary_location: String,
    pub firebase_api_key: String,
    pub firebase_auth_domain: String,
    pub firebase_project_id: String,
    pub firebase_storage_bucket: String,
    pub firebase_messaging_sender_id: String,
    pub firebase_app_id: String,
    pub firebase_measurement_id: String,
    pub version: String,
}

/// Identification of the audit log store, handed to the front end.
#[derive(Debug, Clone)]
pub struct FirebaseConfig {
    pub api_key: String,
    pub auth_domain: String,
    pub project_id: String,
    pub storage_bucket: String,
    pub messaging_sender_id: String,
    pub app_id: String,
    pub measurement_id: String,
}

impl AppConfig {
    /// Builds a configuration, normalizing the API version to the
    /// date form that the admin API URLs require.
    pub fn new(
        shop_domain: String,
        access_token: String,
        api_key: String,
        api_secret: String,
        api_version: String,
        primary_location: String,
        secondary_location: String,
        firebase_api_key: String,
        firebase_auth_domain: String,
        firebase_project_id: String,
        firebase_storage_bucket: String,
        firebase_messaging_sender_id: String,
        firebase_app_id: String,
        firebase_measurement_id: String,
        version: String,
    ) -> (r: AppConfig)
        ensures
            r.shop_domain == shop_domain,
            r.access_token == access_token,
            r.api_key == api_key,
            r.api_secret == api_secret,
            r.api_version@ == spec_normalized_api_version(api_version@),
            r.primary_location == primary_location,
            r.secondary_location == secondary_location,
            r.firebase_api_key == firebase_api_key,
            r.firebase_auth_domain == firebase_auth_domain,
            r.firebase_project_id == firebase_project_id,
            r.firebase_storage_bucket == firebase_storage_bucket,
            r.firebase_messaging_sender_id == firebase_messaging_sender_id,
            r.firebase_app_id == firebase_app_id,
            r.firebase_measurement_id == firebase_measurement_id,
            r.version == version,
    {
        let normalized: String = if is_api_version_format(api_version.as_str()) {
            api_version
        } else {
            String::from_str(DEFAULT_API_VERSION)
        };
        AppConfig {
            shop_domain,
            access_token,
            api_key,
            api_secret,
            api_version: normalized,
            primary_location,
            secondary_location,
            firebase_api_key,
            firebase_auth_domain,
            firebase_project_id,
            firebase_storage_bucket,
            firebase_messaging_sender_id,
            firebase_app_id,
            firebase_measurement_id,
            version,
        }
    }

    /// The admin API URL for one endpoint path.
    pub fn get_api_url(&self, endpoint: &str) -> (r: String)
        ensures
            r@ == "https://"@ + self.shop_domain@ + "/admin/api/"@ + self.api_version@ + "/"@
                + endpoint@,
    {
        let mut url = String::from_str("https://");
        url.append(self.shop_domain.as_str());
        url.append("/admin/api/");
        url.append(self.api_version.as_str());
        url.append("/");
        url.append(endpoint);
        url
    }

    /// The audit log store settings, copied out of the configuration.
    pub fn get_firebase_config(&self) -> (r: FirebaseConfig)
        ensures
            r.api_key == self.firebase_api_key,
            r.auth_domain == self.firebase_auth_domain,
            r.project_id == self.firebase_project_id,
            r.storage_bucket == self.firebase_storage_bucket,
            r.messaging_sender_id == self.firebase_messaging_sender_id,
            r.app_id == self.firebase_app_id,
            r.measurement_id == self.firebase_measurement_id,
    {
        FirebaseConfig {
            api_key: self.firebase_api_key.clone(),
            auth_domain: self.firebase_auth_domain.clone(),
            project_id: self.firebase_project_id.clone(),
            storage_bucket: self.firebase_storage_bucket.clone(),
            messaging_sender_id: self.firebase_messaging_sender_id.clone(),
            app_id: self.firebase_app_id.clone(),
            measurement_id: self.firebase_measurement_id.clone(),
        }
    }
}

} // verus!
