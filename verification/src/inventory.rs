//! Stock levels and adjustments: parsing the level listings, the
//! zero-stock detector that drives the automatic draft demotion, the
//! request bodies of the adjustment endpoints, and the responses the
//! enhanced operations report.

use vstd::prelude::*;

use crate::firebase::{DateRange, ProductModificationHistory, VariantModificationHistory};
use crate::json::{spec_get, spec_json_view, JsonObject, JsonSpec, JsonValue};
use crate::location::LocationInfo;
use crate::stock::ProductStatus;
use crate::text::{parse_u64, spec_parse_u64, spec_u64_string, str_eq, u64_to_string};
use crate::utils::InventoryUpdate;

verus! {

broadcast use vstd::std_specs::vec::group_vec_axioms;

/// One stock level row: an inventory item's available quantity at one
/// location.
#[derive(Debug, Clone)]
pub struct InventoryLevel {
    pub inventory_item_id: String,
    pub location_id: String,
    pub available: i32,
}

/// Mathematical image of an [`InventoryLevel`].
#[verifier::ext_equal]
pub ghost struct LevelView {
    pub inventory_item_id: Seq<char>,
    pub location_id: Seq<char>,
    pub available: int,
}

impl View for InventoryLevel {
    type V = LevelView;

    open spec fn view(&self) -> LevelView {
        LevelView {
            inventory_item_id: self.inventory_item_id@,
            location_id: self.location_id@,
            available: self.available as int,
        }
    }
}

/// Result of the enhanced operations: the plain status and message,
/// plus whether the operation flipped the product's visibility.
#[derive(Debug, Clone)]
pub struct EnhancedStatusResponse {
    pub status: String,
    pub message: String,
    pub status_changed: Option<String>,
    pub product_status: Option<String>,
}

/// The two sites in their configured roles, as the front end asks for
/// them.
#[derive(Debug, Clone)]
pub struct LocationConfigResponse {
    pub primary_location: LocationInfo,
    pub secondary_location: LocationInfo,
}

/// One level row of the listing endpoint. Both identifiers are
/// required numbers; a missing quantity reads as zero.
pub open spec fn spec_level_of(v: JsonSpec) -> Option<LevelView> {
    match (spec_get(v, "inventory_item_id"@), spec_get(v, "location_id"@)) {
        (Some(JsonSpec::Int(item)), Some(JsonSpec::Int(loc))) => if item >= 0 && loc >= 0 {
            Some(
                LevelView {
                    inventory_item_id: spec_u64_string(item),
                    location_id: spec_u64_string(loc),
                    available: crate::products::spec_i32_or_zero(v, "available"@),
                },
            )
        } else {
            None
        },
        _ => None,
    }
}

/// The level rows of a listing response.
pub open spec fn spec_levels_of(response: JsonSpec) -> Option<Seq<JsonSpec>> {
    match spec_get(response, "inventory_levels"@) {
        Some(JsonSpec::Array(rows)) => Some(rows),
        _ => None,
    }
}

/// A listing response parses: the row list is present and every row
/// carries its two identifiers.
pub open spec fn spec_levels_response_wf(response: JsonSpec) -> bool {
    match spec_levels_of(response) {
        Some(rows) => forall|i: int| 0 <= i < rows.len() ==> spec_level_of(#[trigger] rows[i]) is Some,
        None => false,
    }
}

/// The levels a well-formed listing response denotes, in row order.
pub open spec fn spec_levels_response_levels(response: JsonSpec) -> Seq<LevelView> {
    spec_levels_of(response)->0.map_values(|v: JsonSpec| spec_level_of(v)->0)
}

/// Parses an inventory-level listing response. Fails when the row
/// list is absent or a row lacks one of its identifiers.
#[verifier::loop_isolation(false)]
pub fn parse_inventory_levels_response(response: &JsonValue) -> (r: Result<
    Vec<InventoryLevel>,
    String,
>)
    ensures
        r is Ok <==> spec_levels_response_wf(response@),
        r matches Ok(levels) ==> levels@.map_values(|l: InventoryLevel| l@)
            == spec_levels_response_levels(response@),
{
    let rows = match response.get("inventory_levels") {
        Some(f) => match f.as_array() {
            Some(rows) => rows,
            None => {
                return Err(String::from_str("No inventory levels found"));
            },
        },
        None => {
            return Err(String::from_str("No inventory levels found"));
        },
    };
    let ghost rviews = rows@.map_values(|x: JsonValue| x@);
    let ghost f = |v: JsonSpec| spec_level_of(v)->0;
    let mut out: Vec<InventoryLevel> = Vec::new();
    let mut i: usize = 0;
    while i < rows.len()
        invariant
            i <= rows@.len(),
            out@.map_values(|l: InventoryLevel| l@) =~= rviews.take(i as int).map_values(f),
            forall|t: int| 0 <= t < i ==> spec_level_of(#[trigger] rviews[t]) is Some,
        decreases rows@.len() - i,
    {
        let row = &rows[i];
        let item = match row.get("inventory_item_id") {
            Some(g) => match g.as_u64() {
                Some(n) => n,
                None => {
                    return Err(String::from_str("Missing inventory_item_id"));
                },
            },
            None => {
                return Err(String::from_str("Missing inventory_item_id"));
            },
        };
        let loc = match row.get("location_id") {
            Some(g) => match g.as_u64() {
                Some(n) => n,
                None => {
                    return Err(String::from_str("Missing location_id"));
                },
            },
            None => {
                return Err(String::from_str("Missing location_id"));
            },
        };
        let available = crate::products::get_i32_or_zero(row, "available");
        let level = InventoryLevel {
            inventory_item_id: u64_to_string(item),
            location_id: u64_to_string(loc),
            available,
        };
        let ghost prev = out@.map_values(|l: InventoryLevel| l@);
        proof {
            assert(spec_level_of(rviews[i as int]) matches Some(w) && w =~= level@);
        }
        out.push(level);
        proof {
            assert(out@.map_values(|l: InventoryLevel| l@) =~= prev.push(f(rviews[i as int])));
            assert(rviews.take(i + 1 as int).map_values(f) =~= rviews.take(i as int).map_values(
                f,
            ).push(f(rviews[i as int])));
        }
        i += 1;
    }
    proof {
        assert(rviews.take(rows@.len() as int) =~= rviews);
    }
    Ok(out)
}

/// The zero-stock detector: a product is exhausted when no level of
/// any of its items at any location is positive.
pub fn all_levels_empty(levels: &Vec<InventoryLevel>) -> (r: bool)
    ensures
        r == (forall|i: int|
            0 <= i < levels@.len() ==> (#[trigger] levels@[i]).available <= 0),
{
    let mut i: usize = 0;
    while i < levels.len()
        invariant
            i <= levels@.len(),
            forall|j: int| 0 <= j < i ==> (#[trigger] levels@[j]).available <= 0,
        decreases levels@.len() - i,
    {
        if levels[i].available > 0 {
            return false;
        }
        i += 1;
    }
    true
}

/// One level row tagged with the role its location plays for the
/// selected shop.
#[derive(Debug, Clone)]
pub struct LabeledLevel {
    pub inventory_item_id: String,
    pub role: String,
    pub available: i32,
}

/// Mathematical image of a [`LabeledLevel`].
#[verifier::ext_equal]
pub ghost struct LabeledLevelView {
    pub inventory_item_id: Seq<char>,
    pub role: Seq<char>,
    pub available: int,
}

impl View for LabeledLevel {
    type V = LabeledLevelView;

    open spec fn view(&self) -> LabeledLevelView {
        LabeledLevelView {
            inventory_item_id: self.inventory_item_id@,
            role: self.role@,
            available: self.available as int,
        }
    }
}

/// The rows kept for the two tracked locations, each tagged with its
/// role; rows at any other location are dropped. A row at the primary
/// location is tagged primary even when the two identifiers coincide.
pub open spec fn spec_labeled_levels(
    levels: Seq<LevelView>,
    primary_id: Seq<char>,
    secondary_id: Seq<char>,
) -> Seq<LabeledLevelView> {
    levels.filter_map(
        |l: LevelView|
            if l.location_id == primary_id {
                Some(
                    LabeledLevelView {
                        inventory_item_id: l.inventory_item_id,
                        role: "primary"@,
                        available: l.available,
                    },
                )
            } else if l.location_id == secondary_id {
                Some(
                    LabeledLevelView {
                        inventory_item_id: l.inventory_item_id,
                        role: "secondary"@,
                        available: l.available,
                    },
                )
            } else {
                None
            },
    )
}

/// Keeps the level rows of the two tracked locations, tagging each
/// with the role its location plays for the selected shop.
pub fn label_levels_for_locations(
    levels: &Vec<InventoryLevel>,
    primary_id: &str,
    secondary_id: &str,
) -> (r: Vec<LabeledLevel>)
    ensures
        r@.map_values(|l: LabeledLevel| l@) == spec_labeled_levels(
            levels@.map_values(|l: InventoryLevel| l@),
            primary_id@,
            secondary_id@,
        ),
{
    let ghost lviews = levels@.map_values(|l: InventoryLevel| l@);
    let ghost f = |l: LevelView|
        if l.location_id == primary_id@ {
            Some(
                LabeledLevelView {
                    inventory_item_id: l.inventory_item_id,
                    role: "primary"@,
                    available: l.available,
                },
            )
        } else if l.location_id == secondary_id@ {
            Some(
                LabeledLevelView {
                    inventory_item_id: l.inventory_item_id,
                    role: "secondary"@,
                    available: l.available,
                },
            )
        } else {
            None
        };
    let mut out: Vec<LabeledLevel> = Vec::new();
    let mut i: usize = 0;
    while i < levels.len()
        invariant
            i <= levels@.len(),
            lviews == levels@.map_values(|l: InventoryLevel| l@),
            lviews.len() == levels@.len(),
            f == (|l: LevelView|
                if l.location_id == primary_id@ {
                    Some(
                        LabeledLevelView {
                            inventory_item_id: l.inventory_item_id,
                            role: "primary"@,
                            available: l.available,
                        },
                    )
                } else if l.location_id == secondary_id@ {
                    Some(
                        LabeledLevelView {
                            inventory_item_id: l.inventory_item_id,
                            role: "secondary"@,
                            available: l.available,
                        },
                    )
                } else {
                    None
                }),
            out@.map_values(|l: LabeledLevel| l@) =~= lviews.take(i as int).filter_map(f),
        decreases levels@.len() - i,
    {
        proof {
            assert(lviews.take(i + 1 as int).drop_last() =~= lviews.take(i as int));
            assert(lviews.take(i + 1 as int).last() == lviews[i as int]);
        }
        let level = &levels[i];
        if str_eq(level.location_id.as_str(), primary_id) {
            let entry = LabeledLevel {
                inventory_item_id: level.inventory_item_id.clone(),
                role: String::from_str("primary"),
                available: level.available,
            };
            proof {
                assert(f(lviews[i as int]) matches Some(w) && w =~= entry@);
            }
            out.push(entry);
            proof {
                assert(out@.map_values(|l: LabeledLevel| l@) =~= lviews.take(
                    i + 1 as int,
                ).filter_map(f));
            }
        } else if str_eq(level.location_id.as_str(), secondary_id) {
            let entry = LabeledLevel {
                inventory_item_id: level.inventory_item_id.clone(),
                role: String::from_str("secondary"),
                available: level.available,
            };
            proof {
                assert(f(lviews[i as int]) matches Some(w) && w =~= entry@);
            }
            out.push(entry);
            proof {
                assert(out@.map_values(|l: LabeledLevel| l@) =~= lviews.take(
                    i + 1 as int,
                ).filter_map(f));
            }
        } else {
            proof {
                assert(f(lviews[i as int]) is None);
            }
        }
        i += 1;
    }
    proof {
        assert(lviews.take(levels@.len() as int) =~= lviews);
    }
    out
}

/// Picks the location identifiers for the selected shop: the selected
/// name takes the primary identifier when it is the first site, the
/// secondary one otherwise.
pub fn resolve_location_ids(
    primary_location_name: &str,
    primary_location: &String,
    secondary_location: &String,
) -> (r: (String, String))
    ensures
        primary_location_name@ == "Treviso"@ ==> r.0 == primary_location && r.1
            == secondary_location,
        primary_location_name@ != "Treviso"@ ==> r.0 == secondary_location && r.1
            == primary_location,
{
    if str_eq(primary_location_name, "Treviso") {
        (primary_location.clone(), secondary_location.clone())
    } else {
        (secondary_location.clone(), primary_location.clone())
    }
}

/// The request body of one stock adjustment.
pub fn build_adjust_payload(update: &InventoryUpdate) -> (r: JsonValue)
    ensures
        r@ == JsonSpec::Object(
            seq![
                ("location_id"@, JsonSpec::Str(update.location_id@)),
                ("inventory_item_id"@, JsonSpec::Str(update.variant_id@)),
                ("available_adjustment"@, JsonSpec::Int(update.adjustment as int)),
            ],
        ),
{
    let mut o = JsonObject::new();
    o.push("location_id", JsonValue::Str(update.location_id.clone()));
    o.push("inventory_item_id", JsonValue::Str(update.variant_id.clone()));
    o.push("available_adjustment", JsonValue::Int(update.adjustment as i64));
    let ghost fv = o.fviews();
    let r = o.build();
    proof {
        assert(fv =~~= seq![
            ("location_id"@, JsonSpec::Str(update.location_id@)),
            ("inventory_item_id"@, JsonSpec::Str(update.variant_id@)),
            ("available_adjustment"@, JsonSpec::Int(update.adjustment as int)),
        ]);
        assert(r@ =~~= JsonSpec::Object(
            seq![
                ("location_id"@, JsonSpec::Str(update.location_id@)),
                ("inventory_item_id"@, JsonSpec::Str(update.variant_id@)),
                ("available_adjustment"@, JsonSpec::Int(update.adjustment as int)),
            ],
        ));
    }
    r
}

/// The request body that sets one level outright.
pub fn build_set_level_payload(
    inventory_item_id: &str,
    location_id: &str,
    quantity: i32,
) -> (r: JsonValue)
    ensures
        r@ == JsonSpec::Object(
            seq![
                ("location_id"@, JsonSpec::Str(location_id@)),
                ("inventory_item_id"@, JsonSpec::Str(inventory_item_id@)),
                ("available"@, JsonSpec::Int(quantity as int)),
            ],
        ),
{
    let mut o = JsonObject::new();
    o.push("location_id", JsonValue::string(location_id));
    o.push("inventory_item_id", JsonValue::string(inventory_item_id));
    o.push("available", JsonValue::Int(quantity as i64));
    let ghost fv = o.fviews();
    let r = o.build();
    proof {
        assert(fv =~~= seq![
            ("location_id"@, JsonSpec::Str(location_id@)),
            ("inventory_item_id"@, JsonSpec::Str(inventory_item_id@)),
            ("available"@, JsonSpec::Int(quantity as int)),
        ]);
        assert(r@ =~~= JsonSpec::Object(
            seq![
                ("location_id"@, JsonSpec::Str(location_id@)),
                ("inventory_item_id"@, JsonSpec::Str(inventory_item_id@)),
                ("available"@, JsonSpec::Int(quantity as int)),
            ],
        ));
    }
    r
}

/// The request body that sets a product's visibility status. Fails
/// exactly when the product identifier is not a decimal number.
pub fn build_product_status_payload(product_id: &str, status: ProductStatus) -> (r: Result<
    JsonValue,
    String,
>)
    ensures
        r is Ok <==> (spec_parse_u64(product_id@) matches Some(n) && n <= i64::MAX),
        r matches Ok(v) ==> v@ == JsonSpec::Object(
            seq![
                (
                    "product"@,
                    JsonSpec::Object(
                        seq![
                            ("id"@, JsonSpec::Int(spec_parse_u64(product_id@)->0)),
                            ("status"@, JsonSpec::Str(status.spec_text())),
                        ],
                    ),
                ),
            ],
        ),
{
    let id = match parse_u64(product_id) {
        Some(n) => n,
        None => {
            return Err(String::from_str("Invalid product ID"));
        },
    };
    if id > i64::MAX as u64 {
        return Err(String::from_str("Invalid product ID"));
    }
    let mut inner = JsonObject::new();
    inner.push("id", JsonValue::Int(id as i64));
    inner.push("status", JsonValue::string(status.as_text()));
    let ghost iv = inner.fviews();
    let mut o = JsonObject::new();
    o.push("product", inner.build());
    let ghost ov = o.fviews();
    let r = o.build();
    proof {
        assert(iv =~~= seq![
            ("id"@, JsonSpec::Int(spec_parse_u64(product_id@)->0)),
            ("status"@, JsonSpec::Str(status.spec_text())),
        ]);
        assert(ov =~~= seq![("product"@, JsonSpec::Object(iv))]);
        assert(r@ =~~= JsonSpec::Object(
            seq![
                (
                    "product"@,
                    JsonSpec::Object(
                        seq![
                            ("id"@, JsonSpec::Int(spec_parse_u64(product_id@)->0)),
                            ("status"@, JsonSpec::Str(status.spec_text())),
                        ],
                    ),
                ),
            ],
        ));
    }
    Ok(r)
}

/// A GraphQL response that reports protocol errors.
pub fn graphql_has_errors(response: &JsonValue) -> (r: bool)
    ensures
        r == (spec_get(response@, "errors"@) is Some),
{
    match response.get("errors") {
        Some(_) => true,
        None => false,
    }
}

/// A GraphQL adjustment response that reports user errors: the
/// `userErrors` list is present and not empty.
pub fn graphql_has_user_errors(response: &JsonValue) -> (r: bool)
    ensures
        r == (match spec_get(response@, "data"@) {
            Some(d) => match spec_get(d, "inventoryAdjustQuantities"@) {
                Some(a) => match spec_get(a, "userErrors"@) {
                    Some(JsonSpec::Array(errs)) => errs.len() > 0,
                    _ => false,
                },
                _ => false,
            },
            _ => false,
        }),
{
    match response.get("data") {
        Some(d) => match d.get("inventoryAdjustQuantities") {
            Some(a) => match a.get("userErrors") {
                Some(ev) => match ev.as_array() {
                    Some(errs) => errs.len() > 0,
                    None => false,
                },
                None => false,
            },
            None => false,
        },
        None => false,
    }
}

/// A GraphQL global identifier: the kind's prefix before the bare
/// identifier.
pub fn build_gid(kind: &str, id: &str) -> (r: String)
    ensures
        r@ == "gid://shopify/"@ + kind@ + "/"@ + id@,
{
    let mut s = String::from_str("gid://shopify/");
    s.append(kind);
    s.append("/");
    s.append(id);
    s
}

/// The mutation text of the GraphQL stock adjustment.
pub fn graphql_adjust_mutation() -> (r: String)
    ensures
        r@
            == "mutation inventoryAdjustQuantities($input: InventoryAdjustQuantitiesInput!) { inventoryAdjustQuantities(input: $input) { userErrors { field message } inventoryAdjustmentGroup { id createdAt reason changes { name delta } } } }"@,
{
    String::from_str(
        "mutation inventoryAdjustQuantities($input: InventoryAdjustQuantitiesInput!) { inventoryAdjustQuantities(input: $input) { userErrors { field message } inventoryAdjustmentGroup { id createdAt reason changes { name delta } } } }",
    )
}

/// The variables of the GraphQL stock adjustment: one change of the
/// given delta against the item and location, under the given reason.
pub open spec fn spec_graphql_adjust_variables(
    reason: Seq<char>,
    delta: int,
    inventory_item_gid: Seq<char>,
    location_gid: Seq<char>,
) -> JsonSpec {
    JsonSpec::Object(
        seq![
            (
                "input"@,
                JsonSpec::Object(
                    seq![
                        ("reason"@, JsonSpec::Str(reason)),
                        ("name"@, JsonSpec::Str("available"@)),
                        (
                            "referenceDocumentUri"@,
                            JsonSpec::Str("app://inventario-cappelletto"@),
                        ),
                        (
                            "changes"@,
                            JsonSpec::Array(
                                seq![
                                    JsonSpec::Object(
                                        seq![
                                            ("delta"@, JsonSpec::Int(delta)),
                                            (
                                                "inventoryItemId"@,
                                                JsonSpec::Str(inventory_item_gid),
                                            ),
                                            ("locationId"@, JsonSpec::Str(location_gid)),
                                        ],
                                    ),
                                ],
                            ),
                        ),
                    ],
                ),
            ),
        ],
    )
}

/// Builds the variables object of the GraphQL stock adjustment.
pub fn build_graphql_adjust_variables(
    reason: &str,
    delta: i32,
    inventory_item_gid: &str,
    location_gid: &str,
) -> (r: JsonValue)
    ensures
        r@ == spec_graphql_adjust_variables(
            reason@,
            delta as int,
            inventory_item_gid@,
            location_gid@,
        ),
{
    let mut change = JsonObject::new();
    change.push("delta", JsonValue::Int(delta as i64));
    change.push("inventoryItemId", JsonValue::string(inventory_item_gid));
    change.push("locationId", JsonValue::string(location_gid));
    let mut changes: Vec<JsonValue> = Vec::new();
    let ghost change_view = JsonSpec::Object(
        seq![
            ("delta"@, JsonSpec::Int(delta as int)),
            ("inventoryItemId"@, JsonSpec::Str(inventory_item_gid@)),
            ("locationId"@, JsonSpec::Str(location_gid@)),
        ],
    );
    let ghost cfv = change.fviews();
    let built = change.build();
    proof {
        assert(cfv =~~= seq![
            ("delta"@, JsonSpec::Int(delta as int)),
            ("inventoryItemId"@, JsonSpec::Str(inventory_item_gid@)),
            ("locationId"@, JsonSpec::Str(location_gid@)),
        ]);
        assert(built@ =~~= change_view);
    }
    changes.push(built);
    let changes_value = JsonValue::Array(changes);
    proof {
        crate::json::lemma_json_views_map(changes_value->Array_0@);
        assert(changes_value->Array_0@.map_values(|x: JsonValue| spec_json_view(x)) =~= seq![
            change_view,
        ]);
        assert(changes_value@ =~~= JsonSpec::Array(seq![change_view]));
    }
    let mut input = JsonObject::new();
    input.push("reason", JsonValue::string(reason));
    input.push("name", JsonValue::string("available"));
    input.push("referenceDocumentUri", JsonValue::string("app://inventario-cappelletto"));
    input.push("changes", changes_value);
    let ghost ifv = input.fviews();
    let mut o = JsonObject::new();
    o.push("input", input.build());
    let ghost ofv = o.fviews();
    let r = o.build();
    proof {
        assert(ifv =~~= seq![
            ("reason"@, JsonSpec::Str(reason@)),
            ("name"@, JsonSpec::Str("available"@)),
            ("referenceDocumentUri"@, JsonSpec::Str("app://inventario-cappelletto"@)),
            ("changes"@, JsonSpec::Array(seq![change_view])),
        ]);
        assert(ofv =~~= seq![("input"@, JsonSpec::Object(ifv))]);
        assert(r@ =~~= spec_graphql_adjust_variables(
            reason@,
            delta as int,
            inventory_item_gid@,
            location_gid@,
        ));
    }
    r
}

/// The response of a completed enhanced decrease: a success, with the
/// draft demotion noted when the operation exhausted the product.
pub fn build_decrease_response(changed_to_draft: bool) -> (r: EnhancedStatusResponse)
    ensures
        r.status@ == "success"@,
        changed_to_draft ==> r.message@
            == "Inventario diminuito e registrato con successo - Prodotto impostato come bozza (inventario esaurito)"@
            && (r.status_changed matches Some(s) && s@ == "to_draft"@) && (r.product_status
            matches Some(s) && s@ == "draft"@),
        !changed_to_draft ==> r.message@ == "Inventario diminuito e registrato con successo"@
            && r.status_changed is None && r.product_status is None,
{
    if changed_to_draft {
        EnhancedStatusResponse {
            status: String::from_str("success"),
            message: String::from_str(
                "Inventario diminuito e registrato con successo - Prodotto impostato come bozza (inventario esaurito)",
            ),
            status_changed: Some(String::from_str("to_draft")),
            product_status: Some(String::from_str("draft")),
        }
    } else {
        EnhancedStatusResponse {
            status: String::from_str("success"),
            message: String::from_str("Inventario diminuito e registrato con successo"),
            status_changed: None,
            product_status: None,
        }
    }
}

/// The response of a completed enhanced restore: a success, with the
/// reactivation noted when the product had been exhausted.
pub fn build_undo_response(changed_to_active: bool) -> (r: EnhancedStatusResponse)
    ensures
        r.status@ == "success"@,
        changed_to_active ==> r.message@
            == "Inventario ripristinato e registrato con successo - Prodotto riattivato (inventario disponibile)"@
            && (r.status_changed matches Some(s) && s@ == "to_active"@) && (r.product_status
            matches Some(s) && s@ == "active"@),
        !changed_to_active ==> r.message@ == "Inventario ripristinato e registrato con successo"@
            && r.status_changed is None && r.product_status is None,
{
    if changed_to_active {
        EnhancedStatusResponse {
            status: String::from_str("success"),
            message: String::from_str(
                "Inventario ripristinato e registrato con successo - Prodotto riattivato (inventario disponibile)",
            ),
            status_changed: Some(String::from_str("to_active")),
            product_status: Some(String::from_str("active")),
        }
    } else {
        EnhancedStatusResponse {
            status: String::from_str("success"),
            message: String::from_str("Inventario ripristinato e registrato con successo"),
            status_changed: None,
            product_status: None,
        }
    }
}

/// The response of a committed transfer: a success carrying the
/// transfer report, with the draft demotion noted when the transfer
/// left the product exhausted at every location.
pub fn build_transfer_response(message: String, set_to_draft: bool) -> (r:
    EnhancedStatusResponse)
    ensures
        r.status@ == "success"@,
        r.message == message,
        set_to_draft ==> (r.status_changed matches Some(s) && s@ == "to_draft"@),
        !set_to_draft ==> r.status_changed is None,
        r.product_status is None,
{
    EnhancedStatusResponse {
        status: String::from_str("success"),
        message,
        status_changed: if set_to_draft {
            Some(String::from_str("to_draft"))
        } else {
            None
        },
        product_status: None,
    }
}

/// One row of the low-stock report: a variant at or under the
/// threshold, with its product named.
#[derive(Debug, Clone)]
pub struct LowStockEntry {
    pub product_id: String,
    pub product_title: String,
    pub variant_id: String,
    pub variant_title: String,
    pub inventory_quantity: i32,
    pub sku: Option<String>,
}

/// Mathematical image of a [`LowStockEntry`].
#[verifier::ext_equal]
pub ghost struct LowStockView {
    pub product_id: Seq<char>,
    pub product_title: Seq<char>,
    pub variant_id: Seq<char>,
    pub variant_title: Seq<char>,
    pub inventory_quantity: int,
    pub sku: Option<Seq<char>>,
}

impl View for LowStockEntry {
    type V = LowStockView;

    open spec fn view(&self) -> LowStockView {
        LowStockView {
            product_id: self.product_id@,
            product_title: self.product_title@,
            variant_id: self.variant_id@,
            variant_title: self.variant_title@,
            inventory_quantity: self.inventory_quantity as int,
            sku: match self.sku {
                Some(ref s) => Some(s@),
                None => None,
            },
        }
    }
}

/// The low-stock rows of one product: its variants at or under the
/// threshold, in variant order.
pub open spec fn spec_low_rows_of(p: crate::products::ProductView, threshold: int) -> Seq<
    LowStockView,
> {
    p.variants.filter_map(
        |v: crate::products::VariantView|
            if v.inventory_quantity <= threshold {
                Some(
                    LowStockView {
                        product_id: p.id,
                        product_title: p.title,
                        variant_id: v.variant_id,
                        variant_title: v.title,
                        inventory_quantity: v.inventory_quantity,
                        sku: v.sku,
                    },
                )
            } else {
                None
            },
    )
}

/// The low-stock rows of a catalog, product by product.
pub open spec fn spec_low_rows(ps: Seq<crate::products::ProductView>, threshold: int) -> Seq<
    LowStockView,
>
    decreases ps.len(),
{
    if ps.len() == 0 {
        Seq::empty()
    } else {
        spec_low_rows(ps.drop_last(), threshold) + spec_low_rows_of(ps.last(), threshold)
    }
}

fn low_rows_of_product(p: &crate::utils::Product, threshold: i32) -> (r: Vec<LowStockEntry>)
    ensures
        r@.map_values(|e: LowStockEntry| e@) == spec_low_rows_of(p@, threshold as int),
{
    let ghost f = |v: crate::products::VariantView|
        if v.inventory_quantity <= threshold as int {
            Some(
                LowStockView {
                    product_id: p@.id,
                    product_title: p@.title,
                    variant_id: v.variant_id,
                    variant_title: v.title,
                    inventory_quantity: v.inventory_quantity,
                    sku: v.sku,
                },
            )
        } else {
            None
        };
    let ghost vviews = p@.variants;
    let mut out: Vec<LowStockEntry> = Vec::new();
    let mut k: usize = 0;
    while k < p.variants.len()
        invariant
            k <= p.variants@.len(),
            vviews == p@.variants,
            vviews.len() == p.variants@.len(),
            f == (|v: crate::products::VariantView|
                if v.inventory_quantity <= threshold as int {
                    Some(
                        LowStockView {
                            product_id: p@.id,
                            product_title: p@.title,
                            variant_id: v.variant_id,
                            variant_title: v.title,
                            inventory_quantity: v.inventory_quantity,
                            sku: v.sku,
                        },
                    )
                } else {
                    None
                }),
            out@.map_values(|e: LowStockEntry| e@) =~= vviews.take(k as int).filter_map(f),
        decreases p.variants@.len() - k,
    {
        proof {
            assert(vviews.take(k + 1 as int).drop_last() =~= vviews.take(k as int));
            assert(vviews.take(k + 1 as int).last() == vviews[k as int]);
        }
        let v = &p.variants[k];
        if v.inventory_quantity <= threshold {
            let sku = match &v.sku {
                Some(s) => Some(s.clone()),
                None => None,
            };
            let entry = LowStockEntry {
                product_id: p.id.clone(),
                product_title: p.title.clone(),
                variant_id: v.variant_id.clone(),
                variant_title: v.title.clone(),
                inventory_quantity: v.inventory_quantity,
                sku,
            };
            proof {
                assert(v@ == vviews[k as int]);
                assert(f(vviews[k as int]) matches Some(w) && w =~= entry@);
            }
            out.push(entry);
            proof {
                assert(out@.map_values(|e: LowStockEntry| e@) =~= vviews.take(
                    k + 1 as int,
                ).filter_map(f));
            }
        } else {
            proof {
                assert(v@ == vviews[k as int]);
                assert(f(vviews[k as int]) is None);
            }
        }
        k += 1;
    }
    proof {
        assert(vviews.take(p.variants@.len() as int) =~= vviews);
        assert(spec_low_rows_of(p@, threshold as int) == vviews.filter_map(f));
    }
    out
}

/// The low-stock report: every variant of every product whose stock
/// snapshot is at or under the threshold, in catalog order.
pub fn low_stock_rows(products: &Vec<crate::utils::Product>, threshold: i32) -> (r: Vec<
    LowStockEntry,
>)
    ensures
        r@.map_values(|e: LowStockEntry| e@) == spec_low_rows(
            products@.map_values(|p: crate::utils::Product| p@),
            threshold as int,
        ),
{
    let ghost pviews = products@.map_values(|p: crate::utils::Product| p@);
    let mut out: Vec<LowStockEntry> = Vec::new();
    let mut i: usize = 0;
    proof {
        assert(out@.map_values(|e: LowStockEntry| e@) =~= spec_low_rows(
            pviews.take(0),
            threshold as int,
        ));
    }
    while i < products.len()
        invariant
            i <= products@.len(),
            pviews == products@.map_values(|p: crate::utils::Product| p@),
            pviews.len() == products@.len(),
            out@.map_values(|e: LowStockEntry| e@) =~= spec_low_rows(
                pviews.take(i as int),
                threshold as int,
            ),
        decreases products@.len() - i,
    {
        let mut rows = low_rows_of_product(&products[i], threshold);
        let ghost added = rows@.map_values(|e: LowStockEntry| e@);
        let ghost before = out@.map_values(|e: LowStockEntry| e@);
        out.append(&mut rows);
        proof {
            assert(out@.map_values(|e: LowStockEntry| e@) =~= before + added);
            assert(pviews.take(i + 1 as int).drop_last() =~= pviews.take(i as int));
            assert(pviews.take(i + 1 as int).last() == pviews[i as int]);
            assert(spec_low_rows(pviews.take(i + 1 as int), threshold as int) == spec_low_rows(
                pviews.take(i as int),
                threshold as int,
            ) + spec_low_rows_of(pviews[i as int], threshold as int));
        }
        i += 1;
    }
    proof {
        assert(pviews.take(products@.len() as int) =~= pviews);
    }
    out
}

/// Assembles the history report of one product at one shop.
pub fn assemble_product_history(
    product_id: String,
    location: String,
    date_range: DateRange,
    variants: Vec<VariantModificationHistory>,
) -> (r: ProductModificationHistory)
    ensures
        r.product_id == product_id,
        r.location == location,
        r.date_range == date_range,
        r.variants == variants,
{
    ProductModificationHistory { product_id, location, date_range, variants }
}

} // verus!
