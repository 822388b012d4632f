//! The two fixed stock-holding sites and the locally persisted choice
//! of the current one. The shop names map to location identifiers
//! through an explicit table, and the primary/secondary roles follow
//! from which site the user selected.

use vstd::prelude::*;

use crate::json::{spec_get, JsonObject, JsonSpec, JsonValue};
use crate::text::str_eq;
use crate::utils::AppConfig;

verus! {

/// One stock-holding site: its display name and its remote identifier.
#[derive(Debug, Clone)]
pub struct LocationInfo {
    pub name: String,
    pub id: String,
}

/// The two sites in their current roles: the selected one first.
#[derive(Debug, Clone)]
pub struct LocationConfig {
    pub primary_location: LocationInfo,
    pub secondary_location: LocationInfo,
}

/// The built-in table of sites.
pub fn get_available_locations() -> (r: Vec<LocationInfo>)
    ensures
        r@.len() == 2,
        r@[0].name@ == "Treviso"@ && r@[0].id@ == "3708157983"@,
        r@[1].name@ == "Mogliano"@ && r@[1].id@ == "31985336425"@,
{
    let mut v: Vec<LocationInfo> = Vec::new();
    v.push(
        LocationInfo { name: String::from_str("Treviso"), id: String::from_str("3708157983") },
    );
    v.push(
        LocationInfo { name: String::from_str("Mogliano"), id: String::from_str("31985336425") },
    );
    v
}

/// Looks a site up by its display name in the built-in table; an
/// unknown name is reported in the error.
pub fn get_location_by_name(location_name: &str) -> (r: Result<LocationInfo, String>)
    ensures
        location_name@ == "Treviso"@ ==> (r matches Ok(l) && l.name@ == "Treviso"@ && l.id@
            == "3708157983"@),
        location_name@ == "Mogliano"@ ==> (r matches Ok(l) && l.name@ == "Mogliano"@ && l.id@
            == "31985336425"@),
        location_name@ != "Treviso"@ && location_name@ != "Mogliano"@ ==> (r matches Err(e) && e@
            == "Location '"@ + location_name@ + "' not found"@),
{
    proof {
        reveal_strlit("Treviso");
        reveal_strlit("Mogliano");
        assert("Treviso"@.len() == 7);
        assert("Mogliano"@.len() == 8);
    }
    if str_eq(location_name, "Treviso") {
        Ok(LocationInfo { name: String::from_str("Treviso"), id: String::from_str("3708157983") })
    } else if str_eq(location_name, "Mogliano") {
        Ok(
            LocationInfo {
                name: String::from_str("Mogliano"),
                id: String::from_str("31985336425"),
            },
        )
    } else {
        let mut message = String::from_str("Location '");
        message.append(location_name);
        message.append("' not found");
        Err(message)
    }
}

/// Assigns the primary and secondary roles for a selected site: the
/// selected name takes the primary role; any name other than the first
/// site's selects the second site.
pub fn get_current_location_config(current_location: &str, config: &AppConfig) -> (r:
    LocationConfig)
    ensures
        current_location@ == "Treviso"@ ==> (r.primary_location.name@ == "Treviso"@
            && r.primary_location.id == config.primary_location && r.secondary_location.name@
            == "Mogliano"@ && r.secondary_location.id == config.secondary_location),
        current_location@ != "Treviso"@ ==> (r.primary_location.name@ == "Mogliano"@
            && r.primary_location.id == config.secondary_location && r.secondary_location.name@
            == "Treviso"@ && r.secondary_location.id == config.primary_location),
{
    if str_eq(current_location, "Treviso") {
        LocationConfig {
            primary_location: LocationInfo {
                name: String::from_str("Treviso"),
                id: config.primary_location.clone(),
            },
            secondary_location: LocationInfo {
                name: String::from_str("Mogliano"),
                id: config.secondary_location.clone(),
            },
        }
    } else {
        LocationConfig {
            primary_location: LocationInfo {
                name: String::from_str("Mogliano"),
                id: config.secondary_location.clone(),
            },
            secondary_location: LocationInfo {
                name: String::from_str("Treviso"),
                id: config.primary_location.clone(),
            },
        }
    }
}

/// The persisted form of the selected site: a one-field document.
pub fn render_location_setting(location: &str) -> (r: JsonValue)
    ensures
        r@ == JsonSpec::Object(seq![("location"@, JsonSpec::Str(location@))]),
{
    let mut o = JsonObject::new();
    o.push("location", JsonValue::string(location));
    let r = o.build();
    proof {
        assert(r@ =~~= JsonSpec::Object(seq![("location"@, JsonSpec::Str(location@))]));
    }
    r
}

/// Reads the selected site back out of the persisted document.
pub fn parse_location_setting(doc: &JsonValue) -> (r: Result<String, String>)
    ensures
        r is Ok <==> (spec_get(doc@, "location"@) matches Some(JsonSpec::Str(_))),
        r matches Ok(s) ==> spec_get(doc@, "location"@) == Some(JsonSpec::Str(s@)),
{
    match doc.get("location") {
        Some(v) => match v.as_str() {
            Some(s) => Ok(String::from_str(s)),
            None => Err(String::from_str("Failed to parse location file")),
        },
        None => Err(String::from_str("Failed to parse location file")),
    }
}

} // verus!
