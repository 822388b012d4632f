//! Inventory-management core for a two-location retail shop.
//!
//! The library holds the verified logic of the application: the catalog
//! scan that demotes out-of-stock products to draft, the compensating
//! two-phase inventory mover, the wire-format marshaling for the audit
//! log store, and the pure parsing and decision functions that the
//! surrounding I/O shell drives.

pub mod fetch;
pub mod firebase;
pub mod inventory;
pub mod json;
pub mod location;
pub mod products;
pub mod status;
pub mod stock;
pub mod text;
pub mod transfer;
pub mod utils;
