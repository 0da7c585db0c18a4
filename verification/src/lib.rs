//! A verified terminology dictionary core: parsing terminology-exchange
//! documents into concepts, grouping each concept's language variants
//! under one shared identifier in a row store, deriving the distinct-value
//! lookup tables, and keeping a snapshot cache and a query cache coherent
//! with the store across every mutation.

pub mod dictionary;
pub mod import;
pub mod laws;
pub mod logging;
pub mod text;
