//! A small CRM core: CRUD over two related entities, clients and
//! deals, with validation, the commission rule, and the persistence
//! model's guarantees (issued ids, ordering, referential integrity)
//! stated as contracts and proved.

pub mod clients;
pub mod date;
pub mod deals;
pub mod status;
pub mod store;
