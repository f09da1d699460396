//! Operations on the store, one service per kind of record.

pub mod accounts;
pub mod card_types;
pub mod cards;
pub mod change_requests;
pub mod knowledge;
pub mod stats;
