//! Answering Ethereum clients that ask for blocks.

pub mod alike;
pub mod answer_laws;
pub mod by_hash;
pub mod by_number;
pub mod cache;
pub mod find;
pub mod hash;
pub mod hash_laws;
pub mod info;
pub mod links;
pub mod queries;
pub mod receipt_laws;
pub mod receipts;
pub mod rich;
pub mod search_laws;
pub mod uncles;
