pub mod amount;
pub mod clients;
pub mod laws;
pub mod transactions;

pub use amount::decimal_to_string;
