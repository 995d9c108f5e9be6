//! A product catalog with a derived mean price and a propose / approve /
//! reject moderation workflow.
mod database;
mod product;

pub use database::{
    add_product, approve_product, propose_product, reject_product, remove_product, setup, Database,
    Errors,
};
pub use product::{average_of, AveragePrice, Product};
