//! Address validation and conversion, one module per chain.
pub mod btc;
pub mod tron;
