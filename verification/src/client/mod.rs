//! The arithmetic behind balance queries. Fetching and parsing the answers is
//! the host's side of the seam; what is computed from them lives here.
pub mod btc;
pub mod tron;
