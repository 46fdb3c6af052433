//! Locating X11 windows by a small query language and bringing one to the front.
//!
//! The library holds the decisions: parsing queries, decoding window
//! properties, matching windows and sequencing the activation requests.
//! The round trips to the display server are made by its caller.
pub mod activation;
pub mod matcher;
pub mod query;
pub mod text;
