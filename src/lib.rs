//! Chat components: a JSON document is resolved into a typed tree of styled
//! text fragments, which is then flattened into display text.
//!
//! Beside them stand the decisions of a terminal chat client: reading a
//! server address, choosing a locale, and what to do about each event of a
//! connection.
pub mod json;
pub mod component;
pub mod resolve;
pub mod render;
pub mod address;
pub mod client;
pub mod session;
