//! Uploads one local file to a GitHub repository through the Contents API.
//!
//! The verified part holds the decisions: parsing the pre-authenticated raw
//! URL, the size ceiling, building the authenticated requests and the JSON
//! write payload, reading the provider's replies, and the state machine that
//! orders the stages. The caller performs the file and network work.
pub mod error;
pub mod local;
pub mod payload;
pub mod pipeline;
pub mod protocol;
pub mod target;
