//! A verified core for a local OAuth2 authorization-code login flow.
//!
//! The crate models the pieces of the flow that are pure logic: building
//! the authorization URL, parsing the loopback redirect query, the one-shot
//! delivery of the captured authorization result, the login state machine,
//! interpreting the token-exchange response, and the credential file codec.
//! All network, filesystem and terminal work lives outside this library.
pub mod urlenc;
pub mod query;
pub mod proto;
pub mod errors;
pub mod callback;
pub mod store;
pub mod session;
pub mod exchange;
pub mod orchestrator;
pub mod tasks;
