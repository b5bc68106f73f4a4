//! A client library for a Japanese postal-code lookup service: it turns a
//! line typed by a user into a request URL, and decodes the service's JSON
//! reply into typed address records.
pub mod decode;
pub mod json;
pub mod model;
pub mod text;
