//! Client library for the private mobile-application protocol of a consumer
//! bank's backend.
//!
//! The library has two halves. The protocol client builds each of the ten
//! protocol operations as a [`client::Request`] value: the path, the query
//! parameters (the fixed client-identity fingerprint, the device id, and the
//! session id) and the form body, exactly as the backend expects them. The
//! envelope and entity codec decodes every response body from the vendor's
//! irregular JSON into a uniform [`data_structs::ResponsePayload`] envelope
//! around a strongly typed payload, and can re-serialize each entity.
//!
//! Sending the request over HTTP is the caller's business: the library holds
//! no transport and no session state.

pub mod builder;
pub mod client;
pub mod codec;
pub mod data_structs;
pub mod json;
pub mod text;

pub use builder::ClientBuilder;
pub use client::Client;
pub use client::Request;
pub use data_structs::AccessLevel;
pub use data_structs::Account;
pub use data_structs::Currency;
pub use data_structs::MoneyAmount;
pub use data_structs::Nothing;
pub use data_structs::Operation;
pub use data_structs::OperationGroup;
pub use data_structs::OperationType;
pub use data_structs::ResponsePayload;
pub use data_structs::ResultCode;
pub use data_structs::Session;
pub use data_structs::UserInfo;
pub use json::DecodeError;
pub use json::Decimal;
