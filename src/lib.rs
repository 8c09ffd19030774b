//! Request execution and classification engine of a small API-testing tool.
//!
//! A caller describes an HTTP or gRPC call as a [`request::RequestSpec`]; the
//! engine turns it into an argument vector for an external client, classifies
//! what the client printed into an [`outcome::Outcome`], and stamps the attempt
//! as an immutable [`record::RequestRecord`] for the history store.

pub mod text;
pub mod request;
pub mod command;
pub mod pattern;
pub mod outcome;
pub mod numbers;
pub mod models;
pub mod display;
pub mod record;
pub mod coordinator;
