//! Grants the current machine SSH ingress to a set of firewall rule groups.

pub mod authorizer;
pub mod config;
pub mod description;
pub mod error;
pub mod region;
pub mod report;
pub mod request;
pub mod text;
pub mod unknown_error;
pub mod xml;
