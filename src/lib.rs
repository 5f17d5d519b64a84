//! Storage and access-control core of an encrypted file-sharing service.
//!
//! The library holds users, encrypted files and the shared links that grant a
//! single recipient time-boxed access to one file.  Every operation is a
//! verified function whose contract is stated over the abstract state of the
//! store.

pub mod config;
pub mod dtos;
pub mod error;
pub mod laws;
pub mod model;
pub mod pattern;
pub mod store;
pub mod text;
