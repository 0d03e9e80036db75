//! A typed client for a paginated REST API.
//!
//! The verified core parses the navigation links that a server sends in its
//! `Link` response header and drives a paginated listing as a pull-based state
//! machine: the caller performs the HTTP requests that the machine asks for and
//! feeds each response back in.
pub mod canvas;
pub mod error;
pub mod models;
pub mod pagination;
pub mod paginator;
pub mod timestamps;
