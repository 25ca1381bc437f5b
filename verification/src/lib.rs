//! A client library for the campus library's discussion-room booking service:
//! it turns the service's replies into seat tables, decides which hours to
//! book, which appointments still wait to be signed, and how each request to
//! the service is built.

pub mod appointments;
pub mod book_store_info;
pub mod headers;
pub mod outside;
pub mod requests;
pub mod seats;
pub mod session;
pub mod signing;
pub mod structs;
pub mod text;
