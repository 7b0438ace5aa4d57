//! An echo of the caller: the address a request came from and what the
//! request said of itself, as plain text, as a JSON object, or as a page.
//!
//! Every answer is made from one list of entries, built once for each request
//! by [`helpers::gen_response`]: the client's address, the headers that are
//! reported, the protocol version, the method. [`routes`] holds the answers,
//! [`present`], [`json`] and [`ssr`] the forms they take.
//!
//! The library neither listens nor draws. It is handed what a server saw of a
//! request, as a [`helpers::Request`], and hands back a [`routes::Reply`].

pub mod build_id;
pub mod helpers;
pub mod json;
pub mod present;
pub mod routes;
pub mod ssr;
pub mod text;
