//! A verified core for a CRUD service over five related resources
//! (categories, products, purchases, ratings, users).
//!
//! The store keeps each resource in a table ordered by creation time and
//! enforces unique ids and referential integrity. Handlers implement the
//! uniform list / create / get / update / delete protocol, and every
//! response body is pinned down to the exact JSON text it carries.

pub mod categories;
pub mod clock;
pub mod ident;
pub mod laws;
pub mod products;
pub mod purchases;
pub mod ratings;
pub mod response;
pub mod schema;
pub mod store;
pub mod table;
pub mod text;
pub mod users;

use vstd::prelude::*;

verus! {

/// An HTTP-level result: a status code and a JSON body.
pub struct Response {
    pub status: u16,
    pub body: String,
}

} // verus!
