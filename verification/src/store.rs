//! The whole persisted state: one table per resource, with unique ids,
//! creation-time order, and referential integrity between them.

use vstd::prelude::*;

use crate::categories::Category;
use crate::products::Product;
use crate::purchases::Purchase;
use crate::ratings::Rating;
use crate::table::{has_id, Table};
use crate::users::User;

verus! {

/// The five tables.
pub struct Store {
    pub categories: Table<Category>,
    pub products: Table<Product>,
    pub purchases: Table<Purchase>,
    pub ratings: Table<Rating>,
    pub users: Table<User>,
}

impl Store {
    /// Every table is well formed and every foreign key references an
    /// existing row.
    pub open spec fn wf(&self) -> bool {
        &&& self.categories.wf()
        &&& self.products.wf()
        &&& self.purchases.wf()
        &&& self.ratings.wf()
        &&& self.users.wf()
        &&& forall|i: int|
            0 <= i < self.products.rows@.len() ==> has_id(
                self.categories.rows@,
                (#[trigger] self.products.rows@[i]).data.category_id,
            )
        &&& forall|i: int|
            0 <= i < self.purchases.rows@.len() ==> has_id(
                self.products.rows@,
                (#[trigger] self.purchases.rows@[i]).data.product_id,
            ) && has_id(self.users.rows@, self.purchases.rows@[i].data.user_id)
        &&& forall|i: int|
            0 <= i < self.ratings.rows@.len() ==> has_id(
                self.products.rows@,
                (#[trigger] self.ratings.rows@[i]).data.product_id,
            ) && has_id(self.users.rows@, self.ratings.rows@[i].data.user_id)
    }

    /// An empty store.
    pub fn new() -> (s: Store)
        ensures
            s.wf(),
            s.categories.rows@.len() == 0,
            s.products.rows@.len() == 0,
            s.purchases.rows@.len() == 0,
            s.ratings.rows@.len() == 0,
            s.users.rows@.len() == 0,
    {
        Store {
            categories: Table::new(),
            products: Table::new(),
            purchases: Table::new(),
            ratings: Table::new(),
            users: Table::new(),
        }
    }
}

/// The message every handler reports when a row it needs is missing.
pub open spec fn not_found_msg() -> Seq<char> {
    "record not found"@
}

/// The message a create or update reports when a supplied foreign key
/// references no row.
pub open spec fn fk_violation_msg() -> Seq<char> {
    "foreign key violation"@
}

/// The message a create reports when the supplied id already exists.
pub open spec fn duplicate_id_msg() -> Seq<char> {
    "duplicate id"@
}

/// The message a delete reports when other rows still reference the row.
pub open spec fn still_referenced_msg() -> Seq<char> {
    "row is still referenced"@
}

} // verus!
