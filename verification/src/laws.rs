//! The protocol's cross-cutting guarantees, stated and proved over the
//! same specifications the handler contracts use.

use vstd::prelude::*;

use crate::categories::{resolve_category, Category, UpdateCategory};
use crate::products::{
    product_filter_fn, product_matches, resolve_product, Product, UpdateProduct,
};
use crate::purchases::{
    purchase_filter_fn, purchase_matches, resolve_purchase, Purchase, UpdatePurchase,
};
use crate::ratings::{rating_filter_fn, rating_matches, resolve_rating, Rating, UpdateRating};
use crate::schema::page_of;
use crate::table::{
    has_id, idx_of, ins_pos, lemma_idx_of_unique, lemma_ins_pos_range, lemma_insert_keeps_wf,
    lemma_matching_all, lemma_matching_sound, lemma_remove_keeps_wf, matching, new_rec, row_of,
    time_ordered, touched, unique_ids, Rec,
};
use crate::users::{resolve_user, UpdateUser, User};

verus! {

/// A page holds at most `limit` rows, skips exactly `skip` rows of the
/// ordered sequence, and keeps their order.
pub proof fn lemma_page_within_limit<T>(s: Seq<T>, skip: int, limit: int)
    requires
        0 <= skip,
        0 <= limit,
    ensures
        page_of(s, skip, limit).len() <= limit,
        forall|k: int|
            0 <= k < page_of(s, skip, limit).len() ==> page_of(s, skip, limit)[k] == s[skip + k],
        page_of(s, skip, limit).len() == if skip >= s.len() {
            0
        } else if skip + limit <= s.len() {
            limit
        } else {
            s.len() - skip
        },
{
}

/// Omitting the category filter keeps every product row, in order.
pub proof fn lemma_product_filter_noop(s: Seq<Rec<Product>>)
    ensures
        matching(s, product_filter_fn(None)) == s,
{
    assert forall|i: int| 0 <= i < s.len() implies product_filter_fn(None)(#[trigger] s[i]) by {
        assert(product_matches(s[i], None));
    }
    lemma_matching_all(s, product_filter_fn(None));
}

/// A supplied category filter keeps exactly the rows whose category
/// matches: every kept row matches, and every matching row is kept.
pub proof fn lemma_product_filter_exact(s: Seq<Rec<Product>>, c: u128)
    ensures
        forall|k: int|
            0 <= k < matching(s, product_filter_fn(Some(c))).len() ==> (#[trigger] matching(
                s,
                product_filter_fn(Some(c)),
            )[k]).data.category_id == c,
        forall|i: int|
            0 <= i < s.len() && (#[trigger] s[i]).data.category_id == c ==> matching(
                s,
                product_filter_fn(Some(c)),
            ).contains(s[i]),
{
    lemma_matching_sound(s, product_filter_fn(Some(c)));
    assert forall|i: int| 0 <= i < s.len() && (#[trigger] s[i]).data.category_id == c implies
        matching(s, product_filter_fn(Some(c))).contains(s[i]) by {
        assert(product_filter_fn(Some(c))(s[i]));
    }
}

/// Omitting both purchase filters keeps every purchase row, in order.
pub proof fn lemma_purchase_filter_noop(s: Seq<Rec<Purchase>>)
    ensures
        matching(s, purchase_filter_fn(None, None)) == s,
{
    assert forall|i: int| 0 <= i < s.len() implies purchase_filter_fn(None, None)(
        #[trigger] s[i],
    ) by {
        assert(purchase_matches(s[i], None, None));
    }
    lemma_matching_all(s, purchase_filter_fn(None, None));
}

/// Omitting both rating filters keeps every rating row, in order.
pub proof fn lemma_rating_filter_noop(s: Seq<Rec<Rating>>)
    ensures
        matching(s, rating_filter_fn(None, None)) == s,
{
    assert forall|i: int| 0 <= i < s.len() implies rating_filter_fn(None, None)(
        #[trigger] s[i],
    ) by {
        assert(rating_matches(s[i], None, None));
    }
    lemma_matching_all(s, rating_filter_fn(None, None));
}

/// Creating a row and then reading it back by the returned id yields
/// exactly the created payload, with the creation time set and the
/// update time unset.
pub proof fn lemma_create_round_trip<D>(s: Seq<Rec<D>>, id: u128, now: i64, data: D)
    requires
        unique_ids(s),
        time_ordered(s),
        !has_id(s, id),
    ensures
        ({
            let s2 = s.insert(ins_pos(s, now), new_rec(id, now, data));
            &&& has_id(s2, id)
            &&& row_of(s2, id) == new_rec(id, now, data)
            &&& row_of(s2, id).data == data
            &&& row_of(s2, id).created_at == now
            &&& row_of(s2, id).updated_at is None
        }),
{
    let rec = new_rec(id, now, data);
    let p = ins_pos(s, now);
    lemma_ins_pos_range(s, now);
    s.insert_ensures(p, rec);
    lemma_insert_keeps_wf(s, rec);
    let s2 = s.insert(p, rec);
    lemma_idx_of_unique(s2, p, id);
}

/// Deleting a row makes a subsequent read of its id find nothing.
/// (A delete of an absent id leaves the table unchanged; the delete
/// contracts state that directly.)
pub proof fn lemma_delete_then_get<D>(s: Seq<Rec<D>>, id: u128)
    requires
        unique_ids(s),
        time_ordered(s),
        has_id(s, id),
    ensures
        !has_id(s.remove(idx_of(s, id)), id),
{
    let i = idx_of(s, id);
    assert(0 <= i < s.len() && s[i].id == id);
    lemma_remove_keeps_wf(s, i);
}

/// A partial category update keeps the id, the creation time, and every
/// omitted field, and stamps the update time, which exceeds any earlier
/// stamp the clock has moved past.
pub proof fn lemma_partial_update_category(r: Rec<Category>, upd: UpdateCategory, now: i64)
    ensures
        ({
            let nr = touched(r, resolve_category(r.data, upd), now);
            &&& nr.id == r.id
            &&& nr.created_at == r.created_at
            &&& nr.updated_at == Some(now)
            &&& upd.category_name is None ==> nr.data == r.data
        }),
{
}

/// A partial product update keeps the id, the creation time, and every
/// omitted field, and stamps the update time.
pub proof fn lemma_partial_update_product(r: Rec<Product>, upd: UpdateProduct, now: i64)
    ensures
        ({
            let nr = touched(r, resolve_product(r.data, upd), now);
            &&& nr.id == r.id
            &&& nr.created_at == r.created_at
            &&& nr.updated_at == Some(now)
            &&& upd.product_name is None ==> nr.data.product_name == r.data.product_name
            &&& upd.price is None ==> nr.data.price == r.data.price
            &&& upd.category_id is None ==> nr.data.category_id == r.data.category_id
        }),
{
}

/// A partial purchase update keeps the id, the creation time, and every
/// omitted field, and stamps the update time.
pub proof fn lemma_partial_update_purchase(r: Rec<Purchase>, upd: UpdatePurchase, now: i64)
    ensures
        ({
            let nr = touched(r, resolve_purchase(r.data, upd), now);
            &&& nr.id == r.id
            &&& nr.created_at == r.created_at
            &&& nr.updated_at == Some(now)
            &&& upd.product_id is None ==> nr.data.product_id == r.data.product_id
            &&& upd.user_id is None ==> nr.data.user_id == r.data.user_id
        }),
{
}

/// A partial rating update keeps the id, the creation time, and every
/// omitted field, and stamps the update time.
pub proof fn lemma_partial_update_rating(r: Rec<Rating>, upd: UpdateRating, now: i64)
    ensures
        ({
            let nr = touched(r, resolve_rating(r.data, upd), now);
            &&& nr.id == r.id
            &&& nr.created_at == r.created_at
            &&& nr.updated_at == Some(now)
            &&& upd.rating is None ==> nr.data.rating == r.data.rating
            &&& upd.product_id is None ==> nr.data.product_id == r.data.product_id
            &&& upd.user_id is None ==> nr.data.user_id == r.data.user_id
        }),
{
}

/// A partial user update keeps the id, the creation time, and every
/// omitted field, and stamps the update time.
pub proof fn lemma_partial_update_user(r: Rec<User>, upd: UpdateUser, now: i64)
    ensures
        ({
            let nr = touched(r, resolve_user(r.data, upd), now);
            &&& nr.id == r.id
            &&& nr.created_at == r.created_at
            &&& nr.updated_at == Some(now)
            &&& upd.username is None ==> nr.data.username == r.data.username
            &&& upd.email is None ==> nr.data.email == r.data.email
        }),
{
}

/// An update stamped by a clock that has advanced past the previous
/// stamp leaves the row's update time strictly greater than it was.
pub proof fn lemma_update_time_advances<D>(r: Rec<D>, data: D, prev: i64, now: i64)
    requires
        r.updated_at == Some(prev),
        prev < now,
    ensures
        touched(r, data, now).updated_at matches Some(t) && t > prev,
{
}

} // verus!
