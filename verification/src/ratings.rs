//! The rating resource: a product/user join entity with a score, its
//! schema, row rendering, and the five handler operations.

use vstd::prelude::*;

use crate::Response;
use crate::ident::{push_uuid, uuid_seq};
use crate::response::{
    error_body, error_response, joined, list_ok_body, list_ok_response, message_ok_body,
    message_ok_response, ok_data_body, ok_data_response, opt_time_seq, push_opt_time,
};
use crate::schema::{eff_limit, eff_skip, limit_count, list_opts_ok, page_of, skip_count};
use crate::store::{not_found_msg, Store};
use crate::table::{
    has_id, idx_of, ins_pos, lemma_idx_of_unique, lemma_matching_push, matching, new_rec, row_of,
    touched, Rec, Table,
};
use crate::text::{int_seq, push_dec_i64};

verus! {

broadcast use vstd::string::group_string_axioms;

/// The stored fields of a rating beyond the common columns.
#[derive(Clone, Copy)]
pub struct Rating {
    pub rating: i32,
    pub product_id: u128,
    pub user_id: u128,
}

/// A full rating row.
pub type RatingModel = Rec<Rating>;

/// The create payload.
pub struct CreateRating {
    pub rating: i32,
    pub product_id: u128,
    pub user_id: u128,
}

/// The partial-update payload.
pub struct UpdateRating {
    pub rating: Option<i32>,
    pub product_id: Option<u128>,
    pub user_id: Option<u128>,
}

/// Pagination options plus the optional equality filters on the product
/// and the user.
pub struct RatingFilterOptions {
    pub limit: Option<usize>,
    pub offset: Option<usize>,
    pub product_id: Option<u128>,
    pub user_id: Option<u128>,
}

/// The fields a create payload stores.
pub open spec fn created_rating(c: CreateRating) -> Rating {
    Rating { rating: c.rating, product_id: c.product_id, user_id: c.user_id }
}

/// Partial update: a supplied field wins, an omitted field keeps the
/// current value.
pub open spec fn resolve_rating(cur: Rating, upd: UpdateRating) -> Rating {
    Rating {
        rating: match upd.rating {
            Some(v) => v,
            None => cur.rating,
        },
        product_id: match upd.product_id {
            Some(p) => p,
            None => cur.product_id,
        },
        user_id: match upd.user_id {
            Some(u) => u,
            None => cur.user_id,
        },
    }
}

/// Resolves a partial update against the current row fields.
pub fn resolve_rating_update(cur: &Rating, upd: &UpdateRating) -> (r: Rating)
    ensures
        r == resolve_rating(*cur, *upd),
{
    let rating = match &upd.rating {
        Some(v) => *v,
        None => cur.rating,
    };
    let product_id = match &upd.product_id {
        Some(p) => *p,
        None => cur.product_id,
    };
    let user_id = match &upd.user_id {
        Some(u) => *u,
        None => cur.user_id,
    };
    Rating { rating, product_id, user_id }
}

/// The JSON rendering of a rating row.
pub open spec fn rating_json(r: Rec<Rating>) -> Seq<char> {
    "{\"id\":\""@ + uuid_seq(r.id) + "\",\"rating\":"@ + int_seq(r.data.rating as int)
        + ",\"product_id\":\""@ + uuid_seq(r.data.product_id) + "\",\"user_id\":\""@ + uuid_seq(
        r.data.user_id,
    ) + "\",\"created_at\":"@ + int_seq(r.created_at as int) + ",\"updated_at\":"@ + opt_time_seq(
        r.updated_at,
    ) + "}"@
}

/// Appends the JSON rendering of a rating row.
pub fn push_rating_json(out: &mut String, r: &Rec<Rating>)
    ensures
        final(out)@ == old(out)@ + rating_json(*r),
{
    out.append("{\"id\":\"");
    push_uuid(out, r.id);
    out.append("\",\"rating\":");
    push_dec_i64(out, r.data.rating as i64);
    out.append(",\"product_id\":\"");
    push_uuid(out, r.data.product_id);
    out.append("\",\"user_id\":\"");
    push_uuid(out, r.data.user_id);
    out.append("\",\"created_at\":");
    push_dec_i64(out, r.created_at);
    out.append(",\"updated_at\":");
    push_opt_time(out, &r.updated_at);
    out.append("}");
}

/// Whether any rating row references product `id`.
pub open spec fn rating_refs_product(s: Seq<Rec<Rating>>, id: u128) -> bool {
    exists|i: int| 0 <= i < s.len() && s[i].data.product_id == id
}

/// Whether any rating row references user `id`.
pub open spec fn rating_refs_user(s: Seq<Rec<Rating>>, id: u128) -> bool {
    exists|i: int| 0 <= i < s.len() && s[i].data.user_id == id
}

/// Scans for a rating row referencing product `id`.
pub fn any_rating_with_product(t: &Table<Rating>, id: u128) -> (r: bool)
    ensures
        r == rating_refs_product(t.rows@, id),
{
    let n = t.rows.len();
    let mut i: usize = 0;
    while i < n
        invariant
            i <= n,
            n == t.rows@.len(),
            forall|k: int| 0 <= k < i ==> t.rows@[k].data.product_id != id,
        decreases n - i,
    {
        if t.rows[i].data.product_id == id {
            proof {
                assert(rating_refs_product(t.rows@, id));
            }
            return true;
        }
        i = i + 1;
    }
    false
}

/// Scans for a rating row referencing user `id`.
pub fn any_rating_with_user(t: &Table<Rating>, id: u128) -> (r: bool)
    ensures
        r == rating_refs_user(t.rows@, id),
{
    let n = t.rows.len();
    let mut i: usize = 0;
    while i < n
        invariant
            i <= n,
            n == t.rows@.len(),
            forall|k: int| 0 <= k < i ==> t.rows@[k].data.user_id != id,
        decreases n - i,
    {
        if t.rows[i].data.user_id == id {
            proof {
                assert(rating_refs_user(t.rows@, id));
            }
            return true;
        }
        i = i + 1;
    }
    false
}


/// Whether a row passes the optional product and user filters.
pub open spec fn rating_matches(r: Rec<Rating>, product: Option<u128>, user: Option<u128>) -> bool {
    &&& match product {
        None => true,
        Some(p) => r.data.product_id == p,
    }
    &&& match user {
        None => true,
        Some(u) => r.data.user_id == u,
    }
}

/// The filters, as a function value for the list specification.
pub open spec fn rating_filter_fn(product: Option<u128>, user: Option<u128>) -> spec_fn(
    Rec<Rating>,
) -> bool {
    |r: Rec<Rating>| rating_matches(r, product, user)
}

/// The row renderer, as a function value for the list specification.
pub open spec fn rating_json_fn() -> spec_fn(Rec<Rating>) -> Seq<char> {
    |r: Rec<Rating>| rating_json(r)
}

/// What a rating list call returns: the filtered rows in oldest-first
/// order, the page window skipping `limit` rows per page index step,
/// with the filtered row count.
pub open spec fn ratings_list_body(
    s: Seq<Rec<Rating>>,
    limit: Option<usize>,
    offset: Option<usize>,
    product: Option<u128>,
    user: Option<u128>,
) -> Seq<char> {
    let m = matching(s, rating_filter_fn(product, user));
    list_ok_body(
        m.len(),
        joined(page_of(m, eff_skip(offset, eff_limit(limit)), eff_limit(limit)), rating_json_fn()),
    )
}

/// Lists ratings, oldest first, restricted to the product and user
/// filters when supplied, with the page window applied and the filtered
/// count alongside.
pub fn get_ratings(store: &Store, opts: &RatingFilterOptions) -> (r: Response)
    requires
        store.wf(),
        list_opts_ok(opts.limit, opts.offset, false),
    ensures
        r.status == 200,
        r.body@ == ratings_list_body(
            store.ratings.rows@,
            opts.limit,
            opts.offset,
            opts.product_id,
            opts.user_id,
        ),
{
    let rows = &store.ratings.rows;
    let total = rows.len();
    let ghost pf = rating_filter_fn(opts.product_id, opts.user_id);
    let ghost f = rating_json_fn();
    let mut idxs: Vec<usize> = Vec::new();
    let mut i: usize = 0;
    while i < total
        invariant
            i <= total,
            total == rows@.len(),
            pf == rating_filter_fn(opts.product_id, opts.user_id),
            idxs@.len() == matching(rows@.take(i as int), pf).len(),
            forall|k: int|
                0 <= k < idxs@.len() ==> (#[trigger] idxs@[k]) < i && rows@[idxs@[k] as int]
                    == matching(rows@.take(i as int), pf)[k],
        decreases total - i,
    {
        let product_ok = match &opts.product_id {
            None => true,
            Some(p) => rows[i].data.product_id == *p,
        };
        let user_ok = match &opts.user_id {
            None => true,
            Some(u) => rows[i].data.user_id == *u,
        };
        let is_match = product_ok && user_ok;
        proof {
            assert(rows@.take(i + 1 as int) =~= rows@.take(i as int).push(rows@[i as int]));
            lemma_matching_push(rows@.take(i as int), pf, rows@[i as int]);
            assert(is_match == pf(rows@[i as int]));
        }
        if is_match {
            idxs.push(i);
        }
        i = i + 1;
    }
    proof {
        assert(rows@.take(total as int) =~= rows@);
    }
    let ghost m = matching(rows@, pf);
    let count = idxs.len();
    let limit = limit_count(&opts.limit);
    let skip = skip_count(&opts.limit, &opts.offset, false);
    let mut items = String::new();
    if skip < count {
        let end: usize = if limit < count - skip {
            skip + limit
        } else {
            count
        };
        let mut k: usize = skip;
        while k < end
            invariant
                skip <= k <= end <= count,
                count == m.len(),
                m == matching(rows@, pf),
                f == rating_json_fn(),
                total == rows@.len(),
                idxs@.len() == count,
                forall|k2: int|
                    0 <= k2 < count ==> (#[trigger] idxs@[k2]) < total && rows@[idxs@[k2] as int]
                        == m[k2],
                items@ == joined(m.subrange(skip as int, k as int), f),
            decreases end - k,
        {
            proof {
                reveal_strlit(",");
            }
            if k > skip {
                items.append(",");
            }
            let idx = idxs[k];
            push_rating_json(&mut items, &rows[idx]);
            proof {
                assert(m.subrange(skip as int, k + 1 as int) =~= m.subrange(
                    skip as int,
                    k as int,
                ).push(m[k as int]));
                crate::response::lemma_joined_push(m.subrange(skip as int, k as int), f, m[k as int]);
                assert(items@ =~= joined(m.subrange(skip as int, k + 1 as int), f));
            }
            k = k + 1;
        }
        proof {
            assert(m.subrange(skip as int, end as int) =~= page_of(m, skip as int, limit as int));
        }
    } else {
        proof {
            assert(page_of(m, skip as int, limit as int) =~= Seq::<Rec<Rating>>::empty());
        }
    }
    list_ok_response(count as u64, items.as_str())
}

/// What a rating create call does: a duplicate id, or a product or user
/// id that references no row, is refused with an error envelope and no
/// change; otherwise the row is stored at its creation-time position and
/// returned.
pub open spec fn create_rating_post(
    pre: Store,
    post: Store,
    r: Response,
    id: u128,
    body: CreateRating,
    now: i64,
) -> bool {
    let s = pre.ratings.rows@;
    if has_id(s, id) {
        &&& post == pre
        &&& r.status == 500
        &&& r.body@ == error_body(crate::store::duplicate_id_msg())
    } else if !has_id(pre.products.rows@, body.product_id) || !has_id(
        pre.users.rows@,
        body.user_id,
    ) {
        &&& post == pre
        &&& r.status == 500
        &&& r.body@ == error_body(crate::store::fk_violation_msg())
    } else {
        let rec = new_rec(id, now, created_rating(body));
        &&& post.ratings.rows@ == s.insert(ins_pos(s, now), rec)
        &&& post.categories == pre.categories
        &&& post.products == pre.products
        &&& post.users == pre.users
        &&& post.purchases == pre.purchases
        &&& r.status == 200
        &&& r.body@ == ok_data_body(rating_json(rec))
    }
}

/// Creates a rating with the given fresh id at the given time.
pub fn create_rating_at(store: &mut Store, id: u128, now: i64, body: &CreateRating) -> (r: Response)
    requires
        old(store).wf(),
    ensures
        final(store).wf(),
        create_rating_post(*old(store), *final(store), r, id, *body, now),
{
    if store.ratings.contains_id(id) {
        return error_response("duplicate id");
    }
    if !store.products.contains_id(body.product_id) {
        return error_response("foreign key violation");
    }
    if !store.users.contains_id(body.user_id) {
        return error_response("foreign key violation");
    }
    let rec = Rec { id, created_at: now, updated_at: None, data: Rating { rating: body.rating, product_id: body.product_id, user_id: body.user_id } };
    let mut data = String::new();
    push_rating_json(&mut data, &rec);
    let resp = ok_data_response(data.as_str());
    let ghost s = store.ratings.rows@;
    let ghost grec = rec;
    store.ratings.insert_rec(rec);
    proof {
        let p = ins_pos(s, now);
        crate::table::lemma_ins_pos_range(s, now);
        s.insert_ensures(p, grec);
        assert forall|i: int| 0 <= i < store.ratings.rows@.len() implies has_id(
            store.products.rows@,
            (#[trigger] store.ratings.rows@[i]).data.product_id,
        ) && has_id(store.users.rows@, store.ratings.rows@[i].data.user_id) by {
            if i < p {
                assert(store.ratings.rows@[i] == s[i]);
            } else if i > p {
                assert(store.ratings.rows@[i] == s[i - 1]);
            }
        }
    }
    resp
}

/// Creates a rating with a fresh id, stamped with the current time.
pub fn create_rating(store: &mut Store, id: u128, body: &CreateRating) -> (r: Response)
    requires
        old(store).wf(),
    ensures
        final(store).wf(),
        exists|now: i64| create_rating_post(*old(store), *final(store), r, id, *body, now),
{
    let now = crate::clock::current_micros();
    let r = create_rating_at(store, id, now, body);
    proof {
        assert(create_rating_post(*old(store), *store, r, id, *body, now));
    }
    r
}

/// What a rating read returns: the row, or an error envelope where the
/// id matches nothing.
pub open spec fn get_rating_post(s: Seq<Rec<Rating>>, r: Response, id: u128) -> bool {
    if has_id(s, id) {
        &&& r.status == 200
        &&& r.body@ == ok_data_body(rating_json(row_of(s, id)))
    } else {
        &&& r.status == 500
        &&& r.body@ == error_body(not_found_msg())
    }
}

/// Reads one rating by id.
pub fn get_rating(store: &Store, id: u128) -> (r: Response)
    requires
        store.wf(),
    ensures
        get_rating_post(store.ratings.rows@, r, id),
{
    match store.ratings.find(id) {
        Some(i) => {
            proof {
                lemma_idx_of_unique(store.ratings.rows@, i as int, id);
            }
            let mut data = String::new();
            push_rating_json(&mut data, &store.ratings.rows[i]);
            ok_data_response(data.as_str())
        },
        None => error_response("record not found"),
    }
}

/// What a rating update does: a missing row is an error envelope; a
/// resolved product or user id that references no row is an error
/// envelope and no change; otherwise supplied fields replace stored
/// ones, the rest keep their values, and the update time is stamped.
pub open spec fn update_rating_post(
    pre: Store,
    post: Store,
    r: Response,
    id: u128,
    upd: UpdateRating,
    now: i64,
) -> bool {
    let s = pre.ratings.rows@;
    if !has_id(s, id) {
        &&& post == pre
        &&& r.status == 500
        &&& r.body@ == error_body(not_found_msg())
    } else {
        let i = idx_of(s, id);
        let d = resolve_rating(s[i].data, upd);
        if !has_id(pre.products.rows@, d.product_id) || !has_id(pre.users.rows@, d.user_id) {
            &&& post == pre
            &&& r.status == 500
            &&& r.body@ == error_body(crate::store::fk_violation_msg())
        } else {
            let nr = touched(s[i], d, now);
            &&& post.ratings.rows@ == s.update(i, nr)
            &&& post.categories == pre.categories
        &&& post.products == pre.products
        &&& post.users == pre.users
        &&& post.purchases == pre.purchases
            &&& r.status == 200
            &&& r.body@ == ok_data_body(rating_json(nr))
        }
    }
}

/// Applies a partial update to a rating at the given time.
pub fn update_rating_at(store: &mut Store, id: u128, body: &UpdateRating, now: i64) -> (r: Response)
    requires
        old(store).wf(),
    ensures
        final(store).wf(),
        update_rating_post(*old(store), *final(store), r, id, *body, now),
{
    let i = match store.ratings.find(id) {
        Some(i) => i,
        None => {
            return error_response("record not found");
        },
    };
    proof {
        lemma_idx_of_unique(store.ratings.rows@, i as int, id);
    }
    let resolved = resolve_rating_update(&store.ratings.rows[i].data, body);
    if !store.products.contains_id(resolved.product_id) {
        return error_response("foreign key violation");
    }
    if !store.users.contains_id(resolved.user_id) {
        return error_response("foreign key violation");
    }
    store.ratings.update_rec(i, resolved, now);
    let mut data = String::new();
    push_rating_json(&mut data, &store.ratings.rows[i]);
    ok_data_response(data.as_str())
}

/// Applies a partial update to a rating, stamped with the current time.
pub fn update_rating(store: &mut Store, id: u128, body: &UpdateRating) -> (r: Response)
    requires
        old(store).wf(),
    ensures
        final(store).wf(),
        exists|now: i64| update_rating_post(*old(store), *final(store), r, id, *body, now),
{
    let now = crate::clock::current_micros();
    let r = update_rating_at(store, id, body, now);
    proof {
        assert(update_rating_post(*old(store), *store, r, id, *body, now));
    }
    r
}

/// The not-found message of a rating delete.
pub open spec fn no_rating_msg(id: u128) -> Seq<char> {
    "No results found with ID: "@ + uuid_seq(id)
}

/// What a rating delete does: a missing row is an error envelope;
/// otherwise the row is removed and the delete confirmed.
pub open spec fn delete_rating_post(pre: Store, post: Store, r: Response, id: u128) -> bool {
    let s = pre.ratings.rows@;
    if !has_id(s, id) {
        &&& post == pre
        &&& r.status == 500
        &&& r.body@ == error_body(no_rating_msg(id))
    } else {
        &&& post.ratings.rows@ == s.remove(idx_of(s, id))
        &&& post.categories == pre.categories
        &&& post.products == pre.products
        &&& post.users == pre.users
        &&& post.purchases == pre.purchases
        &&& r.status == 200
        &&& r.body@ == message_ok_body("successfully deleted"@)
    }
}

/// Deletes one rating by id.
pub fn delete_rating(store: &mut Store, id: u128) -> (r: Response)
    requires
        old(store).wf(),
    ensures
        final(store).wf(),
        delete_rating_post(*old(store), *final(store), r, id),
{
    if !store.ratings.contains_id(id) {
        let mut msg = "No results found with ID: ".to_owned();
        push_uuid(&mut msg, id);
        return error_response(msg.as_str());
    }
    let ghost s = store.ratings.rows@;
    store.ratings.remove_id(id);
    proof {
        let ix = idx_of(s, id);
        s.remove_ensures(ix);
        assert forall|i: int| 0 <= i < store.ratings.rows@.len() implies has_id(
            store.products.rows@,
            (#[trigger] store.ratings.rows@[i]).data.product_id,
        ) && has_id(store.users.rows@, store.ratings.rows@[i].data.user_id) by {
            if i < ix {
                assert(store.ratings.rows@[i] == s[i]);
            } else {
                assert(store.ratings.rows@[i] == s[i + 1]);
            }
        }
    }
    message_ok_response("successfully deleted")
}

} // verus!
