//! The category resource: its schema, row rendering, and the five
//! handler operations.

use vstd::prelude::*;

use crate::Response;
use crate::ident::{push_uuid, uuid_seq};
use crate::response::{
    error_body, error_response, joined, list_ok_body, list_ok_response, message_ok_body,
    message_ok_response, not_found_body, not_found_response, ok_data_body, ok_data_response,
    opt_time_seq, push_opt_time,
};
use crate::schema::{eff_limit, eff_skip, limit_count, list_opts_ok, page_of, skip_count,
    FilterOptions};
use crate::store::{not_found_msg, Store};
use crate::table::{
    has_id, idx_of, ins_pos, new_rec, row_of, touched, lemma_idx_of_unique, Rec,
};
use crate::text::{int_seq, json_escaped, push_dec_i64, push_escaped};

verus! {

broadcast use vstd::string::group_string_axioms;

/// The stored fields of a category beyond the common columns.
pub struct Category {
    pub category_name: String,
}

/// A full category row.
pub type CategoryModel = Rec<Category>;

/// The create payload.
pub struct CreateCategory {
    pub category_name: String,
}

/// The partial-update payload.
pub struct UpdateCategory {
    pub category_name: Option<String>,
}

impl Clone for Category {
    fn clone(&self) -> (r: Self)
        ensures
            r == *self,
    {
        Category { category_name: self.category_name.clone() }
    }
}

/// The fields a create payload stores.
pub open spec fn created_category(c: CreateCategory) -> Category {
    Category { category_name: c.category_name }
}

/// Partial update: a supplied field wins, an omitted field keeps the
/// current value.
pub open spec fn resolve_category(cur: Category, upd: UpdateCategory) -> Category {
    Category {
        category_name: match upd.category_name {
            Some(n) => n,
            None => cur.category_name,
        },
    }
}

/// Resolves a partial update against the current row fields.
pub fn resolve_category_update(cur: &Category, upd: &UpdateCategory) -> (r: Category)
    ensures
        r == resolve_category(*cur, *upd),
{
    match &upd.category_name {
        Some(n) => Category { category_name: n.clone() },
        None => Category { category_name: cur.category_name.clone() },
    }
}

/// The JSON rendering of a category row.
pub open spec fn category_json(r: Rec<Category>) -> Seq<char> {
    "{\"id\":\""@ + uuid_seq(r.id) + "\",\"category_name\":\""@ + json_escaped(
        r.data.category_name@,
    ) + "\",\"created_at\":"@ + int_seq(r.created_at as int) + ",\"updated_at\":"@ + opt_time_seq(
        r.updated_at,
    ) + "}"@
}

/// Appends the JSON rendering of a category row.
pub fn push_category_json(out: &mut String, r: &Rec<Category>)
    ensures
        final(out)@ == old(out)@ + category_json(*r),
{
    out.append("{\"id\":\"");
    push_uuid(out, r.id);
    out.append("\",\"category_name\":\"");
    push_escaped(out, r.data.category_name.as_str());
    out.append("\",\"created_at\":");
    push_dec_i64(out, r.created_at);
    out.append(",\"updated_at\":");
    push_opt_time(out, &r.updated_at);
    out.append("}");
}

/// The row renderer, as a function value for the list specification.
pub open spec fn category_json_fn() -> spec_fn(Rec<Category>) -> Seq<char> {
    |r: Rec<Category>| category_json(r)
}

/// What a category list call returns: the page in newest-first order,
/// skipping one row per page index step, with the total row count.
pub open spec fn categories_list_body(
    s: Seq<Rec<Category>>,
    limit: Option<usize>,
    offset: Option<usize>,
) -> Seq<char> {
    list_ok_body(
        s.len(),
        joined(
            page_of(s.reverse(), eff_skip(offset, 1), eff_limit(limit)),
            category_json_fn(),
        ),
    )
}

/// Lists categories, newest first, with the page window applied and the
/// total count alongside.
pub fn get_categories(store: &Store, opts: &FilterOptions) -> (r: Response)
    requires
        store.wf(),
        list_opts_ok(opts.limit, opts.offset, true),
    ensures
        r.status == 200,
        r.body@ == categories_list_body(store.categories.rows@, opts.limit, opts.offset),
{
    let total = store.categories.len();
    let limit = limit_count(&opts.limit);
    let skip = skip_count(&opts.limit, &opts.offset, true);
    let ghost rev = store.categories.rows@.reverse();
    let ghost f = category_json_fn();
    let mut items = String::new();
    if skip < total {
        let end: usize = if limit < total - skip {
            skip + limit
        } else {
            total
        };
        let mut k: usize = skip;
        while k < end
            invariant
                skip <= k <= end <= total,
                total == store.categories.rows@.len(),
                rev == store.categories.rows@.reverse(),
                f == category_json_fn(),
                items@ == joined(rev.subrange(skip as int, k as int), f),
            decreases end - k,
        {
            proof {
                reveal_strlit(",");
            }
            let idx = total - 1 - k;
            if k > skip {
                items.append(",");
            }
            push_category_json(&mut items, &store.categories.rows[idx]);
            proof {
                assert(rev[k as int] == store.categories.rows@[idx as int]);
                assert(rev.subrange(skip as int, k + 1 as int) =~= rev.subrange(
                    skip as int,
                    k as int,
                ).push(rev[k as int]));
                crate::response::lemma_joined_push(
                    rev.subrange(skip as int, k as int),
                    f,
                    rev[k as int],
                );
                assert(items@ =~= joined(rev.subrange(skip as int, k + 1 as int), f));
            }
            k = k + 1;
        }
        proof {
            assert(rev.subrange(skip as int, end as int) =~= page_of(
                rev,
                skip as int,
                limit as int,
            ));
        }
    } else {
        proof {
            assert(page_of(rev, skip as int, limit as int) =~= Seq::<Rec<Category>>::empty());
        }
    }
    list_ok_response(total as u64, items.as_str())
}

/// What a category create call does: a duplicate id is refused with an
/// error envelope and no change; otherwise the row is stored at its
/// creation-time position and returned.
pub open spec fn create_category_post(
    pre: Store,
    post: Store,
    r: Response,
    id: u128,
    body: CreateCategory,
    now: i64,
) -> bool {
    let s = pre.categories.rows@;
    if has_id(s, id) {
        &&& post == pre
        &&& r.status == 500
        &&& r.body@ == error_body(crate::store::duplicate_id_msg())
    } else {
        let rec = new_rec(id, now, created_category(body));
        &&& post.categories.rows@ == s.insert(ins_pos(s, now), rec)
        &&& post.products == pre.products
        &&& post.purchases == pre.purchases
        &&& post.ratings == pre.ratings
        &&& post.users == pre.users
        &&& r.status == 200
        &&& r.body@ == ok_data_body(category_json(rec))
    }
}

/// Creates a category with the given fresh id at the given time.
pub fn create_category_at(store: &mut Store, id: u128, now: i64, body: &CreateCategory) -> (r:
    Response)
    requires
        old(store).wf(),
    ensures
        final(store).wf(),
        create_category_post(*old(store), *final(store), r, id, *body, now),
{
    if store.categories.contains_id(id) {
        return error_response("duplicate id");
    }
    let rec = Rec {
        id,
        created_at: now,
        updated_at: None,
        data: Category { category_name: body.category_name.clone() },
    };
    let mut data = String::new();
    push_category_json(&mut data, &rec);
    let resp = ok_data_response(data.as_str());
    store.categories.insert_rec(rec);
    resp
}

/// Creates a category with a fresh id, stamped with the current time.
pub fn create_category(store: &mut Store, id: u128, body: &CreateCategory) -> (r: Response)
    requires
        old(store).wf(),
    ensures
        final(store).wf(),
        exists|now: i64| create_category_post(*old(store), *final(store), r, id, *body, now),
{
    let now = crate::clock::current_micros();
    let r = create_category_at(store, id, now, body);
    proof {
        assert(create_category_post(*old(store), *store, r, id, *body, now));
    }
    r
}

/// What a category read returns: the row, or an error envelope where the
/// id matches nothing.
pub open spec fn get_category_post(s: Seq<Rec<Category>>, r: Response, id: u128) -> bool {
    if has_id(s, id) {
        &&& r.status == 200
        &&& r.body@ == ok_data_body(category_json(row_of(s, id)))
    } else {
        &&& r.status == 500
        &&& r.body@ == error_body(not_found_msg())
    }
}

/// Reads one category by id.
pub fn get_category(store: &Store, id: u128) -> (r: Response)
    requires
        store.wf(),
    ensures
        get_category_post(store.categories.rows@, r, id),
{
    match store.categories.find(id) {
        Some(i) => {
            proof {
                lemma_idx_of_unique(store.categories.rows@, i as int, id);
            }
            let mut data = String::new();
            push_category_json(&mut data, &store.categories.rows[i]);
            ok_data_response(data.as_str())
        },
        None => error_response("record not found"),
    }
}

/// What a category update does: a missing row is an error envelope and
/// no change; otherwise supplied fields replace stored ones, the rest
/// keep their values, and the update time is stamped.
pub open spec fn update_category_post(
    pre: Store,
    post: Store,
    r: Response,
    id: u128,
    upd: UpdateCategory,
    now: i64,
) -> bool {
    let s = pre.categories.rows@;
    if !has_id(s, id) {
        &&& post == pre
        &&& r.status == 500
        &&& r.body@ == error_body(not_found_msg())
    } else {
        let i = idx_of(s, id);
        let nr = touched(s[i], resolve_category(s[i].data, upd), now);
        &&& post.categories.rows@ == s.update(i, nr)
        &&& post.products == pre.products
        &&& post.purchases == pre.purchases
        &&& post.ratings == pre.ratings
        &&& post.users == pre.users
        &&& r.status == 200
        &&& r.body@ == ok_data_body(category_json(nr))
    }
}

/// Applies a partial update to a category at the given time.
pub fn update_category_at(store: &mut Store, id: u128, body: &UpdateCategory, now: i64) -> (r:
    Response)
    requires
        old(store).wf(),
    ensures
        final(store).wf(),
        update_category_post(*old(store), *final(store), r, id, *body, now),
{
    let i = match store.categories.find(id) {
        Some(i) => i,
        None => {
            return error_response("record not found");
        },
    };
    proof {
        lemma_idx_of_unique(store.categories.rows@, i as int, id);
    }
    let resolved = resolve_category_update(&store.categories.rows[i].data, body);
    store.categories.update_rec(i, resolved, now);
    let mut data = String::new();
    push_category_json(&mut data, &store.categories.rows[i]);
    ok_data_response(data.as_str())
}

/// Applies a partial update to a category, stamped with the current time.
pub fn update_category(store: &mut Store, id: u128, body: &UpdateCategory) -> (r: Response)
    requires
        old(store).wf(),
    ensures
        final(store).wf(),
        exists|now: i64| update_category_post(*old(store), *final(store), r, id, *body, now),
{
    let now = crate::clock::current_micros();
    let r = update_category_at(store, id, body, now);
    proof {
        assert(update_category_post(*old(store), *store, r, id, *body, now));
    }
    r
}

/// The not-found message of a category delete.
pub open spec fn no_category_msg(id: u128) -> Seq<char> {
    "There is no category with ID: "@ + uuid_seq(id)
}

/// The confirmation message of a category delete.
pub open spec fn category_removed_msg(id: u128) -> Seq<char> {
    "Category removed with ID: "@ + uuid_seq(id)
}

/// What a category delete does: a missing row is a 404 envelope; a row
/// still referenced by a product is an error envelope and no change;
/// otherwise the row is removed and the delete confirmed.
pub open spec fn delete_category_post(pre: Store, post: Store, r: Response, id: u128) -> bool {
    let s = pre.categories.rows@;
    if !has_id(s, id) {
        &&& post == pre
        &&& r.status == 404
        &&& r.body@ == not_found_body(no_category_msg(id))
    } else if crate::products::category_referenced(pre.products.rows@, id) {
        &&& post == pre
        &&& r.status == 500
        &&& r.body@ == error_body(crate::store::still_referenced_msg())
    } else {
        &&& post.categories.rows@ == s.remove(idx_of(s, id))
        &&& post.products == pre.products
        &&& post.purchases == pre.purchases
        &&& post.ratings == pre.ratings
        &&& post.users == pre.users
        &&& r.status == 200
        &&& r.body@ == message_ok_body(category_removed_msg(id))
    }
}

/// Deletes one category by id.
pub fn delete_category(store: &mut Store, id: u128) -> (r: Response)
    requires
        old(store).wf(),
    ensures
        final(store).wf(),
        delete_category_post(*old(store), *final(store), r, id),
{
    if !store.categories.contains_id(id) {
        let mut msg = "There is no category with ID: ".to_owned();
        push_uuid(&mut msg, id);
        return not_found_response(msg.as_str());
    }
    if crate::products::any_product_with_category(&store.products, id) {
        return error_response("row is still referenced");
    }
    let mut msg = "Category removed with ID: ".to_owned();
    push_uuid(&mut msg, id);
    store.categories.remove_id(id);
    message_ok_response(msg.as_str())
}

} // verus!
