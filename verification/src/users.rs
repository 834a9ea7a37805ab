//! The user resource: its schema, row rendering, and the five handler
//! operations.
//!
//! A missing `email` on create is stored as the empty string, so a stored
//! row always carries a string value for it.

use vstd::prelude::*;

use crate::Response;
use crate::ident::{push_uuid, uuid_seq};
use crate::response::{
    error_body, error_response, joined, list_ok_body, list_ok_response, message_ok_body,
    message_ok_response, not_found_body, not_found_response, ok_data_body, ok_data_response,
    opt_time_seq, push_opt_time,
};
use crate::schema::{eff_limit, eff_skip, limit_count, list_opts_ok, page_of, skip_count,
    FilterOptions};
use crate::store::{not_found_msg, Store};
use crate::table::{
    has_id, idx_of, ins_pos, new_rec, row_of, touched, lemma_idx_of_unique, Rec,
};
use crate::text::{int_seq, json_escaped, push_dec_i64, push_escaped};

verus! {

broadcast use vstd::string::group_string_axioms;

/// The stored fields of a user beyond the common columns.
pub struct User {
    pub username: String,
    pub email: String,
}

/// A full user row.
pub type UserModel = Rec<User>;

/// The create payload; a missing email is stored as the empty string.
pub struct CreateUser {
    pub username: String,
    pub email: Option<String>,
}

/// The partial-update payload.
pub struct UpdateUser {
    pub username: Option<String>,
    pub email: Option<String>,
}

impl Clone for User {
    fn clone(&self) -> (r: Self)
        ensures
            r == *self,
    {
        User { username: self.username.clone(), email: self.email.clone() }
    }
}

/// Partial update: a supplied field wins, an omitted field keeps the
/// current value.
pub open spec fn resolve_user(cur: User, upd: UpdateUser) -> User {
    User {
        username: match upd.username {
            Some(n) => n,
            None => cur.username,
        },
        email: match upd.email {
            Some(e) => e,
            None => cur.email,
        },
    }
}

/// Resolves a partial update against the current row fields.
pub fn resolve_user_update(cur: &User, upd: &UpdateUser) -> (r: User)
    ensures
        r == resolve_user(*cur, *upd),
{
    let username = match &upd.username {
        Some(n) => n.clone(),
        None => cur.username.clone(),
    };
    let email = match &upd.email {
        Some(e) => e.clone(),
        None => cur.email.clone(),
    };
    User { username, email }
}

/// The fields a create payload stores, given the supplied email or one
/// with nothing in it.
pub open spec fn created_user(c: CreateUser, email: String) -> User {
    User { username: c.username, email }
}

/// Whether `email` is what a create payload stores: the supplied value,
/// or an empty string where none was supplied.
pub open spec fn create_email_ok(c: CreateUser, email: String) -> bool {
    match c.email {
        Some(e) => email == e,
        None => email@ == Seq::<char>::empty(),
    }
}

/// The stored email for a create payload.
pub fn create_email(c: &CreateUser) -> (r: String)
    ensures
        create_email_ok(*c, r),
{
    match &c.email {
        Some(e) => e.clone(),
        None => String::new(),
    }
}

/// The JSON rendering of a user row.
pub open spec fn user_json(r: Rec<User>) -> Seq<char> {
    "{\"id\":\""@ + uuid_seq(r.id) + "\",\"username\":\""@ + json_escaped(r.data.username@)
        + "\",\"email\":\""@ + json_escaped(r.data.email@) + "\",\"created_at\":"@ + int_seq(
        r.created_at as int,
    ) + ",\"updated_at\":"@ + opt_time_seq(r.updated_at) + "}"@
}

/// Appends the JSON rendering of a user row.
pub fn push_user_json(out: &mut String, r: &Rec<User>)
    ensures
        final(out)@ == old(out)@ + user_json(*r),
{
    out.append("{\"id\":\"");
    push_uuid(out, r.id);
    out.append("\",\"username\":\"");
    push_escaped(out, r.data.username.as_str());
    out.append("\",\"email\":\"");
    push_escaped(out, r.data.email.as_str());
    out.append("\",\"created_at\":");
    push_dec_i64(out, r.created_at);
    out.append(",\"updated_at\":");
    push_opt_time(out, &r.updated_at);
    out.append("}");
}


/// The row renderer, as a function value for the list specification.
pub open spec fn user_json_fn() -> spec_fn(Rec<User>) -> Seq<char> {
    |r: Rec<User>| user_json(r)
}

/// What a user list call returns: the page in newest-first order,
/// skipping one row per page index step, with the total row count.
pub open spec fn users_list_body(
    s: Seq<Rec<User>>,
    limit: Option<usize>,
    offset: Option<usize>,
) -> Seq<char> {
    list_ok_body(
        s.len(),
        joined(page_of(s.reverse(), eff_skip(offset, 1), eff_limit(limit)), user_json_fn()),
    )
}

/// Lists users, newest first, with the page window applied and the total
/// count alongside.
pub fn get_users(store: &Store, opts: &FilterOptions) -> (r: Response)
    requires
        store.wf(),
        list_opts_ok(opts.limit, opts.offset, true),
    ensures
        r.status == 200,
        r.body@ == users_list_body(store.users.rows@, opts.limit, opts.offset),
{
    let total = store.users.len();
    let limit = limit_count(&opts.limit);
    let skip = skip_count(&opts.limit, &opts.offset, true);
    let ghost rev = store.users.rows@.reverse();
    let ghost f = user_json_fn();
    let mut items = String::new();
    if skip < total {
        let end: usize = if limit < total - skip {
            skip + limit
        } else {
            total
        };
        let mut k: usize = skip;
        while k < end
            invariant
                skip <= k <= end <= total,
                total == store.users.rows@.len(),
                rev == store.users.rows@.reverse(),
                f == user_json_fn(),
                items@ == joined(rev.subrange(skip as int, k as int), f),
            decreases end - k,
        {
            proof {
                reveal_strlit(",");
            }
            let idx = total - 1 - k;
            if k > skip {
                items.append(",");
            }
            push_user_json(&mut items, &store.users.rows[idx]);
            proof {
                assert(rev[k as int] == store.users.rows@[idx as int]);
                assert(rev.subrange(skip as int, k + 1 as int) =~= rev.subrange(
                    skip as int,
                    k as int,
                ).push(rev[k as int]));
                crate::response::lemma_joined_push(
                    rev.subrange(skip as int, k as int),
                    f,
                    rev[k as int],
                );
                assert(items@ =~= joined(rev.subrange(skip as int, k + 1 as int), f));
            }
            k = k + 1;
        }
        proof {
            assert(rev.subrange(skip as int, end as int) =~= page_of(
                rev,
                skip as int,
                limit as int,
            ));
        }
    } else {
        proof {
            assert(page_of(rev, skip as int, limit as int) =~= Seq::<Rec<User>>::empty());
        }
    }
    list_ok_response(total as u64, items.as_str())
}

/// What a user create call does: a duplicate id is refused with an error
/// envelope and no change; otherwise the row is stored at its
/// creation-time position and returned, a missing email as the empty
/// string.
pub open spec fn create_user_post(
    pre: Store,
    post: Store,
    r: Response,
    id: u128,
    body: CreateUser,
    now: i64,
) -> bool {
    let s = pre.users.rows@;
    if has_id(s, id) {
        &&& post == pre
        &&& r.status == 500
        &&& r.body@ == error_body(crate::store::duplicate_id_msg())
    } else {
        exists|em: String|
            {
                let rec = new_rec(id, now, created_user(body, em));
                &&& #[trigger] create_email_ok(body, em)
                &&& post.users.rows@ == s.insert(ins_pos(s, now), rec)
                &&& post.categories == pre.categories
                &&& post.products == pre.products
                &&& post.purchases == pre.purchases
                &&& post.ratings == pre.ratings
                &&& r.status == 200
                &&& r.body@ == ok_data_body(user_json(rec))
            }
    }
}

/// Creates a user with the given fresh id at the given time.
pub fn create_user_at(store: &mut Store, id: u128, now: i64, body: &CreateUser) -> (r: Response)
    requires
        old(store).wf(),
    ensures
        final(store).wf(),
        create_user_post(*old(store), *final(store), r, id, *body, now),
{
    if store.users.contains_id(id) {
        return error_response("duplicate id");
    }
    let em = create_email(body);
    let ghost emg = em;
    let rec = Rec {
        id,
        created_at: now,
        updated_at: None,
        data: User { username: body.username.clone(), email: em },
    };
    let mut data = String::new();
    push_user_json(&mut data, &rec);
    let resp = ok_data_response(data.as_str());
    store.users.insert_rec(rec);
    proof {
        assert(create_email_ok(*body, emg));
    }
    resp
}

/// Creates a user with a fresh id, stamped with the current time.
pub fn create_user(store: &mut Store, id: u128, body: &CreateUser) -> (r: Response)
    requires
        old(store).wf(),
    ensures
        final(store).wf(),
        exists|now: i64| create_user_post(*old(store), *final(store), r, id, *body, now),
{
    let now = crate::clock::current_micros();
    let r = create_user_at(store, id, now, body);
    proof {
        assert(create_user_post(*old(store), *store, r, id, *body, now));
    }
    r
}

/// What a user read returns: the row, or an error envelope where the id
/// matches nothing.
pub open spec fn get_user_post(s: Seq<Rec<User>>, r: Response, id: u128) -> bool {
    if has_id(s, id) {
        &&& r.status == 200
        &&& r.body@ == ok_data_body(user_json(row_of(s, id)))
    } else {
        &&& r.status == 500
        &&& r.body@ == error_body(not_found_msg())
    }
}

/// Reads one user by id.
pub fn get_user(store: &Store, id: u128) -> (r: Response)
    requires
        store.wf(),
    ensures
        get_user_post(store.users.rows@, r, id),
{
    match store.users.find(id) {
        Some(i) => {
            proof {
                lemma_idx_of_unique(store.users.rows@, i as int, id);
            }
            let mut data = String::new();
            push_user_json(&mut data, &store.users.rows[i]);
            ok_data_response(data.as_str())
        },
        None => error_response("record not found"),
    }
}

/// What a user update does: a missing row is an error envelope and no
/// change; otherwise supplied fields replace stored ones, the rest keep
/// their values, and the update time is stamped.
pub open spec fn update_user_post(
    pre: Store,
    post: Store,
    r: Response,
    id: u128,
    upd: UpdateUser,
    now: i64,
) -> bool {
    let s = pre.users.rows@;
    if !has_id(s, id) {
        &&& post == pre
        &&& r.status == 500
        &&& r.body@ == error_body(not_found_msg())
    } else {
        let i = idx_of(s, id);
        let nr = touched(s[i], resolve_user(s[i].data, upd), now);
        &&& post.users.rows@ == s.update(i, nr)
        &&& post.categories == pre.categories
        &&& post.products == pre.products
        &&& post.purchases == pre.purchases
        &&& post.ratings == pre.ratings
        &&& r.status == 200
        &&& r.body@ == ok_data_body(user_json(nr))
    }
}

/// Applies a partial update to a user at the given time.
pub fn update_user_at(store: &mut Store, id: u128, body: &UpdateUser, now: i64) -> (r: Response)
    requires
        old(store).wf(),
    ensures
        final(store).wf(),
        update_user_post(*old(store), *final(store), r, id, *body, now),
{
    let i = match store.users.find(id) {
        Some(i) => i,
        None => {
            return error_response("record not found");
        },
    };
    proof {
        lemma_idx_of_unique(store.users.rows@, i as int, id);
    }
    let resolved = resolve_user_update(&store.users.rows[i].data, body);
    store.users.update_rec(i, resolved, now);
    let mut data = String::new();
    push_user_json(&mut data, &store.users.rows[i]);
    ok_data_response(data.as_str())
}

/// Applies a partial update to a user, stamped with the current time.
pub fn update_user(store: &mut Store, id: u128, body: &UpdateUser) -> (r: Response)
    requires
        old(store).wf(),
    ensures
        final(store).wf(),
        exists|now: i64| update_user_post(*old(store), *final(store), r, id, *body, now),
{
    let now = crate::clock::current_micros();
    let r = update_user_at(store, id, body, now);
    proof {
        assert(update_user_post(*old(store), *store, r, id, *body, now));
    }
    r
}

/// The not-found message of a user delete.
pub open spec fn no_user_msg(id: u128) -> Seq<char> {
    "There is no user with ID: "@ + uuid_seq(id)
}

/// The confirmation message of a user delete.
pub open spec fn user_removed_msg(id: u128) -> Seq<char> {
    "User removed with ID: "@ + uuid_seq(id)
}

/// What a user delete does: a missing row is a 404 envelope; a row still
/// referenced by a purchase or rating is an error envelope and no
/// change; otherwise the row is removed and the delete confirmed.
pub open spec fn delete_user_post(pre: Store, post: Store, r: Response, id: u128) -> bool {
    let s = pre.users.rows@;
    if !has_id(s, id) {
        &&& post == pre
        &&& r.status == 404
        &&& r.body@ == not_found_body(no_user_msg(id))
    } else if crate::purchases::purchase_refs_user(pre.purchases.rows@, id)
        || crate::ratings::rating_refs_user(pre.ratings.rows@, id) {
        &&& post == pre
        &&& r.status == 500
        &&& r.body@ == error_body(crate::store::still_referenced_msg())
    } else {
        &&& post.users.rows@ == s.remove(idx_of(s, id))
        &&& post.categories == pre.categories
        &&& post.products == pre.products
        &&& post.purchases == pre.purchases
        &&& post.ratings == pre.ratings
        &&& r.status == 200
        &&& r.body@ == message_ok_body(user_removed_msg(id))
    }
}

/// Deletes one user by id.
pub fn delete_user(store: &mut Store, id: u128) -> (r: Response)
    requires
        old(store).wf(),
    ensures
        final(store).wf(),
        delete_user_post(*old(store), *final(store), r, id),
{
    if !store.users.contains_id(id) {
        let mut msg = "There is no user with ID: ".to_owned();
        push_uuid(&mut msg, id);
        return not_found_response(msg.as_str());
    }
    if crate::purchases::any_purchase_with_user(&store.purchases, id) {
        return error_response("row is still referenced");
    }
    if crate::ratings::any_rating_with_user(&store.ratings, id) {
        return error_response("row is still referenced");
    }
    let mut msg = "User removed with ID: ".to_owned();
    push_uuid(&mut msg, id);
    store.users.remove_id(id);
    message_ok_response(msg.as_str())
}

} // verus!
