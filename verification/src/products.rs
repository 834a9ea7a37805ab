//! The product resource: its schema, the fixed-point price type, row
//! rendering, and the five handler operations.

use vstd::prelude::*;

use crate::Response;
use crate::ident::{push_uuid, uuid_seq};
use crate::response::{
    error_body, error_response, joined, list_ok_body, list_ok_response, message_ok_body,
    message_ok_response, ok_data_body, ok_data_response, opt_time_seq, push_opt_time,
};
use crate::schema::{eff_limit, eff_skip, limit_count, list_opts_ok, page_of, skip_count};
use crate::store::{not_found_msg, Store};
use crate::table::{
    has_id, idx_of, ins_pos, lemma_idx_of_unique, lemma_matching_push, matching, new_rec, row_of,
    touched, Rec, Table,
};
use crate::text::{
    dec_seq, int_seq, json_escaped, push_dec_i64, push_dec_u64, push_escaped,
};

verus! {

broadcast use vstd::string::group_string_axioms;

/// A decimal price: `mantissa * 10^-scale`.
#[derive(Clone, Copy, PartialEq, Eq, Structural, Debug)]
pub struct Price {
    pub mantissa: i64,
    pub scale: u32,
}

/// The stored fields of a product beyond the common columns.
pub struct Product {
    pub product_name: String,
    pub price: Price,
    pub category_id: u128,
}

/// A full product row.
pub type ProductModel = Rec<Product>;

/// The create payload.
pub struct CreateProduct {
    pub product_name: String,
    pub price: Price,
    pub category_id: u128,
}

/// The partial-update payload.
pub struct UpdateProduct {
    pub product_name: Option<String>,
    pub price: Option<Price>,
    pub category_id: Option<u128>,
}

/// Pagination options plus the optional equality filter on the category.
pub struct ProductFilterOptions {
    pub limit: Option<usize>,
    pub offset: Option<usize>,
    pub category_id: Option<u128>,
}

impl Clone for Product {
    fn clone(&self) -> (r: Self)
        ensures
            r == *self,
    {
        Product {
            product_name: self.product_name.clone(),
            price: self.price,
            category_id: self.category_id,
        }
    }
}

/// The fields a create payload stores.
pub open spec fn created_product(c: CreateProduct) -> Product {
    Product { product_name: c.product_name, price: c.price, category_id: c.category_id }
}

/// Partial update: a supplied field wins, an omitted field keeps the
/// current value.
pub open spec fn resolve_product(cur: Product, upd: UpdateProduct) -> Product {
    Product {
        product_name: match upd.product_name {
            Some(n) => n,
            None => cur.product_name,
        },
        price: match upd.price {
            Some(p) => p,
            None => cur.price,
        },
        category_id: match upd.category_id {
            Some(c) => c,
            None => cur.category_id,
        },
    }
}

/// Resolves a partial update against the current row fields.
pub fn resolve_product_update(cur: &Product, upd: &UpdateProduct) -> (r: Product)
    ensures
        r == resolve_product(*cur, *upd),
{
    let product_name = match &upd.product_name {
        Some(n) => n.clone(),
        None => cur.product_name.clone(),
    };
    let price = match &upd.price {
        Some(p) => *p,
        None => cur.price,
    };
    let category_id = match &upd.category_id {
        Some(c) => *c,
        None => cur.category_id,
    };
    Product { product_name, price, category_id }
}

/// The magnitude of a price's mantissa.
pub open spec fn price_mag(p: Price) -> nat {
    if p.mantissa < 0 {
        (-(p.mantissa as int)) as nat
    } else {
        p.mantissa as nat
    }
}

/// Zeros enough to pad `s` to `w` digits, then `s`.
pub open spec fn zero_padded(s: Seq<char>, w: nat) -> Seq<char>
    decreases w,
{
    if s.len() >= w {
        s
    } else {
        seq!['0'] + zero_padded(s, (w - 1) as nat)
    }
}

/// The decimal rendering of a price: the mantissa's digits with a point
/// `scale` digits from the end, padded with zeros where the mantissa is
/// short; a plain integer for scale zero; exponent notation where the
/// scale exceeds what a machine word of digits can place.
pub open spec fn price_seq(p: Price) -> Seq<char> {
    if p.scale == 0 {
        int_seq(p.mantissa as int)
    } else if p.scale <= 19 {
        let digits = zero_padded(dec_seq(price_mag(p)), (p.scale + 1) as nat);
        let sign: Seq<char> = if p.mantissa < 0 {
            seq!['-']
        } else {
            Seq::empty()
        };
        sign + digits.take(digits.len() - p.scale) + seq!['.'] + digits.skip(
            digits.len() - p.scale,
        )
    } else {
        int_seq(p.mantissa as int) + seq!['e', '-'] + dec_seq(p.scale as nat)
    }
}

pub proof fn lemma_zero_padded_len(s: Seq<char>, w: nat)
    ensures
        zero_padded(s, w).len() == if s.len() >= w {
            s.len()
        } else {
            w
        },
    decreases w,
{
    if s.len() < w {
        lemma_zero_padded_len(s, (w - 1) as nat);
    }
}

/// `n` zero digits.
pub open spec fn zeros(n: nat) -> Seq<char>
    decreases n,
{
    if n == 0 {
        Seq::empty()
    } else {
        seq!['0'] + zeros((n - 1) as nat)
    }
}

pub proof fn lemma_zeros_all(n: nat)
    ensures
        zeros(n).len() == n,
        forall|i: int| 0 <= i < n ==> zeros(n)[i] == '0',
    decreases n,
{
    if n > 0 {
        lemma_zeros_all((n - 1) as nat);
    }
}

pub proof fn lemma_zero_padded_zeros(s: Seq<char>, w: nat)
    ensures
        zero_padded(s, w) == if s.len() >= w {
            s
        } else {
            zeros((w - s.len()) as nat) + s
        },
    decreases w,
{
    if s.len() >= w {
    } else {
        lemma_zero_padded_zeros(s, (w - 1) as nat);
        if s.len() >= w - 1 {
            assert(zeros(0) =~= Seq::<char>::empty());
            assert(zeros(1) =~= seq!['0']);
            assert(zero_padded(s, w) =~= zeros((w - s.len()) as nat) + s);
        } else {
            assert(zeros((w - s.len()) as nat) =~= seq!['0'] + zeros((w - 1 - s.len()) as nat));
            assert(zero_padded(s, w) =~= zeros((w - s.len()) as nat) + s);
        }
    }
}

pub proof fn lemma_dec_seq_len(n: nat)
    ensures
        dec_seq(n).len() >= 1,
    decreases n,
{
    if n >= 10 {
        lemma_dec_seq_len(n / 10);
    }
}

/// Appends the decimal rendering of a price.
pub fn push_price(out: &mut String, p: &Price)
    ensures
        final(out)@ == old(out)@ + price_seq(*p),
{
    proof {
        reveal_strlit("-");
        reveal_strlit("e-");
        reveal_strlit(".");
        reveal_strlit("0");
    }
    if p.scale == 0 {
        push_dec_i64(out, p.mantissa);
        return ;
    }
    if p.scale > 19 {
        push_dec_i64(out, p.mantissa);
        out.append("e-");
        push_dec_u64(out, p.scale as u64);
        proof {
            assert(out@ =~= old(out)@ + price_seq(*p));
        }
        return ;
    }
    let mag: u64 = if p.mantissa < 0 {
        (-(p.mantissa as i128)) as u64
    } else {
        p.mantissa as u64
    };
    if p.mantissa < 0 {
        out.append("-");
    }
    let mut digits = String::new();
    push_dec_u64(&mut digits, mag);
    proof {
        assert(digits@ =~= dec_seq(mag as nat));
        assert(mag as nat == price_mag(*p));
        lemma_dec_seq_len(mag as nat);
    }
    let dlen = digits.unicode_len();
    let scale = p.scale as usize;
    let width = scale + 1;
    let pad: usize = if width > dlen {
        width - dlen
    } else {
        0
    };
    let mut padded = String::new();
    let mut j: usize = 0;
    while j < pad
        invariant
            j <= pad,
            padded@.len() == j,
            forall|idx: int| 0 <= idx < j ==> padded@[idx] == '0',
        decreases pad - j,
    {
        proof {
            reveal_strlit("0");
        }
        padded.append("0");
        j = j + 1;
    }
    proof {
        lemma_zeros_all(pad as nat);
        assert(padded@ =~= zeros(pad as nat));
    }
    padded.append(digits.as_str());
    proof {
        lemma_zero_padded_zeros(digits@, width as nat);
        if dlen >= width {
            assert(zeros(0) =~= Seq::<char>::empty());
            assert(padded@ =~= zero_padded(digits@, width as nat));
        } else {
            assert(padded@ =~= zero_padded(digits@, width as nat));
        }
        lemma_zero_padded_len(digits@, width as nat);
    }
    let plen = padded.unicode_len();
    let ps = padded.as_str();
    out.append(ps.substring_char(0, plen - scale));
    out.append(".");
    out.append(ps.substring_char(plen - scale, plen));
    proof {
        assert(padded@ == zero_padded(dec_seq(price_mag(*p)), (p.scale + 1) as nat));
        assert(out@ =~= old(out)@ + price_seq(*p));
    }
}

/// The JSON rendering of a product row; the price appears as a quoted
/// decimal string.
pub open spec fn product_json(r: Rec<Product>) -> Seq<char> {
    "{\"id\":\""@ + uuid_seq(r.id) + "\",\"product_name\":\""@ + json_escaped(
        r.data.product_name@,
    ) + "\",\"price\":\""@ + price_seq(r.data.price) + "\",\"category_id\":\""@ + uuid_seq(
        r.data.category_id,
    ) + "\",\"created_at\":"@ + int_seq(r.created_at as int) + ",\"updated_at\":"@ + opt_time_seq(
        r.updated_at,
    ) + "}"@
}

/// Appends the JSON rendering of a product row.
pub fn push_product_json(out: &mut String, r: &Rec<Product>)
    ensures
        final(out)@ == old(out)@ + product_json(*r),
{
    out.append("{\"id\":\"");
    push_uuid(out, r.id);
    out.append("\",\"product_name\":\"");
    push_escaped(out, r.data.product_name.as_str());
    out.append("\",\"price\":\"");
    push_price(out, &r.data.price);
    out.append("\",\"category_id\":\"");
    push_uuid(out, r.data.category_id);
    out.append("\",\"created_at\":");
    push_dec_i64(out, r.created_at);
    out.append(",\"updated_at\":");
    push_opt_time(out, &r.updated_at);
    out.append("}");
}

/// Whether any product row references category `id`.
pub open spec fn category_referenced(s: Seq<Rec<Product>>, id: u128) -> bool {
    exists|i: int| 0 <= i < s.len() && s[i].data.category_id == id
}

/// Scans for a product row referencing category `id`.
pub fn any_product_with_category(t: &Table<Product>, id: u128) -> (r: bool)
    ensures
        r == category_referenced(t.rows@, id),
{
    let n = t.rows.len();
    let mut i: usize = 0;
    while i < n
        invariant
            i <= n,
            n == t.rows@.len(),
            forall|k: int| 0 <= k < i ==> t.rows@[k].data.category_id != id,
        decreases n - i,
    {
        if t.rows[i].data.category_id == id {
            proof {
                assert(category_referenced(t.rows@, id));
            }
            return true;
        }
        i = i + 1;
    }
    false
}


/// Whether a row passes the optional category filter.
pub open spec fn product_matches(r: Rec<Product>, cat: Option<u128>) -> bool {
    match cat {
        None => true,
        Some(c) => r.data.category_id == c,
    }
}

/// The category filter, as a function value for the list specification.
pub open spec fn product_filter_fn(cat: Option<u128>) -> spec_fn(Rec<Product>) -> bool {
    |r: Rec<Product>| product_matches(r, cat)
}

/// The row renderer, as a function value for the list specification.
pub open spec fn product_json_fn() -> spec_fn(Rec<Product>) -> Seq<char> {
    |r: Rec<Product>| product_json(r)
}

/// What a product list call returns: the filtered rows in oldest-first
/// order, the page window skipping `limit` rows per page index step, with
/// the filtered row count.
pub open spec fn products_list_body(
    s: Seq<Rec<Product>>,
    limit: Option<usize>,
    offset: Option<usize>,
    cat: Option<u128>,
) -> Seq<char> {
    let m = matching(s, product_filter_fn(cat));
    list_ok_body(
        m.len(),
        joined(page_of(m, eff_skip(offset, eff_limit(limit)), eff_limit(limit)), product_json_fn()),
    )
}

/// Lists products, oldest first, restricted to the category filter when
/// one is supplied, with the page window applied and the filtered count
/// alongside.
pub fn get_products(store: &Store, opts: &ProductFilterOptions) -> (r: Response)
    requires
        store.wf(),
        list_opts_ok(opts.limit, opts.offset, false),
    ensures
        r.status == 200,
        r.body@ == products_list_body(
            store.products.rows@,
            opts.limit,
            opts.offset,
            opts.category_id,
        ),
{
    let rows = &store.products.rows;
    let total = rows.len();
    let ghost pf = product_filter_fn(opts.category_id);
    let ghost f = product_json_fn();
    let mut idxs: Vec<usize> = Vec::new();
    let mut i: usize = 0;
    while i < total
        invariant
            i <= total,
            total == rows@.len(),
            pf == product_filter_fn(opts.category_id),
            idxs@.len() == matching(rows@.take(i as int), pf).len(),
            forall|k: int|
                0 <= k < idxs@.len() ==> (#[trigger] idxs@[k]) < i && rows@[idxs@[k] as int]
                    == matching(rows@.take(i as int), pf)[k],
        decreases total - i,
    {
        let is_match = match &opts.category_id {
            None => true,
            Some(c) => rows[i].data.category_id == *c,
        };
        proof {
            assert(rows@.take(i + 1 as int) =~= rows@.take(i as int).push(rows@[i as int]));
            lemma_matching_push(rows@.take(i as int), pf, rows@[i as int]);
            assert(is_match == pf(rows@[i as int]));
        }
        if is_match {
            idxs.push(i);
        }
        i = i + 1;
    }
    proof {
        assert(rows@.take(total as int) =~= rows@);
    }
    let ghost m = matching(rows@, pf);
    let count = idxs.len();
    let limit = limit_count(&opts.limit);
    let skip = skip_count(&opts.limit, &opts.offset, false);
    let mut items = String::new();
    if skip < count {
        let end: usize = if limit < count - skip {
            skip + limit
        } else {
            count
        };
        let mut k: usize = skip;
        while k < end
            invariant
                skip <= k <= end <= count,
                count == m.len(),
                m == matching(rows@, pf),
                f == product_json_fn(),
                total == rows@.len(),
                idxs@.len() == count,
                forall|k2: int|
                    0 <= k2 < count ==> (#[trigger] idxs@[k2]) < total && rows@[idxs@[k2] as int]
                        == m[k2],
                items@ == joined(m.subrange(skip as int, k as int), f),
            decreases end - k,
        {
            proof {
                reveal_strlit(",");
            }
            if k > skip {
                items.append(",");
            }
            let idx = idxs[k];
            push_product_json(&mut items, &rows[idx]);
            proof {
                assert(m.subrange(skip as int, k + 1 as int) =~= m.subrange(
                    skip as int,
                    k as int,
                ).push(m[k as int]));
                crate::response::lemma_joined_push(m.subrange(skip as int, k as int), f, m[k as int]);
                assert(items@ =~= joined(m.subrange(skip as int, k + 1 as int), f));
            }
            k = k + 1;
        }
        proof {
            assert(m.subrange(skip as int, end as int) =~= page_of(m, skip as int, limit as int));
        }
    } else {
        proof {
            assert(page_of(m, skip as int, limit as int) =~= Seq::<Rec<Product>>::empty());
        }
    }
    list_ok_response(count as u64, items.as_str())
}

/// What a product create call does: a duplicate id or a category id that
/// references no row is refused with an error envelope and no change;
/// otherwise the row is stored at its creation-time position and
/// returned.
pub open spec fn create_product_post(
    pre: Store,
    post: Store,
    r: Response,
    id: u128,
    body: CreateProduct,
    now: i64,
) -> bool {
    let s = pre.products.rows@;
    if has_id(s, id) {
        &&& post == pre
        &&& r.status == 500
        &&& r.body@ == error_body(crate::store::duplicate_id_msg())
    } else if !has_id(pre.categories.rows@, body.category_id) {
        &&& post == pre
        &&& r.status == 500
        &&& r.body@ == error_body(crate::store::fk_violation_msg())
    } else {
        let rec = new_rec(id, now, created_product(body));
        &&& post.products.rows@ == s.insert(ins_pos(s, now), rec)
        &&& post.categories == pre.categories
        &&& post.purchases == pre.purchases
        &&& post.ratings == pre.ratings
        &&& post.users == pre.users
        &&& r.status == 200
        &&& r.body@ == ok_data_body(product_json(rec))
    }
}

/// Creates a product with the given fresh id at the given time.
pub fn create_product_at(store: &mut Store, id: u128, now: i64, body: &CreateProduct) -> (r:
    Response)
    requires
        old(store).wf(),
    ensures
        final(store).wf(),
        create_product_post(*old(store), *final(store), r, id, *body, now),
{
    if store.products.contains_id(id) {
        return error_response("duplicate id");
    }
    if !store.categories.contains_id(body.category_id) {
        return error_response("foreign key violation");
    }
    let rec = Rec {
        id,
        created_at: now,
        updated_at: None,
        data: Product {
            product_name: body.product_name.clone(),
            price: body.price,
            category_id: body.category_id,
        },
    };
    let mut data = String::new();
    push_product_json(&mut data, &rec);
    let resp = ok_data_response(data.as_str());
    let ghost s = store.products.rows@;
    let ghost grec = rec;
    store.products.insert_rec(rec);
    proof {
        let p = ins_pos(s, now);
        crate::table::lemma_ins_pos_range(s, now);
        s.insert_ensures(p, grec);
        assert forall|i: int| 0 <= i < store.products.rows@.len() implies has_id(
            store.categories.rows@,
            (#[trigger] store.products.rows@[i]).data.category_id,
        ) by {
            if i < p {
                assert(store.products.rows@[i] == s[i]);
            } else if i > p {
                assert(store.products.rows@[i] == s[i - 1]);
            }
        }
    }
    resp
}

/// Creates a product with a fresh id, stamped with the current time.
pub fn create_product(store: &mut Store, id: u128, body: &CreateProduct) -> (r: Response)
    requires
        old(store).wf(),
    ensures
        final(store).wf(),
        exists|now: i64| create_product_post(*old(store), *final(store), r, id, *body, now),
{
    let now = crate::clock::current_micros();
    let r = create_product_at(store, id, now, body);
    proof {
        assert(create_product_post(*old(store), *store, r, id, *body, now));
    }
    r
}

/// What a product read returns: the row, or an error envelope where the
/// id matches nothing.
pub open spec fn get_product_post(s: Seq<Rec<Product>>, r: Response, id: u128) -> bool {
    if has_id(s, id) {
        &&& r.status == 200
        &&& r.body@ == ok_data_body(product_json(row_of(s, id)))
    } else {
        &&& r.status == 500
        &&& r.body@ == error_body(not_found_msg())
    }
}

/// Reads one product by id.
pub fn get_product(store: &Store, id: u128) -> (r: Response)
    requires
        store.wf(),
    ensures
        get_product_post(store.products.rows@, r, id),
{
    match store.products.find(id) {
        Some(i) => {
            proof {
                lemma_idx_of_unique(store.products.rows@, i as int, id);
            }
            let mut data = String::new();
            push_product_json(&mut data, &store.products.rows[i]);
            ok_data_response(data.as_str())
        },
        None => error_response("record not found"),
    }
}

/// What a product update does: a missing row is an error envelope; a
/// resolved category id that references no row is an error envelope and
/// no change; otherwise supplied fields replace stored ones, the rest
/// keep their values, and the update time is stamped.
pub open spec fn update_product_post(
    pre: Store,
    post: Store,
    r: Response,
    id: u128,
    upd: UpdateProduct,
    now: i64,
) -> bool {
    let s = pre.products.rows@;
    if !has_id(s, id) {
        &&& post == pre
        &&& r.status == 500
        &&& r.body@ == error_body(not_found_msg())
    } else {
        let i = idx_of(s, id);
        let d = resolve_product(s[i].data, upd);
        if !has_id(pre.categories.rows@, d.category_id) {
            &&& post == pre
            &&& r.status == 500
            &&& r.body@ == error_body(crate::store::fk_violation_msg())
        } else {
            let nr = touched(s[i], d, now);
            &&& post.products.rows@ == s.update(i, nr)
            &&& post.categories == pre.categories
            &&& post.purchases == pre.purchases
            &&& post.ratings == pre.ratings
            &&& post.users == pre.users
            &&& r.status == 200
            &&& r.body@ == ok_data_body(product_json(nr))
        }
    }
}

/// Applies a partial update to a product at the given time.
pub fn update_product_at(store: &mut Store, id: u128, body: &UpdateProduct, now: i64) -> (r:
    Response)
    requires
        old(store).wf(),
    ensures
        final(store).wf(),
        update_product_post(*old(store), *final(store), r, id, *body, now),
{
    let i = match store.products.find(id) {
        Some(i) => i,
        None => {
            return error_response("record not found");
        },
    };
    proof {
        lemma_idx_of_unique(store.products.rows@, i as int, id);
    }
    let resolved = resolve_product_update(&store.products.rows[i].data, body);
    if !store.categories.contains_id(resolved.category_id) {
        return error_response("foreign key violation");
    }
    store.products.update_rec(i, resolved, now);
    let mut data = String::new();
    push_product_json(&mut data, &store.products.rows[i]);
    ok_data_response(data.as_str())
}

/// Applies a partial update to a product, stamped with the current time.
pub fn update_product(store: &mut Store, id: u128, body: &UpdateProduct) -> (r: Response)
    requires
        old(store).wf(),
    ensures
        final(store).wf(),
        exists|now: i64| update_product_post(*old(store), *final(store), r, id, *body, now),
{
    let now = crate::clock::current_micros();
    let r = update_product_at(store, id, body, now);
    proof {
        assert(update_product_post(*old(store), *store, r, id, *body, now));
    }
    r
}

/// The not-found message of a product delete.
pub open spec fn no_product_msg(id: u128) -> Seq<char> {
    "No results found with ID: "@ + uuid_seq(id)
}

/// The confirmation message of a product delete.
pub open spec fn product_removed_msg() -> Seq<char> {
    "successfully deleted"@
}

/// What a product delete does: a missing row is an error envelope; a row
/// still referenced by a purchase or rating is an error envelope and no
/// change; otherwise the row is removed and the delete confirmed.
pub open spec fn delete_product_post(pre: Store, post: Store, r: Response, id: u128) -> bool {
    let s = pre.products.rows@;
    if !has_id(s, id) {
        &&& post == pre
        &&& r.status == 500
        &&& r.body@ == error_body(no_product_msg(id))
    } else if crate::purchases::purchase_refs_product(pre.purchases.rows@, id)
        || crate::ratings::rating_refs_product(pre.ratings.rows@, id) {
        &&& post == pre
        &&& r.status == 500
        &&& r.body@ == error_body(crate::store::still_referenced_msg())
    } else {
        &&& post.products.rows@ == s.remove(idx_of(s, id))
        &&& post.categories == pre.categories
        &&& post.purchases == pre.purchases
        &&& post.ratings == pre.ratings
        &&& post.users == pre.users
        &&& r.status == 200
        &&& r.body@ == message_ok_body(product_removed_msg())
    }
}

/// Deletes one product by id.
pub fn delete_product(store: &mut Store, id: u128) -> (r: Response)
    requires
        old(store).wf(),
    ensures
        final(store).wf(),
        delete_product_post(*old(store), *final(store), r, id),
{
    if !store.products.contains_id(id) {
        let mut msg = "No results found with ID: ".to_owned();
        push_uuid(&mut msg, id);
        return error_response(msg.as_str());
    }
    if crate::purchases::any_purchase_with_product(&store.purchases, id) {
        return error_response("row is still referenced");
    }
    if crate::ratings::any_rating_with_product(&store.ratings, id) {
        return error_response("row is still referenced");
    }
    store.products.remove_id(id);
    message_ok_response("successfully deleted")
}

} // verus!
