use serde_json::Value;

use storefront::categories::{
    create_category, create_category_at, delete_category, get_categories, get_category,
    update_category_at, CreateCategory, UpdateCategory,
};
use storefront::ident::parse_uuid;
use storefront::products::{
    create_product_at, delete_product, get_product, get_products, update_product_at,
    CreateProduct, Price, ProductFilterOptions, UpdateProduct,
};
use storefront::purchases::{
    create_purchase_at, delete_purchase, get_purchase, get_purchases, update_purchase_at,
    CreatePurchase, PurchaseFilterOptions, UpdatePurchase,
};
use storefront::ratings::{create_rating_at, get_ratings, CreateRating, RatingFilterOptions};
use storefront::schema::FilterOptions;
use storefront::store::Store;
use storefront::users::{
    create_user_at, delete_user, get_user, get_users, update_user_at, CreateUser, UpdateUser,
};

fn v(body: &str) -> Value {
    serde_json::from_str(body).expect("handler bodies are valid JSON")
}

fn seeded() -> (Store, u128, u128, u128) {
    let mut store = Store::new();
    let cat: u128 = 0x10;
    let prod: u128 = 0x20;
    let user: u128 = 0x30;
    let r = create_category_at(
        &mut store,
        cat,
        100,
        &CreateCategory { category_name: "Electronics".to_string() },
    );
    assert_eq!(r.status, 200);
    let r = create_product_at(
        &mut store,
        prod,
        200,
        &CreateProduct {
            product_name: "Keyboard".to_string(),
            price: Price { mantissa: 4999, scale: 2 },
            category_id: cat,
        },
    );
    assert_eq!(r.status, 200);
    let r = create_user_at(
        &mut store,
        user,
        300,
        &CreateUser { username: "ada".to_string(), email: Some("ada@example.com".to_string()) },
    );
    assert_eq!(r.status, 200);
    (store, cat, prod, user)
}

#[test]
fn create_category_scenario() {
    // POST /categories {"category_name":"Electronics"}: 200, the name
    // echoes back, the id is a well-formed uuid, updated_at is unset.
    let mut store = Store::new();
    let id: u128 = 0xabcdef0123456789abcdef0123456789;
    let r = create_category_at(
        &mut store,
        id,
        42,
        &CreateCategory { category_name: "Electronics".to_string() },
    );
    assert_eq!(r.status, 200);
    let body = v(&r.body);
    assert_eq!(body["status"], "success");
    assert_eq!(body["data"]["category_name"], "Electronics");
    assert_eq!(body["data"]["created_at"], 42);
    assert!(body["data"]["updated_at"].is_null());
    let id_str = body["data"]["id"].as_str().unwrap();
    assert_eq!(parse_uuid(id_str), Some(id));

    // PATCH with an empty body: the name is unchanged, updated_at is set.
    let r = update_category_at(&mut store, id, &UpdateCategory { category_name: None }, 43);
    assert_eq!(r.status, 200);
    let body = v(&r.body);
    assert_eq!(body["data"]["category_name"], "Electronics");
    assert_eq!(body["data"]["updated_at"], 43);
    assert_eq!(body["data"]["created_at"], 42);
}

#[test]
fn create_category_exact_envelope() {
    let mut store = Store::new();
    let r = create_category_at(
        &mut store,
        1,
        5,
        &CreateCategory { category_name: "Electronics".to_string() },
    );
    assert_eq!(r.status, 200);
    assert_eq!(
        r.body,
        "{\"data\":{\"id\":\"00000000-0000-0000-0000-000000000001\",\"category_name\":\"Electronics\",\"created_at\":5,\"updated_at\":null},\"status\":\"success\"}"
    );
}

#[test]
fn create_with_wall_clock() {
    let mut store = Store::new();
    let r = create_category(&mut store, 7, &CreateCategory { category_name: "Books".to_string() });
    assert_eq!(r.status, 200);
    let body = v(&r.body);
    assert_eq!(body["data"]["category_name"], "Books");
    assert!(body["data"]["updated_at"].is_null());
    assert!(body["data"]["created_at"].as_i64().unwrap() > 0);
}

#[test]
fn empty_list_exact_envelope() {
    let store = Store::new();
    let r = get_categories(&store, &FilterOptions { limit: None, offset: None });
    assert_eq!(r.status, 200);
    assert_eq!(r.body, "{\"count\":0,\"data\":[],\"status\":\"success\"}");
}

#[test]
fn category_list_is_newest_first_and_paged() {
    let mut store = Store::new();
    for i in 0..5u128 {
        let r = create_category_at(
            &mut store,
            i + 1,
            (i as i64) * 10,
            &CreateCategory { category_name: format!("c{}", i) },
        );
        assert_eq!(r.status, 200);
    }
    // Default page: everything, newest first.
    let r = get_categories(&store, &FilterOptions { limit: None, offset: None });
    let body = v(&r.body);
    assert_eq!(body["count"], 5);
    let data = body["data"].as_array().unwrap();
    assert_eq!(data.len(), 5);
    assert_eq!(data[0]["category_name"], "c4");
    assert_eq!(data[4]["category_name"], "c0");
    // limit 2, offset 3: skip (3-1)*1 = 2 rows, then at most 2 rows.
    let r = get_categories(&store, &FilterOptions { limit: Some(2), offset: Some(3) });
    let body = v(&r.body);
    assert_eq!(body["count"], 5);
    let data = body["data"].as_array().unwrap();
    assert_eq!(data.len(), 2);
    assert_eq!(data[0]["category_name"], "c2");
    assert_eq!(data[1]["category_name"], "c1");
}

#[test]
fn page_past_the_end_is_empty_but_counted() {
    let mut store = Store::new();
    for i in 0..3u128 {
        create_category_at(
            &mut store,
            i + 1,
            i as i64,
            &CreateCategory { category_name: format!("c{}", i) },
        );
    }
    let r = get_categories(&store, &FilterOptions { limit: Some(10), offset: Some(9) });
    let body = v(&r.body);
    assert_eq!(body["count"], 3);
    assert_eq!(body["data"].as_array().unwrap().len(), 0);
}

#[test]
fn omitted_pagination_defaults_to_first_page_of_ten() {
    let mut store = Store::new();
    for i in 0..12u128 {
        create_category_at(
            &mut store,
            i + 1,
            i as i64,
            &CreateCategory { category_name: format!("c{}", i) },
        );
    }
    let r = get_categories(&store, &FilterOptions { limit: None, offset: None });
    let body = v(&r.body);
    assert_eq!(body["count"], 12);
    let data = body["data"].as_array().unwrap();
    assert_eq!(data.len(), 10);
    assert_eq!(data[0]["category_name"], "c11");
    let explicit = get_categories(&store, &FilterOptions { limit: Some(10), offset: Some(1) });
    assert_eq!(r.body, explicit.body);
}

#[test]
fn product_list_pages_by_limit() {
    let (mut store, cat, _, _) = seeded();
    for i in 0..6u128 {
        let r = create_product_at(
            &mut store,
            0x100 + i,
            1000 + (i as i64),
            &CreateProduct {
                product_name: format!("p{}", i),
                price: Price { mantissa: 100, scale: 2 },
                category_id: cat,
            },
        );
        assert_eq!(r.status, 200);
    }
    // limit 3, offset 2: skip (2-1)*3 = 3 matching rows, oldest first.
    let r = get_products(
        &store,
        &ProductFilterOptions { limit: Some(3), offset: Some(2), category_id: None },
    );
    let body = v(&r.body);
    assert_eq!(body["count"], 7);
    let data = body["data"].as_array().unwrap();
    assert_eq!(data.len(), 3);
    assert_eq!(data[0]["product_name"], "p2");
    assert_eq!(data[2]["product_name"], "p4");
}

#[test]
fn product_filter_restricts_and_noop_when_absent() {
    let (mut store, cat, _, _) = seeded();
    let r = create_category_at(
        &mut store,
        0x11,
        150,
        &CreateCategory { category_name: "Games".to_string() },
    );
    assert_eq!(r.status, 200);
    let r = create_product_at(
        &mut store,
        0x21,
        250,
        &CreateProduct {
            product_name: "Chess".to_string(),
            price: Price { mantissa: 999, scale: 2 },
            category_id: 0x11,
        },
    );
    assert_eq!(r.status, 200);
    // No filter: both products.
    let r = get_products(
        &store,
        &ProductFilterOptions { limit: None, offset: None, category_id: None },
    );
    let body = v(&r.body);
    assert_eq!(body["count"], 2);
    // Filter: only the matching product.
    let r = get_products(
        &store,
        &ProductFilterOptions { limit: None, offset: None, category_id: Some(0x11) },
    );
    let body = v(&r.body);
    assert_eq!(body["count"], 1);
    assert_eq!(body["data"][0]["product_name"], "Chess");
    // Filter on a category with no products: empty page.
    let r = create_category_at(
        &mut store,
        0x12,
        160,
        &CreateCategory { category_name: "Empty".to_string() },
    );
    assert_eq!(r.status, 200);
    let r = get_products(
        &store,
        &ProductFilterOptions { limit: None, offset: None, category_id: Some(0x12) },
    );
    let body = v(&r.body);
    assert_eq!(body["count"], 0);
    assert_eq!(body["data"].as_array().unwrap().len(), 0);
}

#[test]
fn create_then_get_round_trip() {
    let (store, _, prod, _) = seeded();
    let r = get_product(&store, prod);
    assert_eq!(r.status, 200);
    let body = v(&r.body);
    assert_eq!(body["data"]["product_name"], "Keyboard");
    assert_eq!(body["data"]["price"], "49.99");
    assert_eq!(body["data"]["created_at"], 200);
    assert!(body["data"]["updated_at"].is_null());
    assert_eq!(
        body["data"]["category_id"].as_str().unwrap(),
        "00000000-0000-0000-0000-000000000010"
    );
}

#[test]
fn product_create_with_missing_category_fails() {
    // POST /products with a category_id that references nothing: an
    // error envelope and no product row.
    let (mut store, _, _, _) = seeded();
    let r = create_product_at(
        &mut store,
        0x99,
        500,
        &CreateProduct {
            product_name: "Ghost".to_string(),
            price: Price { mantissa: 1, scale: 0 },
            category_id: 0xdead,
        },
    );
    assert_eq!(r.status, 500);
    let body = v(&r.body);
    assert_eq!(body["status"], "error");
    assert_eq!(body["message"], "foreign key violation");
    let r = get_product(&store, 0x99);
    assert_eq!(r.status, 500);
    let r = get_products(
        &store,
        &ProductFilterOptions { limit: None, offset: None, category_id: None },
    );
    assert_eq!(v(&r.body)["count"], 1);
}

#[test]
fn duplicate_id_create_fails() {
    let (mut store, cat, _, _) = seeded();
    let r = create_category_at(
        &mut store,
        cat,
        999,
        &CreateCategory { category_name: "Again".to_string() },
    );
    assert_eq!(r.status, 500);
    let body = v(&r.body);
    assert_eq!(body["status"], "error");
    assert_eq!(body["message"], "duplicate id");
}

#[test]
fn partial_update_preserves_untouched_fields() {
    let (mut store, _, prod, _) = seeded();
    let before = v(&get_product(&store, prod).body);
    let r = update_product_at(
        &mut store,
        prod,
        &UpdateProduct {
            product_name: None,
            price: Some(Price { mantissa: 5999, scale: 2 }),
            category_id: None,
        },
        777,
    );
    assert_eq!(r.status, 200);
    let after = v(&r.body);
    assert_eq!(after["data"]["price"], "59.99");
    assert_eq!(after["data"]["product_name"], before["data"]["product_name"]);
    assert_eq!(after["data"]["category_id"], before["data"]["category_id"]);
    assert_eq!(after["data"]["created_at"], before["data"]["created_at"]);
    assert_eq!(after["data"]["id"], before["data"]["id"]);
    assert_eq!(after["data"]["updated_at"], 777);
}

#[test]
fn update_missing_row_fails_without_change() {
    let (mut store, _, _, _) = seeded();
    let r = update_category_at(
        &mut store,
        0xfeed,
        &UpdateCategory { category_name: Some("X".to_string()) },
        1,
    );
    assert_eq!(r.status, 500);
    assert_eq!(v(&r.body)["message"], "record not found");
}

#[test]
fn update_to_missing_foreign_key_fails() {
    let (mut store, _, prod, _) = seeded();
    let r = update_product_at(
        &mut store,
        prod,
        &UpdateProduct { product_name: None, price: None, category_id: Some(0xdead) },
        1,
    );
    assert_eq!(r.status, 500);
    assert_eq!(v(&r.body)["message"], "foreign key violation");
    // The row kept its category.
    let body = v(&get_product(&store, prod).body);
    assert_eq!(
        body["data"]["category_id"].as_str().unwrap(),
        "00000000-0000-0000-0000-000000000010"
    );
}

#[test]
fn delete_then_get_fails() {
    let mut store = Store::new();
    let id: u128 = 0x42;
    create_category_at(&mut store, id, 1, &CreateCategory { category_name: "T".to_string() });
    let r = delete_category(&mut store, id);
    assert_eq!(r.status, 200);
    let body = v(&r.body);
    assert_eq!(body["status"], "success");
    assert_eq!(
        body["message"],
        "Category removed with ID: 00000000-0000-0000-0000-000000000042"
    );
    let r = get_category(&store, id);
    assert_eq!(r.status, 500);
    assert_eq!(v(&r.body)["status"], "error");
}

#[test]
fn delete_missing_category_is_not_found() {
    let mut store = Store::new();
    let r = delete_category(&mut store, 0x42);
    assert_eq!(r.status, 404);
    let body = v(&r.body);
    assert_eq!(body["status"], "not found");
    assert_eq!(
        body["message"],
        "There is no category with ID: 00000000-0000-0000-0000-000000000042"
    );
}

#[test]
fn delete_missing_product_is_an_error_envelope() {
    let mut store = Store::new();
    let r = delete_product(&mut store, 0x43);
    assert_eq!(r.status, 500);
    let body = v(&r.body);
    assert_eq!(body["status"], "error");
    assert_eq!(
        body["message"],
        "No results found with ID: 00000000-0000-0000-0000-000000000043"
    );
}

#[test]
fn delete_referenced_category_fails() {
    let (mut store, cat, prod, _) = seeded();
    let r = delete_category(&mut store, cat);
    assert_eq!(r.status, 500);
    assert_eq!(v(&r.body)["message"], "row is still referenced");
    // Both rows are still there.
    assert_eq!(get_category(&store, cat).status, 200);
    assert_eq!(get_product(&store, prod).status, 200);
    // After the product goes, the category can go.
    assert_eq!(delete_product(&mut store, prod).status, 200);
    assert_eq!(delete_category(&mut store, cat).status, 200);
}

#[test]
fn user_email_defaults_to_empty_string() {
    let mut store = Store::new();
    let r = create_user_at(
        &mut store,
        0x77,
        9,
        &CreateUser { username: "grace".to_string(), email: None },
    );
    assert_eq!(r.status, 200);
    let body = v(&r.body);
    assert_eq!(body["data"]["username"], "grace");
    assert_eq!(body["data"]["email"], "");
    // Updating only the username keeps the stored email.
    let r = update_user_at(
        &mut store,
        0x77,
        &UpdateUser { username: Some("hopper".to_string()), email: None },
        10,
    );
    let body = v(&r.body);
    assert_eq!(body["data"]["username"], "hopper");
    assert_eq!(body["data"]["email"], "");
    assert_eq!(body["data"]["updated_at"], 10);
}

#[test]
fn users_list_and_get() {
    let (store, _, _, user) = seeded();
    let r = get_users(&store, &FilterOptions { limit: None, offset: None });
    let body = v(&r.body);
    assert_eq!(body["count"], 1);
    assert_eq!(body["data"][0]["username"], "ada");
    let r = get_user(&store, user);
    assert_eq!(v(&r.body)["data"]["email"], "ada@example.com");
}

#[test]
fn purchase_lifecycle_and_foreign_keys() {
    let (mut store, _, prod, user) = seeded();
    // Creating with a missing user is refused.
    let r = create_purchase_at(
        &mut store,
        0x200,
        400,
        &CreatePurchase { product_id: prod, user_id: 0xdead },
    );
    assert_eq!(r.status, 500);
    assert_eq!(v(&r.body)["message"], "foreign key violation");
    // A valid purchase is created and read back.
    let r = create_purchase_at(
        &mut store,
        0x200,
        400,
        &CreatePurchase { product_id: prod, user_id: user },
    );
    assert_eq!(r.status, 200);
    let r = get_purchase(&store, 0x200);
    assert_eq!(r.status, 200);
    let body = v(&r.body);
    assert_eq!(
        body["data"]["product_id"].as_str().unwrap(),
        "00000000-0000-0000-0000-000000000020"
    );
    // The product and user cannot be deleted while referenced.
    assert_eq!(delete_product(&mut store, prod).status, 500);
    assert_eq!(delete_user(&mut store, user).status, 500);
    // Updating to a missing product is refused and changes nothing.
    let r = update_purchase_at(
        &mut store,
        0x200,
        &UpdatePurchase { product_id: Some(0xdead), user_id: None },
        401,
    );
    assert_eq!(r.status, 500);
    // Deleting the purchase frees the product.
    let r = delete_purchase(&mut store, 0x200);
    assert_eq!(r.status, 200);
    assert_eq!(v(&r.body)["message"], "successfully deleted");
    assert_eq!(delete_product(&mut store, prod).status, 200);
}

#[test]
fn purchase_and_rating_filters() {
    let (mut store, cat, prod, user) = seeded();
    let r = create_user_at(
        &mut store,
        0x31,
        310,
        &CreateUser { username: "bob".to_string(), email: None },
    );
    assert_eq!(r.status, 200);
    let r = create_product_at(
        &mut store,
        0x21,
        210,
        &CreateProduct {
            product_name: "Mouse".to_string(),
            price: Price { mantissa: 500, scale: 2 },
            category_id: cat,
        },
    );
    assert_eq!(r.status, 200);
    for (i, (p, u)) in [(prod, user), (prod, 0x31), (0x21, user)].iter().enumerate() {
        let r = create_purchase_at(
            &mut store,
            0x300 + i as u128,
            500 + i as i64,
            &CreatePurchase { product_id: *p, user_id: *u },
        );
        assert_eq!(r.status, 200);
    }
    let all = get_purchases(
        &store,
        &PurchaseFilterOptions { limit: None, offset: None, product_id: None, user_id: None },
    );
    assert_eq!(v(&all.body)["count"], 3);
    let by_product = get_purchases(
        &store,
        &PurchaseFilterOptions {
            limit: None,
            offset: None,
            product_id: Some(prod),
            user_id: None,
        },
    );
    assert_eq!(v(&by_product.body)["count"], 2);
    let by_both = get_purchases(
        &store,
        &PurchaseFilterOptions {
            limit: None,
            offset: None,
            product_id: Some(prod),
            user_id: Some(user),
        },
    );
    assert_eq!(v(&by_both.body)["count"], 1);
    // Ratings carry their score through.
    let r = create_rating_at(
        &mut store,
        0x400,
        600,
        &CreateRating { rating: -3, product_id: prod, user_id: user },
    );
    assert_eq!(r.status, 200);
    let r = get_ratings(
        &store,
        &RatingFilterOptions { limit: None, offset: None, product_id: None, user_id: Some(user) },
    );
    let body = v(&r.body);
    assert_eq!(body["count"], 1);
    assert_eq!(body["data"][0]["rating"], -3);
}
