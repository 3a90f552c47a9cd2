use ecommerce::datetime::SqliteDateTime;
use ecommerce::orders::OrderLine;
use ecommerce::{
    add_to_cart_checked, attach_products, check_decrement, check_deleted, needs_stock_check,
    pattern_for, update_cart_checked, AddCartItem, AppError, Cart, Product, SearchQuery,
    UpdateCartItem,
};

fn product(id: i32, name: &str, price_cents: u32, stock: i32) -> Product {
    Product {
        id,
        name: name.to_string(),
        description: None,
        price_cents,
        stock_quantity: stock,
        category_id: None,
        image_url: None,
        created_at: String::new(),
        updated_at: String::new(),
    }
}

#[test]
fn add_request_within_stock_adds() {
    let mut cart = Cart::new();
    let r = add_to_cart_checked(&mut cart, &AddCartItem { product_id: 1, quantity: 2 }, &Some(product(1, "Mug", 1000, 2)));
    assert!(r.is_ok());
    assert_eq!(cart.quantity_of(1), 2);
}

#[test]
fn add_request_over_stock_is_refused() {
    let mut cart = Cart::new();
    let r = add_to_cart_checked(&mut cart, &AddCartItem { product_id: 1, quantity: 3 }, &Some(product(1, "Mug", 1000, 2)));
    assert!(matches!(r, Err(AppError::InsufficientStock(n)) if n == "Mug"));
    assert!(cart.items.is_empty());
}

#[test]
fn add_request_for_missing_product_is_not_found() {
    let mut cart = Cart::new();
    let r = add_to_cart_checked(&mut cart, &AddCartItem { product_id: 1, quantity: 1 }, &None);
    assert!(matches!(r, Err(AppError::NotFound)));
    assert!(cart.items.is_empty());
}

#[test]
fn add_request_overflowing_quantity_is_bad_request() {
    let mut cart = Cart::new();
    cart.add_item(1, i32::MAX);
    let r = add_to_cart_checked(&mut cart, &AddCartItem { product_id: 1, quantity: 1 }, &Some(product(1, "Mug", 1000, 10)));
    assert!(matches!(r, Err(AppError::BadRequest(_))));
    assert_eq!(cart.quantity_of(1), i32::MAX);
}

#[test]
fn update_request_sets_quantity() {
    let mut cart = Cart::new();
    cart.add_item(1, 1);
    let r = update_cart_checked(&mut cart, 1, &UpdateCartItem { quantity: 4 }, &Some(product(1, "Mug", 1000, 4)));
    assert!(r.is_ok());
    assert_eq!(cart.quantity_of(1), 4);
}

#[test]
fn update_request_over_stock_is_refused() {
    let mut cart = Cart::new();
    cart.add_item(1, 1);
    let r = update_cart_checked(&mut cart, 1, &UpdateCartItem { quantity: 5 }, &Some(product(1, "Mug", 1000, 4)));
    assert!(matches!(r, Err(AppError::InsufficientStock(_))));
    assert_eq!(cart.quantity_of(1), 1);
}

#[test]
fn update_request_to_zero_removes_without_product() {
    let mut cart = Cart::new();
    cart.add_item(1, 1);
    assert!(!needs_stock_check(0));
    assert!(needs_stock_check(1));
    let r = update_cart_checked(&mut cart, 1, &UpdateCartItem { quantity: 0 }, &None);
    assert!(r.is_ok());
    assert!(cart.items.is_empty());
}

#[test]
fn update_request_for_missing_product_is_not_found() {
    let mut cart = Cart::new();
    cart.add_item(1, 1);
    let r = update_cart_checked(&mut cart, 1, &UpdateCartItem { quantity: 2 }, &None);
    assert!(matches!(r, Err(AppError::NotFound)));
    assert_eq!(cart.quantity_of(1), 1);
}

#[test]
fn attach_sets_found_snapshots() {
    let mut cart = Cart::new();
    cart.add_item(1, 2);
    cart.add_item(2, 1);
    attach_products(&mut cart, vec![Some(product(1, "Mug", 1000, 5)), None]);
    assert_eq!(cart.items[0].product.as_ref().unwrap().name, "Mug");
    assert!(cart.items[1].product.is_none());
    assert_eq!(cart.total_with_products(), 2000);
}

#[test]
fn attach_drops_snapshot_of_vanished_product() {
    let mut cart = Cart::new();
    cart.add_item(1, 2);
    attach_products(&mut cart, vec![Some(product(1, "Mug", 1000, 5))]);
    attach_products(&mut cart, vec![None]);
    assert!(cart.items[0].product.is_none());
    assert_eq!(cart.total_with_products(), 0);
}

#[test]
fn add_request_with_non_positive_quantity_is_bad_request() {
    let mut cart = Cart::new();
    let p = Some(product(1, "Mug", 1000, 5));
    let r = add_to_cart_checked(&mut cart, &AddCartItem { product_id: 1, quantity: 0 }, &p);
    assert!(matches!(r, Err(AppError::BadRequest(_))));
    let r = add_to_cart_checked(&mut cart, &AddCartItem { product_id: 1, quantity: -3 }, &p);
    assert!(matches!(r, Err(AppError::BadRequest(_))));
    assert!(cart.items.is_empty());
}

#[test]
fn add_request_for_missing_product_with_non_positive_quantity_is_not_found() {
    let mut cart = Cart::new();
    let r = add_to_cart_checked(&mut cart, &AddCartItem { product_id: 1, quantity: 0 }, &None);
    assert!(matches!(r, Err(AppError::NotFound)));
    let r = add_to_cart_checked(&mut cart, &AddCartItem { product_id: 1, quantity: -3 }, &None);
    assert!(matches!(r, Err(AppError::NotFound)));
    assert!(cart.items.is_empty());
}

#[test]
fn decrement_without_rows_is_insufficient_stock() {
    let line = OrderLine { product_id: 1, product_name: "Mug".to_string(), quantity: 1, price_cents: 1000 };
    assert!(matches!(check_decrement(0, true, &line), Err(AppError::InsufficientStock(n)) if n == "Mug"));
    assert!(check_decrement(1, true, &line).is_ok());
}

#[test]
fn decrement_of_deleted_product_is_not_found() {
    let line = OrderLine { product_id: 1, product_name: "Mug".to_string(), quantity: 1, price_cents: 1000 };
    assert!(matches!(check_decrement(0, false, &line), Err(AppError::NotFound)));
}

#[test]
fn delete_without_rows_is_not_found() {
    assert!(matches!(check_deleted(0), Err(AppError::NotFound)));
    assert!(check_deleted(2).is_ok());
}

#[test]
fn pattern_wraps_term() {
    assert_eq!(pattern_for("mug"), "%mug%");
    assert_eq!(pattern_for(""), "%%");
}

#[test]
fn search_pattern_trims_query() {
    let q = SearchQuery { q: "  blue mug \t".to_string() };
    assert_eq!(q.like_pattern(), "%blue mug%");
}

#[test]
fn timestamp_parses_database_text() {
    assert_eq!(SqliteDateTime::from("2024-01-02 03:04:05".to_string()).timestamp, 1704164645);
    assert_eq!(SqliteDateTime::from("1970-01-01 00:00:00".to_string()).timestamp, 0);
}

#[test]
fn unparsable_timestamp_falls_back_to_given_time() {
    assert_eq!(SqliteDateTime::from_parsed(None, 42).timestamp, 42);
    assert_eq!(SqliteDateTime::from_parsed(Some(7), 42).timestamp, 7);
    assert!(SqliteDateTime::from("not a date".to_string()).timestamp > 1_600_000_000);
}
