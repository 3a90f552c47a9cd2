use ecommerce::{plan_order, AppError, Cart, Catalog, CreateOrder, Product};

fn product(id: i32, name: &str, price_cents: u32, stock: i32) -> Product {
    Product {
        id,
        name: name.to_string(),
        description: None,
        price_cents,
        stock_quantity: stock,
        category_id: None,
        image_url: None,
        created_at: String::new(),
        updated_at: String::new(),
    }
}

fn customer() -> CreateOrder {
    CreateOrder {
        customer_name: "Ada".to_string(),
        customer_email: "ada@example.com".to_string(),
        shipping_address: "1 Main St".to_string(),
    }
}

fn stock(catalog: &Catalog, id: i32) -> i32 {
    catalog.products.iter().find(|p| p.id == id).unwrap().stock_quantity
}

#[test]
fn order_with_out_of_stock_line_changes_nothing() {
    let mut catalog = Catalog::new(vec![product(1, "Mug", 1000, 5), product(2, "Lamp", 2500, 0)]);
    let mut cart = Cart::new();
    cart.add_item(1, 2);
    cart.add_item(2, 1);
    let r = catalog.place_order(&mut cart, customer(), "2024-01-01 00:00:00".to_string());
    match r {
        Err(AppError::InsufficientStock(name)) => assert_eq!(name, "Lamp"),
        other => panic!("unexpected {:?}", other),
    }
    assert_eq!(stock(&catalog, 1), 5);
    assert_eq!(stock(&catalog, 2), 0);
    assert!(catalog.orders.is_empty());
    assert!(catalog.order_items.is_empty());
    assert_eq!(cart.items.len(), 2);
}

#[test]
fn order_placed_decrements_stock_and_clears_cart() {
    let mut catalog = Catalog::new(vec![product(1, "Mug", 1000, 5)]);
    let mut cart = Cart::new();
    cart.add_item(1, 2);
    let r = catalog.place_order(&mut cart, customer(), "2024-01-01 00:00:00".to_string());
    let (id, total) = r.unwrap();
    assert_eq!(id, 1);
    assert_eq!(total, 2000);
    assert_eq!(stock(&catalog, 1), 3);
    assert_eq!(catalog.orders.len(), 1);
    let order = &catalog.orders[0];
    assert_eq!(order.id, 1);
    assert_eq!(order.status, "pending");
    assert_eq!(order.total_cents, 2000);
    assert_eq!(order.customer_name, "Ada");
    assert_eq!(order.customer_email, "ada@example.com");
    assert_eq!(order.shipping_address, "1 Main St");
    assert_eq!(catalog.order_items.len(), 1);
    let item = catalog.order_items[0];
    assert_eq!(item.order_id, 1);
    assert_eq!(item.product_id, 1);
    assert_eq!(item.quantity, 2);
    assert_eq!(item.price_cents, 1000);
    assert!(cart.items.is_empty());
}

#[test]
fn last_unit_is_sold_once() {
    let mut catalog = Catalog::new(vec![product(1, "Mug", 1000, 1)]);
    let mut first = Cart::new();
    first.add_item(1, 1);
    let mut second = Cart::new();
    second.add_item(1, 1);
    let a = catalog.place_order(&mut first, customer(), String::new());
    let b = catalog.place_order(&mut second, customer(), String::new());
    assert!(a.is_ok());
    assert!(matches!(b, Err(AppError::InsufficientStock(_))));
    assert_eq!(stock(&catalog, 1), 0);
    assert_eq!(catalog.orders.len(), 1);
}

#[test]
fn order_for_missing_product_is_not_found() {
    let mut catalog = Catalog::new(vec![product(1, "Mug", 1000, 5)]);
    let mut cart = Cart::new();
    cart.add_item(1, 1);
    cart.add_item(9, 1);
    let r = catalog.place_order(&mut cart, customer(), String::new());
    assert!(matches!(r, Err(AppError::NotFound)));
    assert_eq!(stock(&catalog, 1), 5);
    assert!(catalog.orders.is_empty());
}

#[test]
fn duplicate_lines_cannot_oversell() {
    let mut catalog = Catalog::new(vec![product(1, "Mug", 1000, 5)]);
    let mut cart = Cart {
        items: vec![
            ecommerce::CartItem { product_id: 1, quantity: 3, product: None },
            ecommerce::CartItem { product_id: 1, quantity: 3, product: None },
        ],
    };
    let r = catalog.place_order(&mut cart, customer(), String::new());
    assert!(matches!(r, Err(AppError::InsufficientStock(_))));
    assert_eq!(stock(&catalog, 1), 5);
    assert!(catalog.order_items.is_empty());
}

#[test]
fn empty_cart_places_zero_order() {
    let mut catalog = Catalog::new(vec![product(1, "Mug", 1000, 5)]);
    let mut cart = Cart::new();
    let r = catalog.place_order(&mut cart, customer(), String::new());
    assert_eq!(r.unwrap(), (1, 0));
    assert_eq!(catalog.orders.len(), 1);
    assert!(catalog.order_items.is_empty());
}

#[test]
fn order_ids_increase() {
    let mut catalog = Catalog::new(vec![product(1, "Mug", 1000, 5), product(2, "Lamp", 2500, 5)]);
    let mut cart = Cart::new();
    cart.add_item(1, 1);
    assert_eq!(catalog.place_order(&mut cart, customer(), String::new()).unwrap(), (1, 1000));
    cart.add_item(2, 2);
    cart.add_item(1, 1);
    assert_eq!(catalog.place_order(&mut cart, customer(), String::new()).unwrap(), (2, 6000));
    assert_eq!(catalog.order_items.len(), 3);
    assert_eq!(catalog.order_items[1].order_id, 2);
    assert_eq!(catalog.order_items[1].product_id, 2);
    assert_eq!(catalog.order_items[2].product_id, 1);
    assert_eq!(stock(&catalog, 1), 3);
    assert_eq!(stock(&catalog, 2), 3);
}

#[test]
fn price_is_captured_at_order_time() {
    let mut catalog = Catalog::new(vec![product(1, "Mug", 1000, 5)]);
    let mut cart = Cart::new();
    cart.add_item(1, 1);
    catalog.place_order(&mut cart, customer(), String::new()).unwrap();
    catalog.products[0].price_cents = 5000;
    assert_eq!(catalog.order_items[0].price_cents, 1000);
    assert_eq!(catalog.orders[0].total_cents, 1000);
}

#[test]
fn fetch_product_finds_by_id() {
    let catalog = Catalog::new(vec![product(1, "Mug", 1000, 5), product(2, "Lamp", 2500, 0)]);
    assert_eq!(catalog.fetch_product(2).unwrap().name, "Lamp");
    assert!(catalog.fetch_product(3).is_none());
}

#[test]
fn plan_prices_lines_in_cart_order() {
    let mut cart = Cart::new();
    cart.add_item(2, 3);
    cart.add_item(1, 2);
    let found = vec![Some(product(2, "Lamp", 2500, 3)), Some(product(1, "Mug", 1000, 5))];
    let plan = plan_order(&cart, &found).unwrap();
    assert_eq!(plan.total_cents, 9500);
    assert_eq!(plan.lines.len(), 2);
    assert_eq!(plan.lines[0].product_id, 2);
    assert_eq!(plan.lines[0].price_cents, 2500);
    assert_eq!(plan.lines[0].quantity, 3);
    assert_eq!(plan.lines[0].product_name, "Lamp");
    assert_eq!(plan.lines[1].product_id, 1);
}

#[test]
fn plan_reports_earliest_failure() {
    let mut cart = Cart::new();
    cart.add_item(1, 2);
    cart.add_item(2, 1);
    cart.add_item(3, 1);
    let found = vec![Some(product(1, "Mug", 1000, 5)), Some(product(2, "Lamp", 2500, 0)), None];
    assert!(matches!(plan_order(&cart, &found), Err(AppError::InsufficientStock(n)) if n == "Lamp"));
    let found = vec![Some(product(1, "Mug", 1000, 5)), None, Some(product(3, "Pen", 100, 0))];
    assert!(matches!(plan_order(&cart, &found), Err(AppError::NotFound)));
}

#[test]
fn status_codes_by_category() {
    assert_eq!(AppError::NotFound.status_code(), 404);
    assert_eq!(AppError::BadRequest("x".to_string()).status_code(), 400);
    assert_eq!(AppError::InsufficientStock("x".to_string()).status_code(), 400);
    assert_eq!(AppError::DatabaseError("x".to_string()).status_code(), 500);
    assert_eq!(AppError::InternalError.status_code(), 500);
    assert_eq!(AppError::SessionError.status_code(), 500);
}
