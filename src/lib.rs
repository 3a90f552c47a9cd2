//! Shopping cart and order placement for a small storefront.
//!
//! The cart is a plain value that the session layer stores between requests;
//! order placement checks a cart against current stock, prices it and applies
//! the stock decrements in one step.
pub mod cart;
pub mod catalog;
pub mod datetime;
pub mod errors;
pub mod models;
pub mod orders;
pub mod requests;

pub use catalog::Catalog;
pub use datetime::SqliteDateTime;
pub use errors::AppError;
pub use models::{Cart, CartItem, Category, CreateCategory, CreateProduct, Order, OrderItem, Product};
pub use orders::{plan_order, CreateOrder, OrderLine, OrderPlan};
pub use requests::{
    add_to_cart_checked, attach_products, check_decrement, check_deleted, needs_stock_check,
    pattern_for, update_cart_checked, AddCartItem, SearchQuery, UpdateCartItem,
};
