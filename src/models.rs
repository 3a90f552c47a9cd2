//! The data that the cart and the order logic read and write.
use vstd::prelude::*;

verus! {

/// A product category.
#[derive(Clone, Debug)]
pub struct Category {
    pub id: i32,
    pub name: String,
    pub description: Option<String>,
    pub created_at: String,
    pub updated_at: String,
}

/// The fields an administrator supplies to create or replace a product.
#[derive(Clone, Debug)]
pub struct CreateProduct {
    pub name: String,
    pub description: Option<String>,
    pub price_cents: u32,
    pub stock_quantity: i32,
    pub category_id: Option<i32>,
    pub image_url: Option<String>,
}

/// The fields an administrator supplies to create or replace a category.
#[derive(Clone, Debug)]
pub struct CreateCategory {
    pub name: String,
    pub description: Option<String>,
}

/// A catalog product. Prices are held in cents.
#[derive(Debug)]
pub struct Product {
    pub id: i32,
    pub name: String,
    pub description: Option<String>,
    pub price_cents: u32,
    pub stock_quantity: i32,
    pub category_id: Option<i32>,
    pub image_url: Option<String>,
    pub created_at: String,
    pub updated_at: String,
}

impl Clone for Product {
    fn clone(&self) -> (r: Product)
        ensures
            r == *self,
    {
        Product {
            id: self.id,
            name: self.name.clone(),
            description: clone_text(&self.description),
            price_cents: self.price_cents,
            stock_quantity: self.stock_quantity,
            category_id: self.category_id,
            image_url: clone_text(&self.image_url),
            created_at: self.created_at.clone(),
            updated_at: self.updated_at.clone(),
        }
    }
}

fn clone_text(t: &Option<String>) -> (r: Option<String>)
    ensures
        r == *t,
{
    match t {
        Some(s) => Some(s.clone()),
        None => None,
    }
}

/// A placed order. The total is fixed when the order is placed.
#[derive(Debug)]
pub struct Order {
    pub id: i64,
    pub total_cents: i128,
    pub status: String,
    pub customer_name: String,
    pub customer_email: String,
    pub shipping_address: String,
    pub created_at: String,
    pub updated_at: String,
}

/// One line of a placed order, with the price that held when it was placed.
#[derive(Debug, Clone, Copy, PartialEq, Eq)]
pub struct OrderItem {
    pub order_id: i64,
    pub product_id: i32,
    pub quantity: i32,
    pub price_cents: u32,
}

/// One line of a cart: a product reference, a quantity and, transiently, a
/// snapshot of the product used for display.
#[derive(Clone, Debug)]
pub struct CartItem {
    pub product_id: i32,
    pub quantity: i32,
    pub product: Option<Product>,
}

/// The shopper's pending selection, in insertion order.
#[derive(Clone, Debug)]
pub struct Cart {
    pub items: Vec<CartItem>,
}

} // verus!
