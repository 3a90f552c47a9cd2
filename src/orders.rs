//! Pricing a cart against current stock, before anything is written.
use vstd::prelude::*;

use crate::errors::AppError;
use crate::models::{Cart, CartItem, Product};

verus! {

/// The customer details that come with an order.
pub struct CreateOrder {
    pub customer_name: String,
    pub customer_email: String,
    pub shipping_address: String,
}

/// One line of an order about to be placed: the price is the product's price
/// at this moment, kept with the line.
#[derive(Debug)]
pub struct OrderLine {
    pub product_id: i32,
    pub product_name: String,
    pub quantity: i32,
    pub price_cents: u32,
}

/// A cart checked against stock: its lines in cart order and their total.
#[derive(Debug)]
pub struct OrderPlan {
    pub lines: Vec<OrderLine>,
    pub total_cents: i128,
}

/// Checks one cart item against the product it refers to, as just read.
pub open spec fn check_line(item: CartItem, product: Option<Product>) -> Result<OrderLine, AppError> {
    match product {
        None => Err(AppError::NotFound),
        Some(p) => if p.stock_quantity < item.quantity {
            Err(AppError::InsufficientStock(p.name))
        } else {
            Ok(
                OrderLine {
                    product_id: item.product_id,
                    product_name: p.name,
                    quantity: item.quantity,
                    price_cents: p.price_cents,
                },
            )
        },
    }
}

/// The lines of the first `n` items, or the error of the earliest item that
/// fails its check.
pub open spec fn plan_prefix(items: Seq<CartItem>, products: Seq<Option<Product>>, n: nat) -> Result<
    Seq<OrderLine>,
    AppError,
>
    decreases n,
{
    if n == 0 {
        Ok(Seq::empty())
    } else {
        match plan_prefix(items, products, (n - 1) as nat) {
            Err(e) => Err(e),
            Ok(lines) => match check_line(items[n - 1], products[n - 1]) {
                Err(e) => Err(e),
                Ok(line) => Ok(lines.push(line)),
            },
        }
    }
}

/// The outcome of checking every item of a cart, in order.
pub open spec fn plan_spec(items: Seq<CartItem>, products: Seq<Option<Product>>) -> Result<
    Seq<OrderLine>,
    AppError,
> {
    plan_prefix(items, products, items.len())
}

/// The amount of one line, in cents.
pub open spec fn line_amount(line: OrderLine) -> int {
    line.price_cents * line.quantity
}

/// The sum of the lines' amounts, in cents.
pub open spec fn lines_total(lines: Seq<OrderLine>) -> int
    decreases lines.len(),
{
    if lines.len() == 0 {
        0
    } else {
        lines_total(lines.drop_last()) + line_amount(lines.last())
    }
}

/// Once an item fails, the outcome of every longer prefix is that failure.
proof fn lemma_failure_sticks(items: Seq<CartItem>, products: Seq<Option<Product>>, n: nat, m: nat)
    requires
        n <= m,
        plan_prefix(items, products, n) is Err,
    ensures
        plan_prefix(items, products, m) == plan_prefix(items, products, n),
    decreases m - n,
{
    if n < m {
        lemma_failure_sticks(items, products, n, (m - 1) as nat);
    }
}

/// Checks a cart against the products its items refer to, `products[i]` being
/// what was read for item `i` (`None` when that product no longer exists).
/// The earliest item whose product is missing gives `NotFound`, and the
/// earliest whose stock is below the quantity asked gives `InsufficientStock`;
/// otherwise every item becomes a line priced at the product's current price,
/// and the total is the sum of price times quantity.
pub fn plan_order(cart: &Cart, products: &Vec<Option<Product>>) -> (r: Result<OrderPlan, AppError>)
    requires
        products@.len() == cart@.len(),
    ensures
        match r {
            Ok(plan) => plan_spec(cart@, products@) == Ok::<Seq<OrderLine>, AppError>(plan.lines@)
                && plan.total_cents == lines_total(plan.lines@),
            Err(e) => plan_spec(cart@, products@) == Err::<Seq<OrderLine>, AppError>(e),
        },
{
    let mut lines: Vec<OrderLine> = Vec::new();
    let mut total: i128 = 0;
    let mut i: usize = 0;
    while i < cart.items.len()
        invariant
            0 <= i <= cart@.len(),
            products@.len() == cart@.len(),
            plan_prefix(cart@, products@, i as nat) == Ok::<Seq<OrderLine>, AppError>(lines@),
            total == lines_total(lines@),
            lines@.len() == i,
            -(i as int) * 0x8000_0000_0000_0000 <= total <= (i as int) * 0x8000_0000_0000_0000,
        decreases cart@.len() - i,
    {
        let item = &cart.items[i];
        match &products[i] {
            None => {
                proof {
                    lemma_failure_sticks(cart@, products@, (i + 1) as nat, cart@.len());
                }
                return Err(AppError::NotFound);
            },
            Some(p) => {
                if p.stock_quantity < item.quantity {
                    proof {
                        lemma_failure_sticks(cart@, products@, (i + 1) as nat, cart@.len());
                    }
                    return Err(AppError::InsufficientStock(p.name.clone()));
                }
                let price = p.price_cents;
                let q = item.quantity;
                assert(-0x8000_0000_0000_0000 <= price * q <= 0x8000_0000_0000_0000) by (nonlinear_arith)
                    requires
                        0 <= price <= 0xffff_ffff,
                        -0x8000_0000 <= q <= 0x7fff_ffff,
                ;
                assert((i as int) * 0x8000_0000_0000_0000 + 0x8000_0000_0000_0000 == (i + 1)
                    * 0x8000_0000_0000_0000);
                let line = OrderLine {
                    product_id: item.product_id,
                    product_name: p.name.clone(),
                    quantity: q,
                    price_cents: price,
                };
                let ghost before = lines@;
                lines.push(line);
                assert(lines@.drop_last() =~= before);
                total = total + (price as i128) * (q as i128);
            },
        }
        i = i + 1;
    }
    Ok(OrderPlan { lines, total_cents: total })
}

} // verus!
