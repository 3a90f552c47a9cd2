//! What the cart and order endpoints decide once the products they refer to
//! have been read.
use vstd::prelude::*;
use vstd::string::StringExecFns;

use crate::cart::{add_spec, quantity_of, remove_spec, update_spec};
use crate::errors::AppError;
use crate::models::{Cart, CartItem, Product};
use crate::orders::OrderLine;

verus! {

/// A request to put some quantity of a product in the cart.
pub struct AddCartItem {
    pub product_id: i32,
    pub quantity: i32,
}

/// A request to set the quantity of a product in the cart.
pub struct UpdateCartItem {
    pub quantity: i32,
}

/// A catalog search.
pub struct SearchQuery {
    pub q: String,
}

/// What `str::trim` leaves of a text: it without leading and trailing
/// whitespace.
pub uninterp spec fn trimmed(s: Seq<char>) -> Seq<char>;

/// `part` is a contiguous stretch of `whole`.
pub open spec fn is_slice_of(part: Seq<char>, whole: Seq<char>) -> bool {
    exists|i: int, j: int| 0 <= i <= j <= whole.len() && part == whole.subrange(i, j)
}

/// Relies on `str::trim`: the text without leading and trailing whitespace,
/// as a slice of the text itself.
#[verifier::external_body]
fn trim(s: &str) -> (r: &str)
    ensures
        r@ == trimmed(s@),
        is_slice_of(r@, s@),
{
    s.trim()
}

/// A LIKE pattern that matches `term` anywhere in a text.
pub open spec fn anywhere_pattern(term: Seq<char>) -> Seq<char> {
    seq!['%'] + term + seq!['%']
}

/// The LIKE pattern that finds `term` anywhere in a text.
pub fn pattern_for(term: &str) -> (r: String)
    ensures
        r@ == anywhere_pattern(term@),
{
    proof {
        reveal_strlit("%");
    }
    let mut r = String::from_str("%");
    r.append(term);
    r.append("%");
    r
}

impl SearchQuery {
    /// The LIKE pattern that finds the query, trimmed, anywhere in a text.
    pub fn like_pattern(&self) -> (r: String)
        ensures
            r@ == anywhere_pattern(trimmed(self.q@)),
    {
        pattern_for(trim(self.q.as_str()))
    }
}

/// Adds the requested item when its product exists, the quantity is positive
/// and the product has at least that much stock. The checks come in this
/// order: `NotFound` when the product does not exist, `BadRequest` for a
/// quantity of zero or less, `InsufficientStock` when its stock is lower,
/// `BadRequest` when the resulting quantity would not fit the counter. On any
/// error the cart is left as it was.
pub fn add_to_cart_checked(cart: &mut Cart, item: &AddCartItem, product: &Option<Product>) -> (r: Result<(), AppError>)
    ensures
        match product {
            None => r == Err::<(), AppError>(AppError::NotFound) && final(cart)@ == old(cart)@,
            Some(p) => if item.quantity <= 0 {
                r matches Err(AppError::BadRequest(_)) && final(cart)@ == old(cart)@
            } else if p.stock_quantity < item.quantity {
                r == Err::<(), AppError>(AppError::InsufficientStock(p.name)) && final(cart)@ == old(cart)@
            } else if quantity_of(old(cart)@, item.product_id) + item.quantity > i32::MAX
                || quantity_of(old(cart)@, item.product_id) + item.quantity < i32::MIN {
                r matches Err(AppError::BadRequest(_)) && final(cart)@ == old(cart)@
            } else {
                r is Ok && final(cart)@ == add_spec(old(cart)@, item.product_id, item.quantity as int)
            },
        },
{
    match product {
        None => Err(AppError::NotFound),
        Some(p) => {
            if item.quantity <= 0 {
                return Err(AppError::BadRequest(String::from_str("quantity must be positive")));
            }
            if p.stock_quantity < item.quantity {
                return Err(AppError::InsufficientStock(p.name.clone()));
            }
            let held = cart.quantity_of(item.product_id) as i64;
            let wanted = held + item.quantity as i64;
            if wanted > 0x7fff_ffff || wanted < -0x8000_0000 {
                return Err(AppError::BadRequest(String::from_str("quantity out of range")));
            }
            cart.add_item(item.product_id, item.quantity);
            Ok(())
        },
    }
}

/// Whether setting this quantity needs the product's stock: only a positive
/// quantity does, as anything else removes the product.
pub fn needs_stock_check(quantity: i32) -> (r: bool)
    ensures
        r == (quantity > 0),
{
    quantity > 0
}

/// Sets a product's quantity in the cart. A quantity of zero or less removes
/// the product without looking at `product`; a positive one needs the product
/// to exist (`NotFound`) with at least that much stock (`InsufficientStock`).
/// On any error the cart is left as it was.
pub fn update_cart_checked(cart: &mut Cart, product_id: i32, update: &UpdateCartItem, product: &Option<Product>) -> (r: Result<(), AppError>)
    ensures
        if update.quantity <= 0 {
            r is Ok && final(cart)@ == remove_spec(old(cart)@, product_id)
        } else {
            match product {
                None => r == Err::<(), AppError>(AppError::NotFound) && final(cart)@ == old(cart)@,
                Some(p) => if p.stock_quantity < update.quantity {
                    r == Err::<(), AppError>(AppError::InsufficientStock(p.name)) && final(cart)@ == old(cart)@
                } else {
                    r is Ok && final(cart)@ == update_spec(old(cart)@, product_id, update.quantity as int)
                },
            }
        },
{
    if !needs_stock_check(update.quantity) {
        cart.remove_item(product_id);
        return Ok(());
    }
    match product {
        None => Err(AppError::NotFound),
        Some(p) => {
            if p.stock_quantity < update.quantity {
                return Err(AppError::InsufficientStock(p.name.clone()));
            }
            cart.update_quantity(product_id, update.quantity);
            Ok(())
        },
    }
}

/// Gives each item the product just read for it, `products[i]` being what
/// was read for item `i`: an item whose product was not found carries no
/// snapshot afterwards, whatever it carried before.
pub fn attach_products(cart: &mut Cart, products: Vec<Option<Product>>)
    requires
        products@.len() == old(cart)@.len(),
    ensures
        final(cart)@.len() == old(cart)@.len(),
        forall|i: int|
            0 <= i < old(cart)@.len() ==> final(cart)@[i] == (CartItem {
                product: products@[i],
                ..old(cart)@[i]
            }),
{
    let mut products = products;
    let ghost fetched = products@;
    let mut i: usize = products.len();
    while i > 0
        invariant
            0 <= i <= fetched.len(),
            fetched.len() == old(cart)@.len(),
            products@ == fetched.take(i as int),
            cart@.len() == old(cart)@.len(),
            forall|j: int| 0 <= j < i ==> cart@[j] == old(cart)@[j],
            forall|j: int|
                i <= j < fetched.len() ==> cart@[j] == (CartItem {
                    product: fetched[j],
                    ..old(cart)@[j]
                }),
        decreases i,
    {
        let fetched_one = products.pop();
        i = i - 1;
        assert(products@ =~= fetched.take(i as int));
        match fetched_one {
            Some(found) => {
                cart.items[i].product = found;
            },
            None => {},
        }
    }
}

/// The outcome of taking one line's quantity from its product's stock with a
/// conditional update that touches a row only when enough stock is left.
/// No row touched means the product was deleted since it was read
/// (`NotFound`) or its stock ran out since it was checked
/// (`InsufficientStock`); `still_exists` says which, as read after the update.
pub fn check_decrement(rows_affected: u64, still_exists: bool, line: &OrderLine) -> (r: Result<(), AppError>)
    ensures
        rows_affected > 0 ==> r is Ok,
        rows_affected == 0 && !still_exists ==> r == Err::<(), AppError>(AppError::NotFound),
        rows_affected == 0 && still_exists ==> r == Err::<(), AppError>(
            AppError::InsufficientStock(line.product_name),
        ),
{
    if rows_affected > 0 {
        Ok(())
    } else if !still_exists {
        Err(AppError::NotFound)
    } else {
        Err(AppError::InsufficientStock(line.product_name.clone()))
    }
}

/// The outcome of a delete: `NotFound` when no row was removed.
pub fn check_deleted(rows_affected: u64) -> (r: Result<(), AppError>)
    ensures
        rows_affected == 0 ==> r == Err::<(), AppError>(AppError::NotFound),
        rows_affected > 0 ==> r is Ok,
{
    if rows_affected == 0 {
        Err(AppError::NotFound)
    } else {
        Ok(())
    }
}

} // verus!
