//! An in-memory catalog store: products, orders and order items, with order
//! placement that checks, prices and decrements stock as one step.
use vstd::prelude::*;
use vstd::string::StringExecFns;

use crate::errors::AppError;
use crate::models::{Cart, CartItem, Order, OrderItem, Product};
use crate::orders::{lines_total, plan_order, plan_prefix, plan_spec, CreateOrder, OrderLine};

verus! {

/// Products, and the orders placed against them.
pub struct Catalog {
    pub products: Vec<Product>,
    pub orders: Vec<Order>,
    pub order_items: Vec<OrderItem>,
}

/// Some product of `ps` has id `id`.
pub open spec fn has_id(ps: Seq<Product>, id: i32) -> bool {
    exists|i: int| 0 <= i < ps.len() && ps[i].id == id
}

pub open spec fn is_first_id(ps: Seq<Product>, id: i32, i: int) -> bool {
    &&& 0 <= i < ps.len()
    &&& ps[i].id == id
    &&& forall|j: int| 0 <= j < i ==> ps[j].id != id
}

/// The earliest position of product `id` (meaningful when `has_id(ps, id)`).
pub open spec fn first_id(ps: Seq<Product>, id: i32) -> int {
    choose|i: int| is_first_id(ps, id, i)
}

/// The product with id `id`, if there is one.
pub open spec fn lookup_spec(ps: Seq<Product>, id: i32) -> Option<Product> {
    if has_id(ps, id) {
        Some(ps[first_id(ps, id)])
    } else {
        None
    }
}

/// What a read of each cart item's product gives.
pub open spec fn lookups(ps: Seq<Product>, items: Seq<CartItem>) -> Seq<Option<Product>> {
    Seq::new(items.len(), |i: int| lookup_spec(ps, items[i].product_id))
}

pub open spec fn stocks_of(ps: Seq<Product>) -> Seq<i32> {
    Seq::new(ps.len(), |i: int| ps[i].stock_quantity)
}

/// The stock left after taking `quantity` from `stock`, when at least that
/// much is there.
pub open spec fn take_stock(stock: i32, quantity: i32) -> Option<i32> {
    if quantity <= stock && stock - quantity <= i32::MAX {
        Some((stock - quantity) as i32)
    } else {
        None
    }
}

/// The stock counters after taking one line's quantity from its product.
pub open spec fn decrement(ps: Seq<Product>, stocks: Seq<i32>, line: OrderLine) -> Result<Seq<i32>, AppError> {
    if has_id(ps, line.product_id) {
        let i = first_id(ps, line.product_id);
        match take_stock(stocks[i], line.quantity) {
            Some(left) => Ok(stocks.update(i, left)),
            None => Err(AppError::InsufficientStock(line.product_name)),
        }
    } else {
        Err(AppError::NotFound)
    }
}

/// The stock counters after the first `n` lines, or the failure of the
/// earliest line that cannot be served.
pub open spec fn decrement_prefix(ps: Seq<Product>, lines: Seq<OrderLine>, n: nat) -> Result<Seq<i32>, AppError>
    decreases n,
{
    if n == 0 {
        Ok(stocks_of(ps))
    } else {
        match decrement_prefix(ps, lines, (n - 1) as nat) {
            Err(e) => Err(e),
            Ok(stocks) => decrement(ps, stocks, lines[n - 1]),
        }
    }
}

/// What placing an order for `items` does: the priced lines and the stock
/// counters afterwards, or why nothing is placed.
pub open spec fn place_spec(ps: Seq<Product>, items: Seq<CartItem>) -> Result<(Seq<OrderLine>, Seq<i32>), AppError> {
    match plan_spec(items, lookups(ps, items)) {
        Err(e) => Err(e),
        Ok(lines) => match decrement_prefix(ps, lines, lines.len()) {
            Err(e) => Err(e),
            Ok(stocks) => Ok((lines, stocks)),
        },
    }
}

/// `ps` with the stock counters replaced by `stocks`.
pub open spec fn restocked(ps: Seq<Product>, stocks: Seq<i32>) -> Seq<Product> {
    Seq::new(
        ps.len(),
        |i: int| Product { stock_quantity: stocks[i], ..ps[i] },
    )
}

/// The order item that records `line` under order `order_id`.
pub open spec fn item_of(order_id: i64, line: OrderLine) -> OrderItem {
    OrderItem {
        order_id,
        product_id: line.product_id,
        quantity: line.quantity,
        price_cents: line.price_cents,
    }
}

/// `o` is the pending order `id` for `total` cents placed with `data`.
pub open spec fn is_new_order(o: Order, id: i64, total: int, data: CreateOrder, placed_at: String) -> bool {
    &&& o.id == id
    &&& o.total_cents == total
    &&& o.status@ == "pending"@
    &&& o.customer_name == data.customer_name
    &&& o.customer_email == data.customer_email
    &&& o.shipping_address == data.shipping_address
    &&& o.created_at == placed_at
    &&& o.updated_at == placed_at
}

proof fn lemma_decrement_failure_sticks(ps: Seq<Product>, lines: Seq<OrderLine>, n: nat, m: nat)
    requires
        n <= m,
        decrement_prefix(ps, lines, n) is Err,
    ensures
        decrement_prefix(ps, lines, m) == decrement_prefix(ps, lines, n),
    decreases m - n,
{
    if n < m {
        lemma_decrement_failure_sticks(ps, lines, n, (m - 1) as nat);
    }
}

proof fn lemma_first_id_is(ps: Seq<Product>, id: i32, i: int)
    requires
        is_first_id(ps, id, i),
    ensures
        has_id(ps, id),
        first_id(ps, id) == i,
{
    let k = first_id(ps, id);
    assert(is_first_id(ps, id, k));
    if k < i {
        assert(ps[k].id != id);
    } else if i < k {
        assert(ps[i].id != id);
    }
}

impl Catalog {
    /// A store with the given products and no orders.
    pub fn new(products: Vec<Product>) -> (r: Catalog)
        ensures
            r.products@ == products@,
            r.orders@.len() == 0,
            r.order_items@.len() == 0,
    {
        Catalog { products, orders: Vec::new(), order_items: Vec::new() }
    }

    fn find(&self, id: i32) -> (r: Option<usize>)
        ensures
            match r {
                Some(i) => is_first_id(self.products@, id, i as int),
                None => !has_id(self.products@, id),
            },
    {
        let mut i: usize = 0;
        while i < self.products.len()
            invariant
                0 <= i <= self.products@.len(),
                forall|j: int| 0 <= j < i ==> self.products@[j].id != id,
            decreases self.products@.len() - i,
        {
            if self.products[i].id == id {
                return Some(i);
            }
            i = i + 1;
        }
        None
    }

    /// The current state of product `id`.
    pub fn fetch_product(&self, id: i32) -> (r: Option<Product>)
        ensures
            r == lookup_spec(self.products@, id),
    {
        match self.find(id) {
            Some(i) => {
                proof {
                    lemma_first_id_is(self.products@, id, i as int);
                }
                Some(self.products[i].clone())
            },
            None => None,
        }
    }

    /// Places an order for the cart's items. Every item's product is read
    /// and checked first: the earliest missing product gives `NotFound`, the
    /// earliest with too little stock `InsufficientStock`. The stock is then
    /// taken line by line; if any line cannot be served, nothing is written.
    /// Otherwise the stock counters drop, a pending order with the next id
    /// and the computed total is stored together with one order item per
    /// line at the price read, the cart is emptied, and the order's id and
    /// total come back. On failure neither the store nor the cart changes.
    pub fn place_order(&mut self, cart: &mut Cart, data: CreateOrder, placed_at: String) -> (r: Result<(i64, i128), AppError>)
        requires
            old(self).orders@.len() < i64::MAX,
        ensures
            match place_spec(old(self).products@, old(cart)@) {
                Err(e) => {
                    &&& r == Err::<(i64, i128), AppError>(e)
                    &&& final(self).products@ == old(self).products@
                    &&& final(self).orders@ == old(self).orders@
                    &&& final(self).order_items@ == old(self).order_items@
                    &&& final(cart)@ == old(cart)@
                },
                Ok((lines, stocks)) => {
                    let id = (old(self).orders@.len() + 1) as i64;
                    &&& r == Ok::<(i64, i128), AppError>((id, lines_total(lines) as i128))
                    &&& final(self).products@ == restocked(old(self).products@, stocks)
                    &&& final(self).orders@.len() == old(self).orders@.len() + 1
                    &&& final(self).orders@.drop_last() == old(self).orders@
                    &&& is_new_order(final(self).orders@.last(), id, lines_total(lines), data, placed_at)
                    &&& final(self).order_items@ == old(self).order_items@ + lines.map_values(
                        |l: OrderLine| item_of(id, l),
                    )
                    &&& final(cart)@ == Seq::<CartItem>::empty()
                },
            },
    {
        let ghost ps = self.products@;
        let mut found: Vec<Option<Product>> = Vec::new();
        let mut i: usize = 0;
        while i < cart.items.len()
            invariant
                0 <= i <= cart@.len(),
                found@.len() == i,
                self.products@ == ps,
                self.orders@ == old(self).orders@,
                self.order_items@ == old(self).order_items@,
                cart@ == old(cart)@,
                forall|j: int| 0 <= j < i ==> found@[j] == lookup_spec(ps, cart@[j].product_id),
            decreases cart@.len() - i,
        {
            let p = self.fetch_product(cart.items[i].product_id);
            found.push(p);
            i = i + 1;
        }
        assert(found@ =~= lookups(ps, cart@));
        let plan = match plan_order(cart, &found) {
            Ok(plan) => plan,
            Err(e) => {
                return Err(e);
            },
        };
        let ghost lines = plan.lines@;

        let mut stocks: Vec<i32> = Vec::new();
        let mut i: usize = 0;
        while i < self.products.len()
            invariant
                0 <= i <= ps.len(),
                self.products@ == ps,
                self.orders@ == old(self).orders@,
                self.order_items@ == old(self).order_items@,
                cart@ == old(cart)@,
                stocks@ =~= stocks_of(ps).take(i as int),
            decreases ps.len() - i,
        {
            stocks.push(self.products[i].stock_quantity);
            i = i + 1;
        }
        assert(stocks@ =~= stocks_of(ps));

        let mut k: usize = 0;
        while k < plan.lines.len()
            invariant
                0 <= k <= lines.len(),
                plan.lines@ == lines,
                plan.total_cents == lines_total(lines),
                plan_spec(cart@, lookups(ps, cart@)) == Ok::<Seq<OrderLine>, AppError>(lines),
                self.products@ == ps,
                self.orders@ == old(self).orders@,
                self.order_items@ == old(self).order_items@,
                cart@ == old(cart)@,
                stocks@.len() == ps.len(),
                decrement_prefix(ps, lines, k as nat) == Ok::<Seq<i32>, AppError>(stocks@),
            decreases lines.len() - k,
        {
            let line = &plan.lines[k];
            assert(decrement_prefix(ps, lines, (k + 1) as nat) == decrement(ps, stocks@, lines[k as int]));
            match self.find(line.product_id) {
                None => {
                    proof {
                        lemma_decrement_failure_sticks(ps, lines, (k + 1) as nat, lines.len());
                    }
                    return Err(AppError::NotFound);
                },
                Some(j) => {
                    proof {
                        lemma_first_id_is(ps, line.product_id, j as int);
                    }
                    let st = stocks[j];
                    let left: i64 = (st as i64) - (line.quantity as i64);
                    if line.quantity <= st && left <= 0x7fff_ffff {
                        stocks[j] = left as i32;
                    } else {
                        proof {
                            lemma_decrement_failure_sticks(ps, lines, (k + 1) as nat, lines.len());
                        }
                        return Err(AppError::InsufficientStock(line.product_name.clone()));
                    }
                },
            }
            k = k + 1;
        }
        let ghost new_stocks = stocks@;
        assert(decrement_prefix(ps, lines, lines.len()) == Ok::<Seq<i32>, AppError>(new_stocks));

        let id: i64 = (self.orders.len() as i64) + 1;
        let mut j: usize = 0;
        while j < self.products.len()
            invariant
                0 <= j <= ps.len(),
                stocks@ == new_stocks,
                new_stocks.len() == ps.len(),
                self.orders@ == old(self).orders@,
                self.order_items@ == old(self).order_items@,
                cart@ == old(cart)@,
                plan_spec(cart@, lookups(ps, cart@)) == Ok::<Seq<OrderLine>, AppError>(lines),
                plan.lines@ == lines,
                plan.total_cents == lines_total(lines),
                self.products@.len() == ps.len(),
                forall|t: int| 0 <= t < j ==> self.products@[t] == restocked(ps, new_stocks)[t],
                forall|t: int| j <= t < ps.len() ==> self.products@[t] == ps[t],
            decreases ps.len() - j,
        {
            self.products[j].stock_quantity = stocks[j];
            j = j + 1;
        }
        assert(self.products@ =~= restocked(ps, new_stocks));

        let ghost items0 = self.order_items@;
        let mut k: usize = 0;
        while k < plan.lines.len()
            invariant
                0 <= k <= lines.len(),
                plan.lines@ == lines,
                self.orders@ == old(self).orders@,
                self.products@ == restocked(ps, new_stocks),
                cart@ == old(cart)@,
                plan_spec(cart@, lookups(ps, cart@)) == Ok::<Seq<OrderLine>, AppError>(lines),
                decrement_prefix(ps, lines, lines.len()) == Ok::<Seq<i32>, AppError>(new_stocks),
                plan.total_cents == lines_total(lines),
                self.order_items@ =~= items0 + lines.take(k as int).map_values(|l: OrderLine| item_of(id, l)),
            decreases lines.len() - k,
        {
            let line = &plan.lines[k];
            self.order_items.push(
                OrderItem {
                    order_id: id,
                    product_id: line.product_id,
                    quantity: line.quantity,
                    price_cents: line.price_cents,
                },
            );
            k = k + 1;
        }
        assert(lines.take(lines.len() as int) =~= lines);

        let ghost orders0 = self.orders@;
        self.orders.push(
            Order {
                id,
                total_cents: plan.total_cents,
                status: String::from_str("pending"),
                customer_name: data.customer_name,
                customer_email: data.customer_email,
                shipping_address: data.shipping_address,
                created_at: placed_at.clone(),
                updated_at: placed_at,
            },
        );
        assert(self.orders@.drop_last() =~= orders0);
        cart.clear();
        Ok((id, plan.total_cents))
    }
}

proof fn lemma_decrements_non_negative(ps: Seq<Product>, lines: Seq<OrderLine>, n: nat)
    requires
        forall|i: int| 0 <= i < ps.len() ==> ps[i].stock_quantity >= 0,
    ensures
        decrement_prefix(ps, lines, n) matches Ok(stocks) ==> stocks.len() == ps.len() && forall|i: int|
            0 <= i < stocks.len() ==> stocks[i] >= 0,
    decreases n,
{
    if n > 0 {
        lemma_decrements_non_negative(ps, lines, (n - 1) as nat);
        let id = lines[n - 1].product_id;
        if has_id(ps, id) {
            let k = choose|k: int| 0 <= k < ps.len() && ps[k].id == id;
            lemma_has_first_id(ps, id, k);
        }
    }
}

/// No placed order drives a stock counter below zero: if every product has
/// non-negative stock before, every one has non-negative stock after.
pub proof fn lemma_stock_never_negative(ps: Seq<Product>, items: Seq<CartItem>)
    requires
        forall|i: int| 0 <= i < ps.len() ==> ps[i].stock_quantity >= 0,
    ensures
        place_spec(ps, items) matches Ok((lines, stocks)) ==> forall|i: int|
            0 <= i < restocked(ps, stocks).len() ==> restocked(ps, stocks)[i].stock_quantity >= 0,
{
    if let Ok(lines) = plan_spec(items, lookups(ps, items)) {
        lemma_decrements_non_negative(ps, lines, lines.len());
    }
}

/// Two orders, one after the other, that each ask for the last unit of a
/// product: the first is placed and leaves no stock, the second fails with
/// `InsufficientStock` and cannot oversell.
pub proof fn lemma_last_unit_sold_once(ps: Seq<Product>, items: Seq<CartItem>, p: i32)
    requires
        has_id(ps, p),
        ps[first_id(ps, p)].stock_quantity == 1,
        items.len() == 1,
        items[0].product_id == p,
        items[0].quantity == 1,
    ensures
        place_spec(ps, items) matches Ok((lines, stocks)) && ({
            let after = restocked(ps, stocks);
            &&& after[first_id(ps, p)].stock_quantity == 0
            &&& place_spec(after, items) == Err::<(Seq<OrderLine>, Seq<i32>), AppError>(
                AppError::InsufficientStock(ps[first_id(ps, p)].name),
            )
        }),
{
    let k = choose|i: int| 0 <= i < ps.len() && ps[i].id == p;
    assert(is_first_id(ps, p, first_id(ps, p))) by {
        lemma_has_first_id(ps, p, k);
    }
    let i = first_id(ps, p);
    let prod = ps[i];
    assert(lookups(ps, items)[0] == Some(prod));
    let line = OrderLine { product_id: p, product_name: prod.name, quantity: 1, price_cents: prod.price_cents };
    assert(plan_prefix(items, lookups(ps, items), 0) == Ok::<Seq<OrderLine>, AppError>(Seq::empty()));
    assert(plan_prefix(items, lookups(ps, items), 1) == Ok::<Seq<OrderLine>, AppError>(seq![line])) by {
        assert(Seq::<OrderLine>::empty().push(line) =~= seq![line]);
    }
    let lines = seq![line];
    let stocks = stocks_of(ps).update(i, 0);
    assert(decrement_prefix(ps, lines, 0) == Ok::<Seq<i32>, AppError>(stocks_of(ps)));
    assert(decrement_prefix(ps, lines, 1) == Ok::<Seq<i32>, AppError>(stocks));
    let after = restocked(ps, stocks);
    assert(is_first_id(after, p, i));
    lemma_first_id_is(after, p, i);
    assert(lookups(after, items)[0] == Some(after[i]));
    assert(plan_prefix(items, lookups(after, items), 0) == Ok::<Seq<OrderLine>, AppError>(Seq::empty()));
    assert(plan_prefix(items, lookups(after, items), 1) == Err::<Seq<OrderLine>, AppError>(
        AppError::InsufficientStock(prod.name),
    ));
}

proof fn lemma_has_first_id(ps: Seq<Product>, id: i32, i: int)
    requires
        0 <= i < ps.len(),
        ps[i].id == id,
    ensures
        is_first_id(ps, id, first_id(ps, id)),
    decreases i,
{
    if forall|j: int| 0 <= j < i ==> ps[j].id != id {
        assert(is_first_id(ps, id, i));
    } else {
        let j = choose|j: int| 0 <= j < i && ps[j].id == id;
        lemma_has_first_id(ps, id, j);
    }
}

} // verus!
