//! The cart's operations, stated over the sequence of its items.
use vstd::prelude::*;

use crate::models::{Cart, CartItem};

verus! {

impl View for Cart {
    type V = Seq<CartItem>;

    open spec fn view(&self) -> Seq<CartItem> {
        self.items@
    }
}

/// Some item of `s` refers to product `p`.
pub open spec fn has_product(s: Seq<CartItem>, p: i32) -> bool {
    exists|i: int| 0 <= i < s.len() && s[i].product_id == p
}

/// `i` is the earliest position of `s` that refers to product `p`.
pub open spec fn is_first_match(s: Seq<CartItem>, p: i32, i: int) -> bool {
    &&& 0 <= i < s.len()
    &&& s[i].product_id == p
    &&& forall|j: int| 0 <= j < i ==> s[j].product_id != p
}

/// The earliest position of `s` that refers to product `p` (meaningful when
/// `has_product(s, p)`).
pub open spec fn first_match(s: Seq<CartItem>, p: i32) -> int {
    choose|i: int| is_first_match(s, p, i)
}

/// No two items refer to the same product.
pub open spec fn unique_products(s: Seq<CartItem>) -> bool {
    forall|i: int, j: int| 0 <= i < j < s.len() ==> s[i].product_id != s[j].product_id
}

/// The quantity held for product `p`, zero when it is absent.
pub open spec fn quantity_of(s: Seq<CartItem>, p: i32) -> int {
    if has_product(s, p) {
        s[first_match(s, p)].quantity as int
    } else {
        0
    }
}

/// The set of products that the items refer to.
pub open spec fn product_ids(s: Seq<CartItem>) -> Set<i32> {
    Set::new(|p: i32| has_product(s, p))
}

pub open spec fn with_quantity(it: CartItem, q: int) -> CartItem {
    CartItem { product_id: it.product_id, quantity: q as i32, product: it.product }
}

/// Adding: the quantity of an item already present grows, else a new item is
/// appended without a product snapshot.
pub open spec fn add_spec(s: Seq<CartItem>, p: i32, q: int) -> Seq<CartItem> {
    if has_product(s, p) {
        let i = first_match(s, p);
        s.update(i, with_quantity(s[i], s[i].quantity + q))
    } else {
        s.push(CartItem { product_id: p, quantity: q as i32, product: None })
    }
}

/// Removing: every item that refers to `p` goes, the others keep their order.
pub open spec fn remove_spec(s: Seq<CartItem>, p: i32) -> Seq<CartItem> {
    s.filter(keeps(p))
}

/// The items that survive removing product `p`.
pub open spec fn keeps(p: i32) -> spec_fn(CartItem) -> bool {
    |it: CartItem| it.product_id != p
}

/// Setting a quantity: a quantity of zero or less removes the product; a
/// positive one replaces the quantity of an item already present and adds
/// nothing otherwise.
pub open spec fn update_spec(s: Seq<CartItem>, p: i32, q: int) -> Seq<CartItem> {
    if q <= 0 {
        remove_spec(s, p)
    } else if has_product(s, p) {
        let i = first_match(s, p);
        s.update(i, with_quantity(s[i], q))
    } else {
        s
    }
}

/// Clearing: no item is left.
pub open spec fn clear_spec(s: Seq<CartItem>) -> Seq<CartItem> {
    Seq::empty()
}

/// What an item with a product snapshot is worth, in cents.
pub open spec fn snapshot_value(it: CartItem) -> int {
    match it.product {
        Some(prod) => prod.price_cents * it.quantity,
        None => 0,
    }
}

/// The sum of `snapshot_value` over the items.
pub open spec fn snapshot_total(s: Seq<CartItem>) -> int
    decreases s.len(),
{
    if s.len() == 0 {
        0
    } else {
        snapshot_total(s.drop_last()) + snapshot_value(s.last())
    }
}

/// A position that is a first match is the one `first_match` picks.
pub proof fn lemma_first_match_is(s: Seq<CartItem>, p: i32, i: int)
    requires
        is_first_match(s, p, i),
    ensures
        has_product(s, p),
        first_match(s, p) == i,
{
    let k = first_match(s, p);
    assert(is_first_match(s, p, k));
    if k < i {
        assert(s[k].product_id != p);
    } else if i < k {
        assert(s[i].product_id != p);
    }
}

/// In a cart without duplicates, any position holding `p` is its first match.
pub proof fn lemma_unique_match(s: Seq<CartItem>, p: i32, i: int)
    requires
        unique_products(s),
        0 <= i < s.len(),
        s[i].product_id == p,
    ensures
        has_product(s, p),
        first_match(s, p) == i,
{
    assert forall|j: int| 0 <= j < i implies s[j].product_id != p by {
        assert(s[j].product_id != s[i].product_id);
    }
    lemma_first_match_is(s, p, i);
}

impl Cart {
    /// An empty cart.
    pub fn new() -> (r: Cart)
        ensures
            r@ == Seq::<CartItem>::empty(),
    {
        Cart { items: Vec::new() }
    }

    /// The first position that refers to `product_id`.
    fn position(&self, product_id: i32) -> (r: Option<usize>)
        ensures
            match r {
                Some(i) => is_first_match(self@, product_id, i as int),
                None => !has_product(self@, product_id),
            },
    {
        let mut i: usize = 0;
        while i < self.items.len()
            invariant
                0 <= i <= self@.len(),
                forall|j: int| 0 <= j < i ==> self@[j].product_id != product_id,
            decreases self@.len() - i,
        {
            if self.items[i].product_id == product_id {
                return Some(i);
            }
            i = i + 1;
        }
        None
    }

    /// The quantity held for a product, zero when it is absent.
    pub fn quantity_of(&self, product_id: i32) -> (r: i32)
        ensures
            r == quantity_of(self@, product_id),
    {
        match self.position(product_id) {
            Some(i) => {
                proof {
                    lemma_first_match_is(self@, product_id, i as int);
                }
                self.items[i].quantity
            },
            None => 0,
        }
    }

    /// Adds `quantity` of a product: an item already present for it grows by
    /// that amount, else a new item is appended.
    pub fn add_item(&mut self, product_id: i32, quantity: i32)
        requires
            i32::MIN <= quantity_of(old(self)@, product_id) + quantity <= i32::MAX,
        ensures
            final(self)@ == add_spec(old(self)@, product_id, quantity as int),
            unique_products(old(self)@) ==> unique_products(final(self)@),
    {
        proof {
            lemma_add_spec(self@, product_id, quantity as int);
        }
        match self.position(product_id) {
            Some(i) => {
                proof {
                    lemma_first_match_is(self@, product_id, i as int);
                }
                let q = self.items[i].quantity + quantity;
                self.items[i].quantity = q;
                assert(self@ =~= add_spec(old(self)@, product_id, quantity as int));
            },
            None => {
                self.items.push(CartItem { product_id, quantity, product: None });
            },
        }
    }

    /// Removes every item that refers to `product_id`; nothing happens when
    /// there is none.
    pub fn remove_item(&mut self, product_id: i32)
        ensures
            final(self)@ == remove_spec(old(self)@, product_id),
            unique_products(old(self)@) ==> unique_products(final(self)@),
    {
        proof {
            lemma_remove_spec(self@, product_id);
        }
        let ghost s0 = self@;
        let ghost mut k: int = 0;
        let mut i: usize = 0;
        while i < self.items.len()
            invariant
                0 <= k <= s0.len(),
                i == remove_spec(s0.subrange(0, k), product_id).len(),
                self@ == remove_spec(s0.subrange(0, k), product_id) + s0.subrange(k, s0.len() as int),
            decreases s0.len() - k,
        {
            let ghost kept = remove_spec(s0.subrange(0, k), product_id);
            assert(self@[i as int] == s0[k]);
            assert(s0.subrange(0, k + 1) =~= s0.subrange(0, k).push(s0[k]));
            proof {
                s0.subrange(0, k).lemma_filter_push(s0[k], keeps(product_id));
            }
            if self.items[i].product_id == product_id {
                self.items.remove(i);
                assert(remove_spec(s0.subrange(0, k + 1), product_id) == kept);
                assert(self@ =~= kept + s0.subrange(k + 1, s0.len() as int));
            } else {
                assert(remove_spec(s0.subrange(0, k + 1), product_id) == kept.push(s0[k]));
                assert(kept.push(s0[k]) + s0.subrange(k + 1, s0.len() as int) =~= self@);
                i = i + 1;
            }
            proof {
                k = k + 1;
            }
        }
        assert(s0.subrange(0, k) =~= s0);
        assert(self@ =~= remove_spec(s0, product_id));
    }

    /// Sets the quantity of a product: zero or less removes it, a positive
    /// quantity replaces the one held and adds nothing when the product is
    /// absent.
    pub fn update_quantity(&mut self, product_id: i32, quantity: i32)
        ensures
            final(self)@ == update_spec(old(self)@, product_id, quantity as int),
            unique_products(old(self)@) ==> unique_products(final(self)@),
    {
        proof {
            lemma_update_spec(self@, product_id, quantity as int);
        }
        if quantity <= 0 {
            self.remove_item(product_id);
        } else {
            match self.position(product_id) {
                Some(i) => {
                    proof {
                        lemma_first_match_is(self@, product_id, i as int);
                    }
                    self.items[i].quantity = quantity;
                    assert(self@ =~= update_spec(old(self)@, product_id, quantity as int));
                },
                None => {},
            }
        }
    }

    /// Empties the cart.
    pub fn clear(&mut self)
        ensures
            final(self)@ == clear_spec(old(self)@),
    {
        self.items.clear();
    }

    /// The sum of price times quantity, in cents, over the items that carry a
    /// product snapshot; items without one count for nothing.
    pub fn total_with_products(&self) -> (r: i128)
        ensures
            r == snapshot_total(self@),
    {
        let mut total: i128 = 0;
        let mut i: usize = 0;
        while i < self.items.len()
            invariant
                0 <= i <= self@.len(),
                total == snapshot_total(self@.subrange(0, i as int)),
                -(i as int) * 0x8000_0000_0000_0000 <= total <= (i as int) * 0x8000_0000_0000_0000,
            decreases self@.len() - i,
        {
            assert(self@.subrange(0, i + 1).drop_last() =~= self@.subrange(0, i as int));
            let item = &self.items[i];
            match &item.product {
                Some(prod) => {
                    let price = prod.price_cents;
                    let q = item.quantity;
                    assert(-0x8000_0000_0000_0000 <= price * q <= 0x8000_0000_0000_0000) by (nonlinear_arith)
                        requires
                            0 <= price <= 0xffff_ffff,
                            -0x8000_0000 <= q <= 0x7fff_ffff,
                    ;
                    assert((i as int) * 0x8000_0000_0000_0000 + 0x8000_0000_0000_0000 == (i + 1) * 0x8000_0000_0000_0000);
                    total = total + (price as i128) * (q as i128);
                },
                None => {},
            }
            i = i + 1;
        }
        assert(self@.subrange(0, i as int) =~= self@);
        total
    }
}

} // verus!

verus! {

/// Removing a product keeps items distinct, introduces no product and leaves
/// none of `p`.
pub proof fn lemma_remove_spec(s: Seq<CartItem>, p: i32)
    ensures
        unique_products(s) ==> unique_products(remove_spec(s, p)),
        product_ids(remove_spec(s, p)).subset_of(product_ids(s)),
        !has_product(remove_spec(s, p), p),
    decreases s.len(),
{
    if s.len() == 0 {
        assert(remove_spec(s, p) =~= s);
    } else {
        let rest = s.drop_last();
        let x = s.last();
        assert(s =~= rest.push(x));
        rest.lemma_filter_push(x, keeps(p));
        lemma_remove_spec(rest, p);
        let r = remove_spec(rest, p);
        assert forall|q: i32| has_product(rest, q) implies has_product(s, q) by {
            let i = choose|i: int| 0 <= i < rest.len() && rest[i].product_id == q;
            assert(s[i] == rest[i]);
        }
        if x.product_id != p {
            assert(remove_spec(s, p) == r.push(x));
            assert forall|q: i32| has_product(r.push(x), q) implies has_product(s, q) by {
                let i = choose|i: int| 0 <= i < r.len() + 1 && r.push(x)[i].product_id == q;
                if i < r.len() {
                    assert(product_ids(r).contains(q));
                } else {
                    assert(s[s.len() - 1] == x);
                }
            }
            assert forall|i: int| 0 <= i < r.len() + 1 implies r.push(x)[i].product_id != p by {
                if i < r.len() {
                    assert(r.push(x)[i] == r[i]);
                }
            }
            if unique_products(s) {
                assert forall|i: int, j: int| 0 <= i < j < r.len() + 1 implies r.push(x)[i].product_id
                    != r.push(x)[j].product_id by {
                    if j == r.len() {
                        assert(r.push(x)[i] == r[i]);
                        if r[i].product_id == x.product_id {
                            assert(product_ids(r).contains(x.product_id));
                            let k = choose|k: int| 0 <= k < rest.len() && rest[k].product_id == x.product_id;
                            assert(s[k] == rest[k]);
                            assert(s[s.len() - 1] == x);
                        }
                    } else {
                        assert(r.push(x)[i] == r[i]);
                        assert(r.push(x)[j] == r[j]);
                    }
                }
            }
        } else {
            assert(remove_spec(s, p) == r);
        }
    }
}

/// Adding keeps items distinct and introduces at most product `p`.
pub proof fn lemma_add_spec(s: Seq<CartItem>, p: i32, q: int)
    ensures
        unique_products(s) ==> unique_products(add_spec(s, p, q)),
        product_ids(add_spec(s, p, q)) =~= product_ids(s).insert(p),
{
    let t = add_spec(s, p, q);
    if has_product(s, p) {
        let i0 = choose|i: int| 0 <= i < s.len() && s[i].product_id == p;
        if !is_first_match(s, p, first_match(s, p)) {
            lemma_has_first_match(s, p, i0);
        }
        let i = first_match(s, p);
        assert forall|k: int| 0 <= k < s.len() implies t[k].product_id == s[k].product_id by {}
        assert forall|r: i32| has_product(t, r) <==> has_product(s, r) by {
            if has_product(t, r) {
                let k = choose|k: int| 0 <= k < t.len() && t[k].product_id == r;
                assert(s[k].product_id == r);
            }
            if has_product(s, r) {
                let k = choose|k: int| 0 <= k < s.len() && s[k].product_id == r;
                assert(t[k].product_id == r);
            }
        }
    } else {
        assert forall|r: i32| has_product(t, r) <==> (has_product(s, r) || r == p) by {
            if has_product(t, r) {
                let k = choose|k: int| 0 <= k < t.len() && t[k].product_id == r;
                if k < s.len() {
                    assert(t[k] == s[k]);
                }
            }
            if has_product(s, r) {
                let k = choose|k: int| 0 <= k < s.len() && s[k].product_id == r;
                assert(t[k] == s[k]);
            }
            if r == p {
                assert(t[s.len() as int].product_id == p);
            }
        }
        if unique_products(s) {
            assert forall|i: int, j: int| 0 <= i < j < t.len() implies t[i].product_id
                != t[j].product_id by {
                assert(t[i] == s[i]);
                if j < s.len() {
                    assert(t[j] == s[j]);
                }
            }
        }
    }
}

/// A product that occurs has a first position.
pub proof fn lemma_has_first_match(s: Seq<CartItem>, p: i32, i: int)
    requires
        0 <= i < s.len(),
        s[i].product_id == p,
    ensures
        is_first_match(s, p, first_match(s, p)),
    decreases i,
{
    if forall|j: int| 0 <= j < i ==> s[j].product_id != p {
        assert(is_first_match(s, p, i));
    } else {
        let j = choose|j: int| 0 <= j < i && s[j].product_id == p;
        lemma_has_first_match(s, p, j);
    }
}

/// Setting a quantity keeps items distinct and introduces no product.
pub proof fn lemma_update_spec(s: Seq<CartItem>, p: i32, q: int)
    ensures
        unique_products(s) ==> unique_products(update_spec(s, p, q)),
        product_ids(update_spec(s, p, q)).subset_of(product_ids(s)),
{
    if q <= 0 {
        lemma_remove_spec(s, p);
    } else if has_product(s, p) {
        let i0 = choose|i: int| 0 <= i < s.len() && s[i].product_id == p;
        lemma_has_first_match(s, p, i0);
        let t = update_spec(s, p, q);
        assert forall|k: int| 0 <= k < s.len() implies t[k].product_id == s[k].product_id by {}
        assert forall|r: i32| has_product(t, r) implies has_product(s, r) by {
            let k = choose|k: int| 0 <= k < t.len() && t[k].product_id == r;
            assert(s[k].product_id == r);
        }
    }
}

/// A cart without duplicate products has as many items as distinct products.
pub proof fn lemma_unique_len(s: Seq<CartItem>)
    requires
        unique_products(s),
    ensures
        product_ids(s).finite(),
        product_ids(s).len() == s.len(),
    decreases s.len(),
{
    if s.len() == 0 {
        assert(product_ids(s) =~= Set::<i32>::empty());
    } else {
        let rest = s.drop_last();
        let x = s.last();
        lemma_unique_len(rest);
        assert forall|r: i32| has_product(s, r) <==> (has_product(rest, r) || r == x.product_id) by {
            if has_product(s, r) {
                let k = choose|k: int| 0 <= k < s.len() && s[k].product_id == r;
                if k < rest.len() {
                    assert(rest[k] == s[k]);
                }
            }
            if has_product(rest, r) {
                let k = choose|k: int| 0 <= k < rest.len() && rest[k].product_id == r;
                assert(rest[k] == s[k]);
            }
            if r == x.product_id {
                assert(s[s.len() - 1] == x);
            }
        }
        assert(product_ids(s) =~= product_ids(rest).insert(x.product_id));
        if has_product(rest, x.product_id) {
            let k = choose|k: int| 0 <= k < rest.len() && rest[k].product_id == x.product_id;
            assert(rest[k] == s[k]);
            assert(s[s.len() - 1] == x);
        }
    }
}

/// One edit of a cart.
pub enum CartOp {
    Add { product_id: i32, quantity: i32 },
    Update { product_id: i32, quantity: i32 },
    Remove { product_id: i32 },
}

pub open spec fn apply_op(s: Seq<CartItem>, op: CartOp) -> Seq<CartItem> {
    match op {
        CartOp::Add { product_id, quantity } => add_spec(s, product_id, quantity as int),
        CartOp::Update { product_id, quantity } => update_spec(s, product_id, quantity as int),
        CartOp::Remove { product_id } => remove_spec(s, product_id),
    }
}

/// The items of a cart that starts empty and undergoes `ops` in order.
pub open spec fn replay(ops: Seq<CartOp>) -> Seq<CartItem>
    decreases ops.len(),
{
    if ops.len() == 0 {
        Seq::empty()
    } else {
        apply_op(replay(ops.drop_last()), ops.last())
    }
}

/// The products that the additions among `ops` name.
pub open spec fn added_ids(ops: Seq<CartOp>) -> Set<i32>
    decreases ops.len(),
{
    if ops.len() == 0 {
        Set::empty()
    } else {
        match ops.last() {
            CartOp::Add { product_id, .. } => added_ids(ops.drop_last()).insert(product_id),
            _ => added_ids(ops.drop_last()),
        }
    }
}

proof fn lemma_replay_ids(ops: Seq<CartOp>)
    ensures
        unique_products(replay(ops)),
        added_ids(ops).finite(),
        product_ids(replay(ops)).subset_of(added_ids(ops)),
    decreases ops.len(),
{
    if ops.len() > 0 {
        let prev = replay(ops.drop_last());
        lemma_replay_ids(ops.drop_last());
        match ops.last() {
            CartOp::Add { product_id, quantity } => lemma_add_spec(prev, product_id, quantity as int),
            CartOp::Update { product_id, quantity } => lemma_update_spec(prev, product_id, quantity as int),
            CartOp::Remove { product_id } => lemma_remove_spec(prev, product_id),
        }
    }
}

/// Whatever additions, quantity changes and removals a cart that starts empty
/// undergoes, it never holds more items than the number of distinct products
/// that were added, and never two items for one product.
pub proof fn lemma_items_bounded_by_added(ops: Seq<CartOp>)
    ensures
        unique_products(replay(ops)),
        replay(ops).len() <= added_ids(ops).len(),
{
    lemma_replay_ids(ops);
    lemma_unique_len(replay(ops));
    vstd::set_lib::lemma_len_subset(product_ids(replay(ops)), added_ids(ops));
}

/// Adding a product twice leaves one item for it, whose quantity is the sum of
/// what it held and the two amounts; the cart grows by at most that one item.
pub proof fn lemma_add_twice_merges(s: Seq<CartItem>, p: i32, q1: int, q2: int)
    requires
        unique_products(s),
        i32::MIN <= quantity_of(s, p) + q1 <= i32::MAX,
        i32::MIN <= quantity_of(s, p) + q1 + q2 <= i32::MAX,
    ensures
        ({
            let t = add_spec(add_spec(s, p, q1), p, q2);
            &&& unique_products(t)
            &&& has_product(t, p)
            &&& quantity_of(t, p) == quantity_of(s, p) + q1 + q2
            &&& t.len() == if has_product(s, p) { s.len() } else { s.len() + 1 }
        }),
{
    let t1 = add_spec(s, p, q1);
    let t = add_spec(t1, p, q2);
    lemma_add_spec(s, p, q1);
    lemma_add_spec(t1, p, q2);
    if has_product(s, p) {
        let i0 = choose|i: int| 0 <= i < s.len() && s[i].product_id == p;
        lemma_unique_match(s, p, i0);
        lemma_unique_match(t1, p, i0);
        lemma_unique_match(t, p, i0);
    } else {
        let n = s.len() as int;
        assert(t1[n].product_id == p);
        lemma_unique_match(t1, p, n);
        lemma_unique_match(t, p, n);
    }
}

/// Setting a product's quantity to zero is removing it.
pub proof fn lemma_update_zero_is_remove(s: Seq<CartItem>, p: i32)
    ensures
        update_spec(s, p, 0) == remove_spec(s, p),
{
}

/// Clearing an empty cart changes nothing, and clearing twice is clearing once.
pub proof fn lemma_clear_idempotent(s: Seq<CartItem>)
    ensures
        s.len() == 0 ==> clear_spec(s) == s,
        clear_spec(clear_spec(s)) == clear_spec(s),
{
    if s.len() == 0 {
        assert(s =~= Seq::<CartItem>::empty());
    }
}

} // verus!
