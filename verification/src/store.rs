//! The order store: a persistent mapping from order identifier to order
//! record, unique keys, no ordering semantics.
//!
//! Entries are created only by `submit_order`, removed only by `take_order`
//! or `cancel_order`, never updated in place. The mathematical model is a
//! partial map from identifiers to orders.

use vstd::prelude::*;
use crate::types::{Order, OrderId};

verus! {

/// The order stored under `id` in a row sequence: the first matching row.
pub open spec fn order_lookup(s: Seq<(OrderId, Order)>, id: OrderId) -> Option<Order>
    decreases s.len(),
{
    if s.len() == 0 {
        None
    } else if s[0].0 == id {
        Some(s[0].1)
    } else {
        order_lookup(s.drop_first(), id)
    }
}

/// A row is found exactly when some row carries the key.
proof fn lemma_order_match_exists(s: Seq<(OrderId, Order)>, id: OrderId)
    ensures
        (order_lookup(s, id) is Some) <==> exists|j: int| 0 <= j < s.len() && s[j].0 == id,
    decreases s.len(),
{
    if s.len() > 0 {
        lemma_order_match_exists(s.drop_first(), id);
        if s[0].0 != id {
            if order_lookup(s, id) is Some {
                let j = choose|j: int| 0 <= j < s.drop_first().len() && s.drop_first()[j].0 == id;
                assert(s[j + 1].0 == id);
            }
            if exists|j: int| 0 <= j < s.len() && s[j].0 == id {
                let j = choose|j: int| 0 <= j < s.len() && s[j].0 == id;
                assert(s.drop_first()[j - 1].0 == id);
            }
        }
    }
}

/// The earliest matching row decides the stored order.
proof fn lemma_order_first_match(s: Seq<(OrderId, Order)>, i: int, id: OrderId)
    requires
        0 <= i < s.len(),
        s[i].0 == id,
        forall|j: int| 0 <= j < i ==> s[j].0 != id,
    ensures
        order_lookup(s, id) == Some(s[i].1),
    decreases i,
{
    if i > 0 {
        lemma_order_first_match(s.drop_first(), i - 1, id);
    }
}

/// With no matching row nothing is stored under the key.
proof fn lemma_order_no_match(s: Seq<(OrderId, Order)>, id: OrderId)
    requires
        forall|j: int| 0 <= j < s.len() ==> s[j].0 != id,
    ensures
        order_lookup(s, id) is None,
    decreases s.len(),
{
    if s.len() > 0 {
        lemma_order_no_match(s.drop_first(), id);
    }
}

/// Appending a row under a fresh key stores that order and no other.
proof fn lemma_order_push(s: Seq<(OrderId, Order)>, p: (OrderId, Order), id: OrderId)
    requires
        forall|j: int| 0 <= j < s.len() ==> s[j].0 != p.0,
    ensures
        order_lookup(s.push(p), id) == if id == p.0 {
            Some(p.1)
        } else {
            order_lookup(s, id)
        },
    decreases s.len(),
{
    let t = s.push(p);
    if s.len() == 0 {
        assert(t.len() == 1 && t[0] == p);
        if id != p.0 {
            assert(t.drop_first() =~= Seq::<(OrderId, Order)>::empty());
            assert(order_lookup(t.drop_first(), id) is None);
            assert(order_lookup(s, id) is None);
        }
    } else {
        assert(t[0] == s[0]);
        if s[0].0 != id {
            assert(t.drop_first() =~= s.drop_first().push(p));
            lemma_order_push(s.drop_first(), p, id);
        }
    }
}

/// Removing the row of a key (under unique keys) erases that key and no
/// other.
proof fn lemma_order_remove(s: Seq<(OrderId, Order)>, i: int, id: OrderId)
    requires
        0 <= i < s.len(),
        forall|p: int, q: int| 0 <= p < q < s.len() ==> s[p].0 != s[q].0,
    ensures
        order_lookup(s.remove(i), id) == if id == s[i].0 {
            None::<Order>
        } else {
            order_lookup(s, id)
        },
    decreases i,
{
    let t = s.remove(i);
    if i == 0 {
        assert(t =~= s.drop_first());
        if id == s[0].0 {
            assert(forall|j: int| 0 <= j < s.drop_first().len() ==> s.drop_first()[j].0 != id);
            lemma_order_no_match(s.drop_first(), id);
        }
    } else {
        assert(t[0] == s[0]);
        if s[0].0 != id {
            assert(t.drop_first() =~= s.drop_first().remove(i - 1));
            lemma_order_remove(s.drop_first(), i - 1, id);
        }
    }
}

/// The order store. The rows carry pairwise distinct identifiers.
pub struct OrderStore {
    entries: Vec<(OrderId, Order)>,
}

impl View for OrderStore {
    type V = Map<OrderId, Order>;

    closed spec fn view(&self) -> Map<OrderId, Order> {
        Map::new(
            |id: OrderId| order_lookup(self.entries@, id) is Some,
            |id: OrderId| order_lookup(self.entries@, id).unwrap(),
        )
    }
}

impl OrderStore {
    #[verifier::type_invariant]
    spec fn wf(self) -> bool {
        forall|p: int, q: int|
            0 <= p < q < self.entries@.len() ==> self.entries@[p].0 != self.entries@[q].0
    }

    /// An empty store.
    pub fn new() -> (r: OrderStore)
        ensures
            r@ == Map::<OrderId, Order>::empty(),
    {
        let r = OrderStore { entries: Vec::new() };
        proof {
            assert forall|id: OrderId| !(order_lookup(r.entries@, id) is Some) by {}
            assert(r@ =~= Map::<OrderId, Order>::empty());
        }
        r
    }

    /// The index of the row of `id`, if any.
    fn find(&self, id: OrderId) -> (r: Option<usize>)
        ensures
            match r {
                Some(i) => i < self.entries@.len() && self.entries@[i as int].0 == id
                    && forall|j: int| 0 <= j < i ==> self.entries@[j].0 != id,
                None => forall|j: int| 0 <= j < self.entries@.len() ==> self.entries@[j].0 != id,
            },
    {
        let n = self.entries.len();
        let mut i: usize = 0;
        while i < n
            invariant
                n == self.entries@.len(),
                i <= n,
                forall|j: int| 0 <= j < i ==> self.entries@[j].0 != id,
            decreases n - i,
        {
            if self.entries[i].0 == id {
                return Some(i);
            }
            i = i + 1;
        }
        None
    }

    /// A read-only lookup, used only where removal is not yet warranted.
    pub fn get(&self, id: OrderId) -> (r: Option<Order>)
        ensures
            r == if self@.dom().contains(id) {
                Some(self@[id])
            } else {
                None::<Order>
            },
    {
        match self.find(id) {
            Some(i) => {
                proof {
                    lemma_order_first_match(self.entries@, i as int, id);
                }
                Some(self.entries[i].1)
            },
            None => {
                proof {
                    lemma_order_no_match(self.entries@, id);
                }
                None
            },
        }
    }

    /// Store `order` under `id`; the identifier must not currently exist
    /// (the caller guarantees uniqueness via the allocator).
    pub fn insert(&mut self, id: OrderId, order: Order)
        requires
            !old(self)@.dom().contains(id),
        ensures
            final(self)@ == old(self)@.insert(id, order),
    {
        proof {
            use_type_invariant(&*self);
            lemma_order_match_exists(self.entries@, id);
        }
        let mut rows: Vec<(OrderId, Order)> = Vec::new();
        std::mem::swap(&mut rows, &mut self.entries);
        rows.push((id, order));
        proof {
            assert forall|p: int, q: int| 0 <= p < q < rows@.len() implies rows@[p].0 != rows@[q].0 by {
                assert(forall|j: int|
                    0 <= j < old(self).entries@.len() ==> old(self).entries@[j].0 != id);
            }
        }
        self.entries = rows;
        proof {
            assert forall|x: OrderId|
                #[trigger] order_lookup(self.entries@, x) == if x == id {
                    Some(order)
                } else {
                    order_lookup(old(self).entries@, x)
                } by {
                lemma_order_push(old(self).entries@, (id, order), x);
            }
            assert(self@ =~= old(self)@.insert(id, order));
        }
    }

    /// Atomically test for and remove the row of `id`, returning the removed
    /// order or nothing.
    pub fn remove_if_exists(&mut self, id: OrderId) -> (r: Option<Order>)
        ensures
            r == if old(self)@.dom().contains(id) {
                Some(old(self)@[id])
            } else {
                None::<Order>
            },
            final(self)@ == old(self)@.remove(id),
    {
        proof {
            use_type_invariant(&*self);
        }
        match self.find(id) {
            Some(i) => {
                let mut rows: Vec<(OrderId, Order)> = Vec::new();
                std::mem::swap(&mut rows, &mut self.entries);
                let row = rows.remove(i);
                proof {
                    assert forall|p: int, q: int|
                        0 <= p < q < rows@.len() implies rows@[p].0 != rows@[q].0 by {
                        let s = old(self).entries@;
                        assert(rows@[p] == if p < i { s[p] } else { s[p + 1] });
                        assert(rows@[q] == if q < i { s[q] } else { s[q + 1] });
                    }
                }
                self.entries = rows;
                proof {
                    lemma_order_first_match(old(self).entries@, i as int, id);
                    assert forall|x: OrderId|
                        #[trigger] order_lookup(self.entries@, x) == if x == id {
                            None::<Order>
                        } else {
                            order_lookup(old(self).entries@, x)
                        } by {
                        lemma_order_remove(old(self).entries@, i as int, x);
                    }
                    assert(self@ =~= old(self)@.remove(id));
                }
                Some(row.1)
            },
            None => {
                proof {
                    lemma_order_no_match(self.entries@, id);
                    assert(self@ =~= old(self)@.remove(id));
                }
                None
            },
        }
    }
}

} // verus!
