//! Order grouping model: the input line items and their grouping by order
//! identifier, with insertion order preserved and identifiers unique.
use vstd::prelude::*;

verus! {

/// One input line item. Several line items sharing one `id` make up one order.
pub struct Order {
    /// Order identifier, shared by every line item of one order.
    pub id: u32,
    /// Fulfillment-type label; a line item without one is a continuation row.
    pub fulfillment: Option<String>,
    /// Payment status.
    pub paid: String,
    /// Item description.
    pub item: String,
    /// Unit-size label.
    pub unit_size: Option<String>,
    /// Quantity ordered.
    pub quantity: Option<u32>,
    /// Price text.
    pub price: Option<String>,
    /// Customer name; in practice shared by every line item of one order.
    pub customer: String,
    /// Pickup address, when the order is picked up.
    pub addr_pickup: Option<String>,
    /// Delivery address, when the order is delivered.
    pub addr_delivery: Option<String>,
}

fn copy_opt_string(s: &Option<String>) -> (r: Option<String>)
    ensures
        r == *s,
{
    match s {
        Some(v) => Some(v.clone()),
        None => None,
    }
}

/// A field-for-field copy of a line item.
pub fn copy_order(o: &Order) -> (r: Order)
    ensures
        r == *o,
{
    Order {
        id: o.id,
        fulfillment: copy_opt_string(&o.fulfillment),
        paid: o.paid.clone(),
        item: o.item.clone(),
        unit_size: copy_opt_string(&o.unit_size),
        quantity: o.quantity,
        price: copy_opt_string(&o.price),
        customer: o.customer.clone(),
        addr_pickup: copy_opt_string(&o.addr_pickup),
        addr_delivery: copy_opt_string(&o.addr_delivery),
    }
}

/// The line items of one order, in input order.
pub struct OrderGroup {
    /// The shared order identifier.
    pub id: u32,
    /// The order's line items, first-seen first.
    pub items: Vec<Order>,
}

/// All orders of one run, grouped by identifier, in order of first appearance.
pub struct OrderBatch {
    /// The groups, one per distinct order identifier.
    pub groups: Vec<OrderGroup>,
}

impl OrderBatch {
    /// Every group is non-empty, carries only line items with its own
    /// identifier, and no identifier appears in two groups.
    pub open spec fn wf(self) -> bool {
        &&& forall|i: int|
            0 <= i < self.groups@.len() ==> (#[trigger] self.groups@[i]).items@.len() > 0
        &&& forall|i: int, j: int|
            0 <= i < self.groups@.len() && 0 <= j < (#[trigger] self.groups@[i]).items@.len()
                ==> (#[trigger] self.groups@[i].items@[j]).id == self.groups@[i].id
        &&& forall|i: int, j: int|
            0 <= i < j < self.groups@.len() ==> (#[trigger] self.groups@[i]).id != (
            #[trigger] self.groups@[j]).id
    }

    /// The group identifiers in batch order.
    pub open spec fn ids(self) -> Seq<u32> {
        ids_of(self.groups@)
    }
}

/// The identifiers of a sequence of groups, in the same order.
pub open spec fn ids_of(gs: Seq<OrderGroup>) -> Seq<u32> {
    gs.map_values(|g: OrderGroup| g.id)
}

/// The distinct order identifiers of `rows`, in order of first appearance.
pub open spec fn first_seen_ids(rows: Seq<Order>) -> Seq<u32>
    decreases rows.len(),
{
    if rows.len() == 0 {
        Seq::empty()
    } else {
        let prefix = first_seen_ids(rows.drop_last());
        if prefix.contains(rows.last().id) {
            prefix
        } else {
            prefix.push(rows.last().id)
        }
    }
}

/// The identifier of every row appears among the first-seen identifiers.
proof fn lemma_first_seen_contains(rows: Seq<Order>, i: int)
    requires
        0 <= i < rows.len(),
    ensures
        first_seen_ids(rows).contains(rows[i].id),
    decreases rows.len(),
{
    let prefix = first_seen_ids(rows.drop_last());
    if i == rows.len() - 1 {
        if prefix.contains(rows.last().id) {
            let w = choose|w: int| 0 <= w < prefix.len() && prefix[w] == rows.last().id;
            assert(first_seen_ids(rows)[w] == rows[i].id);
        } else {
            assert(first_seen_ids(rows).last() == rows[i].id);
        }
    } else {
        lemma_first_seen_contains(rows.drop_last(), i);
        assert(rows.drop_last()[i] == rows[i]);
        let w = choose|w: int| 0 <= w < prefix.len() && prefix[w] == rows[i].id;
        assert(first_seen_ids(rows)[w] == rows[i].id);
    }
}

/// Every element of a filtered sequence comes from the sequence itself.
proof fn lemma_filter_elem_from(s: Seq<Order>, p: spec_fn(Order) -> bool, i: int)
    requires
        0 <= i < s.filter(p).len(),
    ensures
        exists|j: int| 0 <= j < s.len() && s[j] == s.filter(p)[i],
    decreases s.len(),
{
    reveal(Seq::filter);
    if s.len() == 0 {
    } else {
        let sub = s.drop_last().filter(p);
        if p(s.last()) && i == sub.len() {
            assert(s.filter(p)[i] == s.last());
            assert(s[s.len() - 1] == s.filter(p)[i]);
        } else {
            lemma_filter_elem_from(s.drop_last(), p, i);
            let j = choose|j: int| 0 <= j < s.drop_last().len() && s.drop_last()[j] == s.drop_last(
            ).filter(p)[i];
            assert(s[j] == s.filter(p)[i]);
        }
    }
}

/// Group the line items by order identifier: one group per distinct
/// identifier, in order of first appearance, each holding exactly the rows
/// that carry its identifier, in input order.
pub fn group_orders(rows: &Vec<Order>) -> (b: OrderBatch)
    ensures
        b.wf(),
        b.ids() == first_seen_ids(rows@),
        forall|i: int|
            0 <= i < b.groups@.len() ==> (#[trigger] b.groups@[i]).items@ == rows@.filter(
                |o: Order| o.id == b.groups@[i].id,
            ),
{
    let mut groups: Vec<OrderGroup> = Vec::new();
    let mut k: usize = 0;
    while k < rows.len()
        invariant
            k <= rows@.len(),
            (OrderBatch { groups: groups }).wf(),
            ids_of(groups@) == first_seen_ids(rows@.subrange(0, k as int)),
            forall|i: int|
                0 <= i < groups@.len() ==> (#[trigger] groups@[i]).items@ == rows@.subrange(
                    0,
                    k as int,
                ).filter(|o: Order| o.id == groups@[i].id),
        decreases rows@.len() - k,
    {
        let row = &rows[k];
        let mut found: Option<usize> = None;
        let mut j: usize = 0;
        while j < groups.len() && found.is_none()
            invariant
                j <= groups@.len(),
                found is None ==> forall|i: int| 0 <= i < j ==> (#[trigger] groups@[i]).id
                    != row.id,
                found matches Some(f) ==> f < groups@.len() && groups@[f as int].id == row.id,
            decreases (if found is None { 1int } else { 0int }), groups@.len() - j,
        {
            if groups[j].id == row.id {
                found = Some(j);
            } else {
                j += 1;
            }
        }
        let ghost pre = rows@.subrange(0, k as int);
        let ghost ext = rows@.subrange(0, k as int + 1);
        proof {
            assert(ext.drop_last() =~= pre);
            assert(ext.last() == rows@[k as int]);
            reveal(Seq::filter);
        }
        match found {
            Some(f) => {
                let ghost old_groups = groups@;
                let copied = copy_order(row);
                let g = &mut groups[f];
                g.items.push(copied);
                proof {
                    let gid = old_groups[f as int].id;
                    assert(ids_of(groups@) =~= ids_of(old_groups));
                    assert(ids_of(old_groups)[f as int] == gid);
                    assert(first_seen_ids(pre).contains(rows@[k as int].id));
                    assert(first_seen_ids(ext) == first_seen_ids(pre));
                    assert forall|i: int| 0 <= i < groups@.len() implies (
                    #[trigger] groups@[i]).items@ == ext.filter(
                        |o: Order| o.id == groups@[i].id,
                    ) by {
                        let p = |o: Order| o.id == groups@[i].id;
                        assert(ext.filter(p) == if p(rows@[k as int]) {
                            pre.filter(p).push(rows@[k as int])
                        } else {
                            pre.filter(p)
                        });
                        if i != f {
                            assert(groups@[i] == old_groups[i]);
                            assert(groups@[i].id != gid);
                        } else {
                            assert(groups@[i].items@ == old_groups[i].items@.push(rows@[k as int]));
                        }
                    }
                }
            },
            None => {
                let copied = copy_order(row);
                let mut items: Vec<Order> = Vec::new();
                items.push(copied);
                let ghost old_groups = groups@;
                groups.push(OrderGroup { id: row.id, items: items });
                proof {
                    assert(ids_of(groups@) =~= ids_of(old_groups).push(row.id));
                    assert(!first_seen_ids(pre).contains(rows@[k as int].id)) by {
                        let ids = ids_of(old_groups);
                        if first_seen_ids(pre).contains(rows@[k as int].id) {
                            let w = choose|w: int|
                                0 <= w < ids.len() && ids[w] == rows@[k as int].id;
                            assert(old_groups[w].id == rows@[k as int].id);
                        }
                    }
                    assert(first_seen_ids(ext) == first_seen_ids(pre).push(rows@[k as int].id));
                    assert forall|i: int| 0 <= i < groups@.len() implies (
                    #[trigger] groups@[i]).items@ == ext.filter(
                        |o: Order| o.id == groups@[i].id,
                    ) by {
                        let p = |o: Order| o.id == groups@[i].id;
                        assert(ext.filter(p) == if p(rows@[k as int]) {
                            pre.filter(p).push(rows@[k as int])
                        } else {
                            pre.filter(p)
                        });
                        if i < groups@.len() - 1 {
                            assert(groups@[i] == old_groups[i]);
                            assert(groups@[i].id != rows@[k as int].id);
                        } else {
                            assert(groups@[i].id == rows@[k as int].id);
                            assert(pre.filter(p) =~= Seq::<Order>::empty()) by {
                                if pre.filter(p).len() > 0 {
                                    pre.lemma_filter_pred(p, 0);
                                    lemma_filter_elem_from(pre, p, 0);
                                    let w = choose|w: int|
                                        0 <= w < pre.len() && pre[w] == pre.filter(p)[0];
                                    assert(pre[w].id == rows@[k as int].id);
                                    assert(pre[w] == rows@[w]);
                                    lemma_first_seen_contains(pre, w);
                                }
                            }
                        }
                    }
                }
            },
        }
        k += 1;
    }
    proof {
        assert(rows@.subrange(0, rows@.len() as int) =~= rows@);
    }
    OrderBatch { groups: groups }
}

} // verus!
