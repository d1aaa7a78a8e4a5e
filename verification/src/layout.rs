//! Layout planner: the fixed label canvas, the row-position recurrence, which
//! line items are printable, the one-label fit decision and the split point,
//! and the fulfillment-heading resolution strategy.
use vstd::prelude::*;

use crate::models::Order;
use crate::text::contains_seq;
use crate::text::contains_str;

verus! {

/// Layout units per inch of physical label.
pub const POINTS_PER_INCH: u16 = 72;

/// Label width: four inches.
pub const PAGE_WIDTH: u16 = 4 * POINTS_PER_INCH;

/// Label height: six inches.
pub const PAGE_HEIGHT: u16 = 6 * POINTS_PER_INCH;

/// Margin from each edge of the label.
pub const MARGIN: u16 = 18;

/// Vertical spacing between consecutive rows.
pub const ROW_SPACING: u16 = 3;

/// Font size of the customer heading.
pub const H1: u16 = 22;

/// Font size of the fulfillment heading.
pub const H2: u16 = 18;

/// Font size of the order-identifier heading and the label-part heading.
pub const H3: u16 = 12;

/// Font size of the column headings.
pub const H4: u16 = 10;

/// Font size of a line-item row; the quantity column prints one unit larger
/// than the column headings.
pub const ITEM_SIZE: u16 = 13;

/// Vertical span available for line-item rows below the headings on the
/// six-inch canvas.
pub const LABEL_FIT_HEIGHT: u16 = 308;

/// Column offset of the quantity column from the left margin in the standard
/// layout.
pub const QTY_OFFSET: u16 = 162;

/// Column offset of the unit column from the left margin.
pub const UNIT_OFFSET: u16 = 194;

/// The column positions and fit height that differ between observed label
/// revisions, gathered into one configuration value.
pub struct LayoutConfig {
    /// x position of the quantity column.
    pub qty_column: u16,
    /// Vertical span available for line-item rows.
    pub label_fit_height: u16,
}

impl LayoutConfig {
    /// The fit height leaves room for the bottom margin.
    pub open spec fn wf(self) -> bool {
        self.label_fit_height >= MARGIN
    }

    /// The canonical four-by-six-inch label layout.
    pub fn standard() -> (c: LayoutConfig)
        ensures
            c.wf(),
            c.qty_column == MARGIN + QTY_OFFSET,
            c.label_fit_height == LABEL_FIT_HEIGHT,
    {
        LayoutConfig { qty_column: MARGIN + QTY_OFFSET, label_fit_height: LABEL_FIT_HEIGHT }
    }
}

/// The substring that marks a delivery-charge line item.
pub open spec fn delivery_mark() -> Seq<char> {
    "Delivery"@
}

/// A line item is printed only if it carries a fulfillment-type value and its
/// description is not a delivery-charge row.
pub open spec fn qualifies(o: Order) -> bool {
    &&& o.fulfillment is Some
    &&& !contains_seq(o.item@, delivery_mark())
}

/// Whether one line item is printed as a row.
pub fn item_qualifies(o: &Order) -> (r: bool)
    ensures
        r == qualifies(*o),
{
    if o.fulfillment.is_none() {
        return false;
    }
    !contains_str(o.item.as_str(), "Delivery")
}

/// The printable line items of an order, in input order.
pub open spec fn filtered(items: Seq<Order>) -> Seq<Order> {
    items.filter(|o: Order| qualifies(o))
}

/// Keep only the printable line items, in input order.
pub fn filter_items(items: &Vec<Order>) -> (r: Vec<Order>)
    ensures
        r@ == filtered(items@),
        r@.len() <= items@.len(),
{
    let mut r: Vec<Order> = Vec::new();
    let mut k: usize = 0;
    while k < items.len()
        invariant
            k <= items@.len(),
            r@ == items@.subrange(0, k as int).filter(|o: Order| qualifies(o)),
            r@.len() <= k,
        decreases items@.len() - k,
    {
        let ghost pre = items@.subrange(0, k as int);
        let ghost ext = items@.subrange(0, k as int + 1);
        proof {
            assert(ext.drop_last() =~= pre);
            assert(ext.last() == items@[k as int]);
            reveal(Seq::filter);
        }
        if item_qualifies(&items[k]) {
            r.push(crate::models::copy_order(&items[k]));
        }
        k += 1;
    }
    proof {
        assert(items@.subrange(0, items@.len() as int) =~= items@);
    }
    r
}

/// `n` printable rows fit on one label when their total height, row spacing
/// included, does not exceed the usable span below the headings.
pub open spec fn fits_on_one_label(n: int, label_fit_height: int) -> bool {
    n * (ITEM_SIZE + ROW_SPACING) <= label_fit_height - MARGIN
}

/// Decide whether `n` printable rows fit on a single label.
pub fn fits_single_label(n: usize, cfg: &LayoutConfig) -> (r: bool)
    requires
        cfg.wf(),
    ensures
        r == fits_on_one_label(n as int, cfg.label_fit_height as int),
{
    let usable: u16 = cfg.label_fit_height - MARGIN;
    let step: u16 = ITEM_SIZE + ROW_SPACING;
    let bound: u16 = usable / step;
    proof {
        let u = usable as int;
        let s = step as int;
        let q = u / s;
        let m = n as int;
        vstd::arithmetic::div_mod::lemma_fundamental_div_mod(u, s);
        vstd::arithmetic::div_mod::lemma_mod_bound(u, s);
        if m <= q {
            assert(m * s <= q * s) by (nonlinear_arith)
                requires
                    m <= q,
                    s > 0,
            ;
        } else {
            assert(m * s >= (q + 1) * s) by (nonlinear_arith)
                requires
                    m >= q + 1,
                    s > 0,
            ;
            assert((q + 1) * s == q * s + s) by (nonlinear_arith);
        }
    }
    n <= bound as usize
}

/// Where an over-full order is split: the first label takes the first
/// `floor(n / 2)` printable rows, the second label the rest.
pub open spec fn spec_split_point(n: int) -> int {
    n / 2
}

/// The number of printable rows placed on the first of two split labels.
pub fn split_point(n: usize) -> (r: usize)
    ensures
        r == spec_split_point(n as int),
        r <= n,
{
    n / 2
}

/// The fulfillment heading of an order: the first line item's value when
/// present, otherwise the last line item's value; nothing when both are
/// absent.
pub open spec fn resolved_fulfillment(items: Seq<Order>) -> Option<String> {
    if items[0].fulfillment is Some {
        items[0].fulfillment
    } else {
        items[items.len() - 1].fulfillment
    }
}

/// Resolve the fulfillment heading for one order's line items.
pub fn resolve_fulfillment(items: &Vec<Order>) -> (r: Option<String>)
    requires
        items@.len() > 0,
    ensures
        r == resolved_fulfillment(items@),
{
    match &items[0].fulfillment {
        Some(f) => Some(f.clone()),
        None => match &items[items.len() - 1].fulfillment {
            Some(f) => Some(f.clone()),
            None => None,
        },
    }
}

} // verus!
