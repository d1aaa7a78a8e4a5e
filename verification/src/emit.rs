//! Primitive emitter: turns one order's printable rows into the ordered
//! sequence of text and ruled-line primitives of one label page.
use vstd::prelude::*;

use crate::layout::H1;
use crate::layout::H2;
use crate::layout::H3;
use crate::layout::H4;
use crate::layout::ITEM_SIZE;
use crate::layout::LayoutConfig;
use crate::layout::MARGIN;
use crate::layout::PAGE_HEIGHT;
use crate::layout::ROW_SPACING;
use crate::layout::UNIT_OFFSET;
use crate::models::Order;
use crate::next_row_height;
use crate::text::decimal;
use crate::text::truncated;
use crate::text::truncate_description;
use crate::text::u32_to_string;
use vstd::pervasive::unreached;

verus! {

/// Which half of a split order a label page holds.
#[derive(Clone, Copy, Debug, PartialEq, Eq, Structural)]
pub enum LabelPart {
    /// The order fits one label.
    Whole,
    /// The first half of a split order.
    PartOne,
    /// The second half of a split order.
    PartTwo,
}

/// One drawing primitive of a label page.
pub enum Primitive {
    /// A positioned text block.
    Text {
        /// Whether the bold font is used.
        bold: bool,
        /// Font size.
        size: u16,
        /// Left edge of the text.
        x: u16,
        /// Baseline of the text.
        y: i32,
        /// The literal text.
        text: String,
    },
    /// A ruled horizontal separator line across the item table.
    Rule {
        /// Height of the line.
        y: i32,
    },
}

/// One label page: its primitives in paint order and its split tag.
pub struct LabelPage {
    /// Which half of a split order this page holds.
    pub part: LabelPart,
    /// The drawing primitives, in paint order.
    pub primitives: Vec<Primitive>,
}

/// The text of a text primitive; a rule has none.
pub open spec fn prim_text(p: Primitive) -> Seq<char> {
    match p {
        Primitive::Text { text, .. } => text@,
        Primitive::Rule { .. } => Seq::empty(),
    }
}

/// A text block with exactly these attributes.
pub open spec fn text_block(
    p: Primitive,
    bold: bool,
    size: int,
    x: int,
    y: int,
    t: Seq<char>,
) -> bool {
    match p {
        Primitive::Text { bold: b, size: s, x: px, y: py, text } => {
            &&& b == bold
            &&& s == size
            &&& px == x
            &&& py == y
            &&& text@ == t
        },
        Primitive::Rule { .. } => false,
    }
}

/// A ruled line at exactly this height.
pub open spec fn rule_at(p: Primitive, y: int) -> bool {
    match p {
        Primitive::Text { .. } => false,
        Primitive::Rule { y: py } => py == y,
    }
}

/// A line-item row text: item rows are the only text blocks printed at the
/// left margin in the line-item font size.
pub open spec fn is_item_row(p: Primitive) -> bool {
    match p {
        Primitive::Text { size, x, .. } => size == ITEM_SIZE && x == MARGIN,
        Primitive::Rule { .. } => false,
    }
}

/// Whether a primitive is a ruled line.
pub open spec fn is_rule(p: Primitive) -> bool {
    p is Rule
}

/// The item-row text blocks of a page, in paint order.
pub open spec fn item_row_prims(prims: Seq<Primitive>) -> Seq<Primitive> {
    prims.filter(|p: Primitive| is_item_row(p))
}

/// The texts of a sequence of primitives, in the same order.
pub open spec fn texts_of(prims: Seq<Primitive>) -> Seq<Seq<char>> {
    prims.map_values(|p: Primitive| prim_text(p))
}

/// The rendered row texts of a page, in paint order.
pub open spec fn page_rows(page: LabelPage) -> Seq<Seq<char>> {
    texts_of(item_row_prims(page.primitives@))
}

/// The ruled lines of a page, in paint order.
pub open spec fn rule_prims(prims: Seq<Primitive>) -> Seq<Primitive> {
    prims.filter(|p: Primitive| is_rule(p))
}

/// The truncated row text of one line item.
pub open spec fn row_text(o: Order) -> Seq<char> {
    truncated(o.item@)
}

/// The row texts of a sequence of line items.
pub open spec fn row_texts(items: Seq<Order>) -> Seq<Seq<char>> {
    items.map_values(|o: Order| row_text(o))
}

/// Height step from one row to the next.
pub open spec fn row_step() -> int {
    (ITEM_SIZE + ROW_SPACING) as int
}

/// Baseline of the customer heading.
pub open spec fn customer_row() -> int {
    PAGE_HEIGHT - H1 - MARGIN
}

/// Baseline of the label-part heading.
pub open spec fn part_row() -> int {
    customer_row() - H2 - ROW_SPACING
}

/// Baseline of the fulfillment heading.
pub open spec fn fulfillment_row() -> int {
    part_row() - H2 - ROW_SPACING
}

/// Baseline of the order-identifier heading.
pub open spec fn id_row() -> int {
    fulfillment_row() - H3 - ROW_SPACING
}

/// Baseline of the column headings.
pub open spec fn column_heading_row() -> int {
    id_row() - H4 - ROW_SPACING
}

/// Baseline of line-item row `i`.
pub open spec fn item_row(i: int) -> int {
    column_heading_row() - 2 * row_step() - row_step() * i
}

/// The label-part heading text.
pub open spec fn part_text(part: LabelPart) -> Seq<char> {
    match part {
        LabelPart::Whole => "Label 1 of 1"@,
        LabelPart::PartOne => "Label 1 of 2"@,
        LabelPart::PartTwo => "Label 2 of 2"@,
    }
}

fn part_string(part: LabelPart) -> (r: String)
    ensures
        r@ == part_text(part),
{
    match part {
        LabelPart::Whole => String::from_str("Label 1 of 1"),
        LabelPart::PartOne => String::from_str("Label 1 of 2"),
        LabelPart::PartTwo => String::from_str("Label 2 of 2"),
    }
}

/// The order-identifier heading text.
pub open spec fn id_text(id: u32) -> Seq<char> {
    "Order # "@ + decimal(id as nat)
}

fn id_string(id: u32) -> (r: String)
    ensures
        r@ == id_text(id),
{
    let digits = u32_to_string(id);
    let r = String::from_str("Order # ").concat(digits.as_str());
    proof {
        assert(r@ =~= id_text(id));
    }
    r
}

/// A printable line item carries the optional fields its row prints.
pub open spec fn row_ready(o: Order) -> bool {
    &&& o.quantity is Some
    &&& o.unit_size is Some
}

/// The seven heading text blocks at the top of every label page.
pub open spec fn heading_shape(
    prims: Seq<Primitive>,
    header: Order,
    fulfillment: Seq<char>,
    part: LabelPart,
    cfg: LayoutConfig,
) -> bool {
    &&& prims.len() >= 7
    &&& text_block(prims[0], true, H1 as int, MARGIN as int, customer_row(), header.customer@)
    &&& text_block(prims[1], true, H3 as int, MARGIN as int, part_row(), part_text(part))
    &&& text_block(prims[2], true, H2 as int, MARGIN as int, fulfillment_row(), fulfillment)
    &&& text_block(prims[3], false, H3 as int, MARGIN as int, id_row(), id_text(header.id))
    &&& text_block(prims[4], false, H4 as int, MARGIN as int, column_heading_row(), "Item"@)
    &&& text_block(
        prims[5],
        false,
        H4 as int,
        cfg.qty_column as int,
        column_heading_row(),
        "QTY"@,
    )
    &&& text_block(
        prims[6],
        false,
        H4 as int,
        MARGIN + UNIT_OFFSET,
        column_heading_row(),
        "Unit"@,
    )
}

/// The four primitives of line-item row `i`: its separator line above, then
/// its description, quantity and unit text blocks.
pub open spec fn row_shape(prims: Seq<Primitive>, base: int, row: Order, i: int, cfg: LayoutConfig) -> bool {
    &&& 0 <= base && base + 4 <= prims.len()
    &&& rule_at(prims[base], item_row(i) + ITEM_SIZE + 1)
    &&& text_block(prims[base + 1], false, ITEM_SIZE as int, MARGIN as int, item_row(i), row_text(row))
    &&& text_block(
        prims[base + 2],
        false,
        H4 + 1,
        cfg.qty_column as int,
        item_row(i),
        decimal(row.quantity->0 as nat),
    )
    &&& text_block(
        prims[base + 3],
        false,
        H4 as int,
        MARGIN + UNIT_OFFSET,
        item_row(i),
        row.unit_size->0@,
    )
}

/// The complete shape of one label page: the headings, four primitives per
/// printable row with a separator line above each, and one closing line below
/// the last row.
pub open spec fn page_shape(
    prims: Seq<Primitive>,
    header: Order,
    fulfillment: Seq<char>,
    part: LabelPart,
    rows: Seq<Order>,
    cfg: LayoutConfig,
) -> bool {
    &&& heading_shape(prims, header, fulfillment, part, cfg)
    &&& prims.len() == 7 + 4 * rows.len() + (if rows.len() > 0 {
        1int
    } else {
        0int
    })
    &&& forall|i: int| 0 <= i < rows.len() ==> row_shape(prims, 7 + 4 * i, rows[i], i, cfg)
    &&& rows.len() > 0 ==> rule_at(prims[7 + 4 * rows.len() as int], item_row(rows.len() - 1) - 1)
}

/// Appending a primitive extends the item-row extraction exactly when the
/// primitive is an item row, and the rule extraction exactly when it is a
/// ruled line.
pub proof fn lemma_extract_push(s: Seq<Primitive>, x: Primitive)
    ensures
        item_row_prims(s.push(x)) == if is_item_row(x) {
            item_row_prims(s).push(x)
        } else {
            item_row_prims(s)
        },
        rule_prims(s.push(x)) == if is_rule(x) {
            rule_prims(s).push(x)
        } else {
            rule_prims(s)
        },
{
    reveal(Seq::filter);
    assert(s.push(x).drop_last() =~= s);
    assert(s.push(x).last() == x);
}

/// Taking texts distributes over appending one primitive.
pub proof fn lemma_texts_push(s: Seq<Primitive>, x: Primitive)
    ensures
        texts_of(s.push(x)) == texts_of(s).push(prim_text(x)),
{
    assert(texts_of(s.push(x)) =~= texts_of(s).push(prim_text(x)));
}

/// No primitive of the empty sequence is extracted.
pub proof fn lemma_extract_empty()
    ensures
        item_row_prims(Seq::<Primitive>::empty()) == Seq::<Primitive>::empty(),
        rule_prims(Seq::<Primitive>::empty()) == Seq::<Primitive>::empty(),
{
    reveal(Seq::filter);
}

/// Emit the primitives of one label page: the heading block, then one
/// separator line and three text blocks per printable row at descending
/// heights, and a closing line under the last row.
pub fn emit_label(
    header: &Order,
    fulfillment: &String,
    rows: &Vec<Order>,
    part: LabelPart,
    cfg: &LayoutConfig,
) -> (page: LabelPage)
    requires
        rows@.len() <= 65535,
        forall|i: int| 0 <= i < rows@.len() ==> row_ready(#[trigger] rows@[i]),
    ensures
        page.part == part,
        page_shape(page.primitives@, *header, fulfillment@, part, rows@, *cfg),
        page_rows(page) == row_texts(rows@),
        rule_prims(page.primitives@).len() == if rows@.len() > 0 {
            rows@.len() + 1
        } else {
            0nat
        },
{
    let mut ops: Vec<Primitive> = Vec::new();
    proof {
        lemma_extract_empty();
    }

    let customer_y = next_row_height(H1, PAGE_HEIGHT, MARGIN);
    let part_y = next_row_height(H2, customer_y, ROW_SPACING);
    let fulfill_y = next_row_height(H2, part_y, ROW_SPACING);
    let id_y = next_row_height(H3, fulfill_y, ROW_SPACING);
    let colhead_y = next_row_height(H4, id_y, ROW_SPACING);

    let h0 = Primitive::Text {
        bold: true,
        size: H1,
        x: MARGIN,
        y: customer_y as i32,
        text: header.customer.clone(),
    };
    proof {
        lemma_extract_push(ops@, h0);
    }
    ops.push(h0);
    let h1 = Primitive::Text {
        bold: true,
        size: H3,
        x: MARGIN,
        y: part_y as i32,
        text: part_string(part),
    };
    proof {
        lemma_extract_push(ops@, h1);
    }
    ops.push(h1);
    let h2 = Primitive::Text {
        bold: true,
        size: H2,
        x: MARGIN,
        y: fulfill_y as i32,
        text: fulfillment.clone(),
    };
    proof {
        lemma_extract_push(ops@, h2);
    }
    ops.push(h2);
    let h3 = Primitive::Text {
        bold: false,
        size: H3,
        x: MARGIN,
        y: id_y as i32,
        text: id_string(header.id),
    };
    proof {
        lemma_extract_push(ops@, h3);
    }
    ops.push(h3);
    let h4 = Primitive::Text {
        bold: false,
        size: H4,
        x: MARGIN,
        y: colhead_y as i32,
        text: String::from_str("Item"),
    };
    proof {
        lemma_extract_push(ops@, h4);
    }
    ops.push(h4);
    let h5 = Primitive::Text {
        bold: false,
        size: H4,
        x: cfg.qty_column,
        y: colhead_y as i32,
        text: String::from_str("QTY"),
    };
    proof {
        lemma_extract_push(ops@, h5);
    }
    ops.push(h5);
    let h6 = Primitive::Text {
        bold: false,
        size: H4,
        x: MARGIN + UNIT_OFFSET,
        y: colhead_y as i32,
        text: String::from_str("Unit"),
    };
    proof {
        lemma_extract_push(ops@, h6);
    }
    ops.push(h6);
    proof {
        assert(texts_of(item_row_prims(ops@)) =~= row_texts(rows@.subrange(0, 0)));
    }

    let base_y: i32 = colhead_y as i32;
    let step: i32 = (ITEM_SIZE + ROW_SPACING) as i32;
    let mut i: usize = 0;
    while i < rows.len()
        invariant
            rows@.len() <= 65535,
            forall|k: int| 0 <= k < rows@.len() ==> row_ready(#[trigger] rows@[k]),
            i <= rows@.len(),
            base_y == column_heading_row(),
            step == row_step(),
            ops@.len() == 7 + 4 * i,
            heading_shape(ops@, *header, fulfillment@, part, *cfg),
            forall|k: int| 0 <= k < i ==> row_shape(ops@, 7 + 4 * k, rows@[k], k, *cfg),
            texts_of(item_row_prims(ops@)) == row_texts(rows@.subrange(0, i as int)),
            rule_prims(ops@).len() == i,
        decreases rows@.len() - i,
    {
        let ghost pre_ops = ops@;
        let o = &rows[i];
        let y: i32 = base_y - 2 * step - step * (i as i32);
        proof {
            assert(y == item_row(i as int));
        }
        let rule = Primitive::Rule { y: y + (ITEM_SIZE as i32) + 1 };
        proof {
            lemma_extract_push(ops@, rule);
        }
        ops.push(rule);
        let item_text = Primitive::Text {
            bold: false,
            size: ITEM_SIZE,
            x: MARGIN,
            y,
            text: truncate_description(o.item.as_str()),
        };
        proof {
            lemma_extract_push(ops@, item_text);
        }
        ops.push(item_text);
        let qty: u32 = match &o.quantity {
            Some(q) => *q,
            None => unreached(),
        };
        let qty_text = Primitive::Text {
            bold: false,
            size: H4 + 1,
            x: cfg.qty_column,
            y,
            text: u32_to_string(qty),
        };
        proof {
            lemma_extract_push(ops@, qty_text);
        }
        ops.push(qty_text);
        let unit: String = match &o.unit_size {
            Some(u) => u.clone(),
            None => unreached(),
        };
        let unit_text = Primitive::Text {
            bold: false,
            size: H4,
            x: MARGIN + UNIT_OFFSET,
            y,
            text: unit,
        };
        proof {
            lemma_extract_push(ops@, unit_text);
        }
        ops.push(unit_text);
        proof {
            assert(item_row_prims(ops@) == item_row_prims(pre_ops).push(item_text));
            lemma_texts_push(item_row_prims(pre_ops), item_text);
            assert(row_texts(rows@.subrange(0, i as int + 1)) =~= row_texts(
                rows@.subrange(0, i as int),
            ).push(row_text(rows@[i as int])));
            assert(texts_of(item_row_prims(ops@)) == row_texts(rows@.subrange(0, i as int + 1)));
            assert forall|k: int| 0 <= k < i + 1 implies row_shape(
                ops@,
                7 + 4 * k,
                rows@[k],
                k,
                *cfg,
            ) by {
                if k < i {
                    assert(row_shape(pre_ops, 7 + 4 * k, rows@[k], k, *cfg));
                }
            }
        }
        i += 1;
    }
    if rows.len() > 0 {
        let ghost pre_ops = ops@;
        let last: usize = rows.len() - 1;
        let y: i32 = base_y - 2 * step - step * (last as i32);
        let closing = Primitive::Rule { y: y - 1 };
        proof {
            lemma_extract_push(ops@, closing);
        }
        ops.push(closing);
        proof {
            assert(item_row_prims(ops@) == item_row_prims(pre_ops));
            assert forall|k: int| 0 <= k < rows@.len() implies row_shape(
                ops@,
                7 + 4 * k,
                rows@[k],
                k,
                *cfg,
            ) by {
                assert(row_shape(pre_ops, 7 + 4 * k, rows@[k], k, *cfg));
            }
            assert(rule_at(ops@[7 + 4 * rows@.len() as int], item_row(rows@.len() - 1) - 1));
        }
    }
    proof {
        assert(rows@.subrange(0, rows@.len() as int) =~= rows@);
    }
    LabelPage { part, primitives: ops }
}

} // verus!
