//! Label planning: for each order the printable rows, the one-label fit
//! decision, the split into two labels, and the pages of a whole batch.
use vstd::prelude::*;

use crate::emit::LabelPage;
use crate::emit::LabelPart;
use crate::emit::emit_label;
use crate::emit::id_text;
use crate::emit::page_shape;
use crate::emit::page_rows;
use crate::emit::prim_text;
use crate::emit::row_ready;
use crate::emit::row_text;
use crate::emit::row_texts;
use crate::layout::LayoutConfig;
use crate::layout::filter_items;
use crate::layout::filtered;
use crate::layout::fits_on_one_label;
use crate::layout::fits_single_label;
use crate::layout::qualifies;
use crate::layout::resolve_fulfillment;
use crate::layout::resolved_fulfillment;
use crate::layout::spec_split_point;
use crate::layout::split_point;
use crate::models::Order;
use crate::models::OrderBatch;
use crate::models::OrderGroup;
use crate::report::EngineFailure;
use crate::report::FailureKind;
use crate::report::missing_fulfillment_failure;
use crate::report::missing_fulfillment_message;

verus! {

/// The semantic content of one label page: its split tag, its rendered row
/// texts in paint order, and its heading texts.
pub struct PageDesc {
    /// Which half of a split order the page holds.
    pub part: LabelPart,
    /// The rendered row texts.
    pub rows: Seq<Seq<char>>,
    /// The customer heading text.
    pub customer: Seq<char>,
    /// The fulfillment heading text.
    pub fulfillment: Seq<char>,
    /// The order-identifier heading text.
    pub order_heading: Seq<char>,
}

/// The semantic content of an emitted page.
pub open spec fn desc_of(page: LabelPage) -> PageDesc {
    PageDesc {
        part: page.part,
        rows: page_rows(page),
        customer: prim_text(page.primitives@[0]),
        fulfillment: prim_text(page.primitives@[2]),
        order_heading: prim_text(page.primitives@[3]),
    }
}

/// The semantic contents of a sequence of pages, in order.
pub open spec fn descs_of(pages: Seq<LabelPage>) -> Seq<PageDesc> {
    pages.map_values(|p: LabelPage| desc_of(p))
}

/// Taking page contents distributes over concatenation.
pub proof fn lemma_descs_append(s: Seq<LabelPage>, t: Seq<LabelPage>)
    ensures
        descs_of(s + t) == descs_of(s) + descs_of(t),
{
    assert(descs_of(s + t) =~= descs_of(s) + descs_of(t));
}

/// The pages owed to one order: one page holding every printable row when
/// they fit, otherwise the first half rounded down followed by the rest.
pub open spec fn order_pages(items: Seq<Order>, fit: int) -> Seq<PageDesc> {
    let texts = row_texts(filtered(items));
    let n = filtered(items).len() as int;
    let fulfillment = resolved_fulfillment(items)->0@;
    let order_heading = id_text(items[0].id);
    if fits_on_one_label(n, fit) {
        seq![
            PageDesc {
                part: LabelPart::Whole,
                rows: texts,
                customer: items[0].customer@,
                fulfillment,
                order_heading,
            },
        ]
    } else {
        seq![
            PageDesc {
                part: LabelPart::PartOne,
                rows: texts.subrange(0, spec_split_point(n)),
                customer: items[0].customer@,
                fulfillment,
                order_heading,
            },
            PageDesc {
                part: LabelPart::PartTwo,
                rows: texts.subrange(spec_split_point(n), n),
                customer: items[0].customer@,
                fulfillment,
                order_heading,
            },
        ]
    }
}

/// The pages owed to a whole batch, in batch order, split halves adjacent.
pub open spec fn batch_pages(groups: Seq<OrderGroup>, fit: int) -> Seq<PageDesc>
    decreases groups.len(),
{
    if groups.len() == 0 {
        Seq::empty()
    } else {
        batch_pages(groups.drop_last(), fit) + order_pages(groups.last().items@, fit)
    }
}

/// An order the planner can lay out: non-empty, within the object-number
/// limit of the output format, and every printable row carries the fields it
/// prints.
pub open spec fn order_ready(items: Seq<Order>) -> bool {
    &&& 0 < items.len() <= 65535
    &&& forall|i: int|
        0 <= i < items.len() ==> (qualifies(#[trigger] items[i]) ==> row_ready(items[i]))
}

/// Every printable row of an order carries the fields it prints.
proof fn lemma_filtered_ready(items: Seq<Order>)
    requires
        forall|i: int|
            0 <= i < items.len() ==> (qualifies(#[trigger] items[i]) ==> row_ready(items[i])),
    ensures
        forall|j: int| 0 <= j < filtered(items).len() ==> qualifies(#[trigger] filtered(items)[j]),
        forall|j: int| 0 <= j < filtered(items).len() ==> row_ready(#[trigger] filtered(items)[j]),
    decreases items.len(),
{
    reveal(Seq::filter);
    if items.len() == 0 {
    } else {
        assert forall|i: int| 0 <= i < items.drop_last().len() implies (qualifies(
            #[trigger] items.drop_last()[i],
        ) ==> row_ready(items.drop_last()[i])) by {
            assert(items.drop_last()[i] == items[i]);
        }
        lemma_filtered_ready(items.drop_last());
        let sub = filtered(items.drop_last());
        assert forall|j: int| 0 <= j < filtered(items).len() implies qualifies(
            #[trigger] filtered(items)[j],
        ) && row_ready(filtered(items)[j]) by {
            if j < sub.len() {
                assert(filtered(items)[j] == sub[j]);
            } else {
                assert(filtered(items)[j] == items.last());
            }
        }
    }
}

/// Every printable line item carries a fulfillment value and is not a
/// delivery-charge row.
pub proof fn lemma_filtered_qualifies(items: Seq<Order>)
    ensures
        forall|j: int| 0 <= j < filtered(items).len() ==> qualifies(#[trigger] filtered(items)[j]),
    decreases items.len(),
{
    reveal(Seq::filter);
    if items.len() == 0 {
    } else {
        lemma_filtered_qualifies(items.drop_last());
        let sub = filtered(items.drop_last());
        assert forall|j: int| 0 <= j < filtered(items).len() implies qualifies(
            #[trigger] filtered(items)[j],
        ) by {
            if j < sub.len() {
                assert(filtered(items)[j] == sub[j]);
            } else {
                assert(filtered(items)[j] == items.last());
            }
        }
    }
}

/// A non-empty order whose printable rows fit one label is owed exactly one
/// page, holding every printable row in input order.
pub proof fn lemma_fit_yields_one_page(items: Seq<Order>, fit: int)
    requires
        fits_on_one_label(filtered(items).len() as int, fit),
    ensures
        order_pages(items, fit).len() == 1,
        order_pages(items, fit)[0].part == LabelPart::Whole,
        order_pages(items, fit)[0].rows == row_texts(filtered(items)),
{
}

/// An order whose printable rows do not fit one label is owed exactly two
/// pages, tagged as the two halves, whose row counts are the floor half and
/// the rest, and whose concatenated rows reproduce the printable rows exactly
/// once each, in order.
pub proof fn lemma_split_yields_two_pages(items: Seq<Order>, fit: int)
    requires
        !fits_on_one_label(filtered(items).len() as int, fit),
    ensures
        order_pages(items, fit).len() == 2,
        order_pages(items, fit)[0].part == LabelPart::PartOne,
        order_pages(items, fit)[1].part == LabelPart::PartTwo,
        order_pages(items, fit)[0].rows.len() == spec_split_point(filtered(items).len() as int),
        order_pages(items, fit)[1].rows.len() == filtered(items).len() - spec_split_point(
            filtered(items).len() as int,
        ),
        order_pages(items, fit)[0].rows + order_pages(items, fit)[1].rows == row_texts(
            filtered(items),
        ),
{
    let texts = row_texts(filtered(items));
    let n = filtered(items).len() as int;
    let h = spec_split_point(n);
    assert(texts.subrange(0, h) + texts.subrange(h, n) =~= texts);
}

/// A line item without a fulfillment value, or whose description marks a
/// delivery charge, is never rendered: every printable row is a qualifying
/// line item, and the planned pages render exactly the printable rows.
pub proof fn lemma_skipped_items_never_rendered(items: Seq<Order>, fit: int)
    ensures
        forall|j: int| 0 <= j < filtered(items).len() ==> qualifies(#[trigger] filtered(items)[j]),
        fits_on_one_label(filtered(items).len() as int, fit) ==> order_pages(items, fit)[0].rows
            == row_texts(filtered(items)),
        !fits_on_one_label(filtered(items).len() as int, fit) ==> order_pages(items, fit)[0].rows
            + order_pages(items, fit)[1].rows == row_texts(filtered(items)),
{
    lemma_filtered_qualifies(items);
    if !fits_on_one_label(filtered(items).len() as int, fit) {
        lemma_split_yields_two_pages(items, fit);
    }
}

/// Plan the label pages of one order: exactly one page when the printable
/// rows fit a single label, exactly two otherwise, and a missing-fulfillment
/// failure exactly when neither the first nor the last line item carries a
/// fulfillment-type value.
pub fn plan_order(items: &Vec<Order>, cfg: &LayoutConfig) -> (r: Result<
    Vec<LabelPage>,
    EngineFailure,
>)
    requires
        order_ready(items@),
        cfg.wf(),
    ensures
        r is Ok <==> resolved_fulfillment(items@) is Some,
        r matches Ok(pages) ==> descs_of(pages@) == order_pages(
            items@,
            cfg.label_fit_height as int,
        ),
        r matches Ok(pages) ==> (fits_on_one_label(
            filtered(items@).len() as int,
            cfg.label_fit_height as int,
        ) ==> page_shape(
            pages@[0].primitives@,
            items@[0],
            resolved_fulfillment(items@)->0@,
            LabelPart::Whole,
            filtered(items@),
            *cfg,
        )),
        r matches Ok(pages) ==> (!fits_on_one_label(
            filtered(items@).len() as int,
            cfg.label_fit_height as int,
        ) ==> page_shape(
            pages@[0].primitives@,
            items@[0],
            resolved_fulfillment(items@)->0@,
            LabelPart::PartOne,
            filtered(items@).subrange(0, spec_split_point(filtered(items@).len() as int)),
            *cfg,
        ) && page_shape(
            pages@[1].primitives@,
            items@[0],
            resolved_fulfillment(items@)->0@,
            LabelPart::PartTwo,
            filtered(items@).subrange(
                spec_split_point(filtered(items@).len() as int),
                filtered(items@).len() as int,
            ),
            *cfg,
        )),
        r matches Err(e) ==> e.kind == FailureKind::MissingFulfillment && e.message@
            == missing_fulfillment_message(items@[0].id),
{
    let fulfillment = match resolve_fulfillment(items) {
        Some(f) => f,
        None => {
            return Err(missing_fulfillment_failure(items[0].id));
        },
    };
    let rows = filter_items(items);
    proof {
        lemma_filtered_ready(items@);
    }
    let header = &items[0];
    let mut pages: Vec<LabelPage> = Vec::new();
    if fits_single_label(rows.len(), cfg) {
        let page = emit_label(header, &fulfillment, &rows, LabelPart::Whole, cfg);
        pages.push(page);
        proof {
            assert(descs_of(pages@) =~= order_pages(items@, cfg.label_fit_height as int));
        }
    } else {
        let sp = split_point(rows.len());
        let (first_half, second_half) = split_rows(&rows, sp);
        let p1 = emit_label(header, &fulfillment, &first_half, LabelPart::PartOne, cfg);
        let p2 = emit_label(header, &fulfillment, &second_half, LabelPart::PartTwo, cfg);
        proof {
            let texts = row_texts(filtered(items@));
            let n = filtered(items@).len() as int;
            assert(row_texts(first_half@) =~= texts.subrange(0, spec_split_point(n)));
            assert(row_texts(second_half@) =~= texts.subrange(spec_split_point(n), n));
        }
        pages.push(p1);
        pages.push(p2);
        proof {
            assert(descs_of(pages@) =~= order_pages(items@, cfg.label_fit_height as int));
        }
    }
    Ok(pages)
}

/// Copy the rows before and from the split point into two independent lists.
fn split_rows(rows: &Vec<Order>, sp: usize) -> (r: (Vec<Order>, Vec<Order>))
    requires
        sp <= rows@.len(),
    ensures
        r.0@ == rows@.subrange(0, sp as int),
        r.1@ == rows@.subrange(sp as int, rows@.len() as int),
{
    let mut first: Vec<Order> = Vec::new();
    let mut k: usize = 0;
    while k < sp
        invariant
            k <= sp <= rows@.len(),
            first@ == rows@.subrange(0, k as int),
        decreases sp - k,
    {
        first.push(crate::models::copy_order(&rows[k]));
        proof {
            assert(first@ =~= rows@.subrange(0, k as int + 1));
        }
        k += 1;
    }
    let mut second: Vec<Order> = Vec::new();
    let mut m: usize = sp;
    while m < rows.len()
        invariant
            sp <= m <= rows@.len(),
            second@ == rows@.subrange(sp as int, m as int),
        decreases rows@.len() - m,
    {
        second.push(crate::models::copy_order(&rows[m]));
        proof {
            assert(second@ =~= rows@.subrange(sp as int, m as int + 1));
        }
        m += 1;
    }
    (first, second)
}

/// Every order of the batch is one the planner can lay out.
pub open spec fn batch_ready(groups: Seq<OrderGroup>) -> bool {
    forall|g: int| 0 <= g < groups.len() ==> order_ready((#[trigger] groups[g]).items@)
}

/// Every order of the batch has a usable fulfillment heading.
pub open spec fn all_resolvable(groups: Seq<OrderGroup>) -> bool {
    forall|g: int|
        0 <= g < groups.len() ==> resolved_fulfillment((#[trigger] groups[g]).items@) is Some
}

/// Plan the label pages of a whole batch, in batch order with split halves
/// adjacent. The run succeeds exactly when every order has a usable
/// fulfillment heading; otherwise it aborts on the first order without one
/// and no pages are handed out.
pub fn plan_batch(batch: &OrderBatch, cfg: &LayoutConfig) -> (r: Result<
    Vec<LabelPage>,
    EngineFailure,
>)
    requires
        batch.wf(),
        batch_ready(batch.groups@),
        cfg.wf(),
    ensures
        r is Ok <==> all_resolvable(batch.groups@),
        r matches Ok(pages) ==> descs_of(pages@) == batch_pages(
            batch.groups@,
            cfg.label_fit_height as int,
        ),
        r matches Err(e) ==> e.kind == FailureKind::MissingFulfillment && exists|g: int|
            0 <= g < batch.groups@.len() && resolved_fulfillment(
                (#[trigger] batch.groups@[g]).items@,
            ) is None && (forall|h: int|
                0 <= h < g ==> resolved_fulfillment((#[trigger] batch.groups@[h]).items@) is Some)
                && e.message@ == missing_fulfillment_message(batch.groups@[g].id),
{
    let ghost fit = cfg.label_fit_height as int;
    let mut pages: Vec<LabelPage> = Vec::new();
    let mut g: usize = 0;
    while g < batch.groups.len()
        invariant
            batch.wf(),
            batch_ready(batch.groups@),
            cfg.wf(),
            fit == cfg.label_fit_height as int,
            g <= batch.groups@.len(),
            descs_of(pages@) == batch_pages(batch.groups@.subrange(0, g as int), fit),
            forall|h: int|
                0 <= h < g ==> resolved_fulfillment((#[trigger] batch.groups@[h]).items@) is Some,
        decreases batch.groups@.len() - g,
    {
        let group = &batch.groups[g];
        let mut order_result = match plan_order(&group.items, cfg) {
            Ok(p) => p,
            Err(e) => {
                proof {
                    assert(batch.groups@[g as int].items@[0].id == batch.groups@[g as int].id);
                }
                return Err(e);
            },
        };
        let ghost pre_pages = pages@;
        let ghost new_pages = order_result@;
        pages.append(&mut order_result);
        proof {
            let sub = batch.groups@.subrange(0, g as int);
            let ext = batch.groups@.subrange(0, g as int + 1);
            assert(ext.drop_last() =~= sub);
            assert(ext.last() == batch.groups@[g as int]);
            lemma_descs_append(pre_pages, new_pages);
            assert(descs_of(pages@) =~= batch_pages(ext, fit));
        }
        g += 1;
    }
    proof {
        assert(batch.groups@.subrange(0, batch.groups@.len() as int) =~= batch.groups@);
    }
    Ok(pages)
}

} // verus!
