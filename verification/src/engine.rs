//! The engine entry point: plan the batch, assemble the object graph, render
//! it through the PDF library. Saving the rendered document is the caller's
//! one remaining step.
use vstd::prelude::*;

use crate::graph::assemble_document;
use crate::layout::LayoutConfig;
use crate::models::OrderBatch;
use crate::models::OrderGroup;
use crate::plan::all_resolvable;
use crate::plan::batch_pages;
use crate::plan::batch_ready;
use crate::plan::descs_of;
use crate::plan::plan_batch;
use crate::render::doc_max_id;
use crate::render::render_document;
use crate::report::EngineFailure;
use crate::report::FailureKind;

verus! {

/// A batch of `g` orders yields at most `2 * g` label pages.
pub proof fn lemma_batch_pages_len(groups: Seq<OrderGroup>, fit: int)
    ensures
        batch_pages(groups, fit).len() <= 2 * groups.len(),
    decreases groups.len(),
{
    if groups.len() == 0 {
    } else {
        lemma_batch_pages_len(groups.drop_last(), fit);
    }
}

/// Generate the label document for a grouped batch: one page per order that
/// fits, two adjacent pages per order that does not, in batch order, all
/// packed into one cross-referenced document. The run succeeds exactly when
/// every order has a usable fulfillment heading; otherwise it aborts on the
/// first order without one and builds no document.
pub fn generate_labels(batch: &OrderBatch, cfg: &LayoutConfig) -> (r: Result<
    lopdf::Document,
    EngineFailure,
>)
    requires
        batch.wf(),
        batch_ready(batch.groups@),
        cfg.wf(),
        batch.groups@.len() * 4 + 9 <= u32::MAX,
    ensures
        r is Ok <==> all_resolvable(batch.groups@),
        r matches Ok(d) ==> doc_max_id(&d) == 5 + 2 * batch_pages(
            batch.groups@,
            cfg.label_fit_height as int,
        ).len(),
        r matches Err(e) ==> e.kind == FailureKind::MissingFulfillment && exists|g: int|
            0 <= g < batch.groups@.len() && crate::layout::resolved_fulfillment(
                (#[trigger] batch.groups@[g]).items@,
            ) is None && (forall|h: int|
                0 <= h < g ==> crate::layout::resolved_fulfillment(
                    (#[trigger] batch.groups@[h]).items@,
                ) is Some) && e.message@ == crate::report::missing_fulfillment_message(
                batch.groups@[g].id,
            ),
{
    let ghost fit = cfg.label_fit_height as int;
    let pages = match plan_batch(batch, cfg) {
        Ok(p) => p,
        Err(e) => {
            return Err(e);
        },
    };
    proof {
        lemma_batch_pages_len(batch.groups@, fit);
        assert(descs_of(pages@).len() == pages@.len());
    }
    let graph = assemble_document(pages);
    Ok(render_document(&graph))
}

} // verus!
