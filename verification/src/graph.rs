//! Document assembler: the output object graph as an arena of integer-indexed
//! objects, grown page by page and finalized exactly once, with its
//! cross-reference integrity stated and proved.
use vstd::prelude::*;

use crate::emit::LabelPage;

verus! {

/// One object of the output document graph; cross-references are arena
/// indices.
pub enum GraphObject {
    /// A font resource; the document owns one regular and one bold entry.
    Font {
        /// Whether this is the bold entry.
        bold: bool,
    },
    /// The shared resource dictionary referencing both fonts.
    FontDirectory {
        /// Arena index of the regular font.
        regular_font: usize,
        /// Arena index of the bold font.
        bold_font: usize,
    },
    /// The content stream of one page.
    ContentStream {
        /// The page whose primitives the stream encodes.
        page: LabelPage,
    },
    /// One page, referencing its parent container and its content stream.
    Page {
        /// Arena index of the single pages container.
        parent: usize,
        /// Arena index of the page's content stream.
        contents: usize,
    },
    /// The single pages container, filled in at finalization.
    PageTree {
        /// Arena indices of the pages, in emission order.
        kids: Vec<usize>,
        /// Declared page count.
        count: usize,
        /// Arena index of the shared resource dictionary.
        resources: usize,
    },
    /// The root catalog, created at finalization.
    Catalog {
        /// Arena index of the pages container.
        page_tree: usize,
    },
    /// A slot reserved for the pages container before finalization.
    Reserved,
}

/// Index `idx` holds a page whose parent is the pages-container slot and
/// whose content stream exists.
pub open spec fn page_at(objs: Seq<GraphObject>, idx: usize, tree_slot: usize) -> bool {
    &&& idx < objs.len()
    &&& objs[idx as int] matches GraphObject::Page { parent, contents } && parent == tree_slot
        && contents < objs.len() && objs[contents as int] is ContentStream
}

/// The output object graph of one run.
pub struct DocumentGraph {
    /// The arena of objects.
    pub objects: Vec<GraphObject>,
    /// Arena index of the pages-container slot.
    pub page_tree_slot: usize,
    /// Arena index of the shared resource dictionary.
    pub resources_slot: usize,
    /// Arena indices of the pages added so far, in emission order.
    pub kids: Vec<usize>,
    /// Arena index of the catalog, once finalized.
    pub root: Option<usize>,
}

impl DocumentGraph {
    /// Structural soundness while the graph accumulates pages: the fixed
    /// slots hold the right objects, every recorded page index is a page
    /// whose parent is the pages-container slot and whose content stream
    /// exists, the page indices ascend, and the pages recorded are exactly
    /// the page objects of the arena.
    pub open spec fn wf(self) -> bool {
        let objs = self.objects@;
        &&& self.resources_slot < objs.len()
        &&& objs[self.resources_slot as int] matches GraphObject::FontDirectory {
            regular_font,
            bold_font,
        } && regular_font < objs.len() && bold_font < objs.len() && objs[regular_font as int] == (
        GraphObject::Font { bold: false }) && objs[bold_font as int] == (GraphObject::Font {
            bold: true,
        })
        &&& self.page_tree_slot < objs.len()
        &&& self.page_tree_slot != self.resources_slot
        &&& (if self.root is Some {
            objs[self.page_tree_slot as int] is PageTree
        } else {
            objs[self.page_tree_slot as int] is Reserved
        })
        &&& forall|k: int|
            0 <= k < self.kids@.len() ==> page_at(
                objs,
                #[trigger] self.kids@[k],
                self.page_tree_slot,
            )
        &&& forall|k: int, m: int| 0 <= k < m < self.kids@.len() ==> self.kids@[k] < self.kids@[m]
        &&& forall|j: int|
            0 <= j < objs.len() && (#[trigger] objs[j]) is Page ==> self.kids@.contains(j as usize)
    }

    /// The pages of the graph, in emission order.
    pub open spec fn page_views(self) -> Seq<LabelPage> {
        self.kids@.map_values(
            |k: usize|
                match self.objects@[k as int] {
                    GraphObject::Page { parent, contents } => match self.objects@[
                        contents as int
                    ] {
                        GraphObject::ContentStream { page } => page,
                        _ => arbitrary(),
                    },
                    _ => arbitrary(),
                },
        )
    }

    /// A finalized graph: well-formed, with the pages container filled in
    /// with the recorded pages and their exact count, the catalog pointing at
    /// the pages container, and the trailer root pointing at the catalog.
    pub open spec fn complete(self) -> bool {
        let objs = self.objects@;
        &&& self.wf()
        &&& self.root matches Some(root) && root < objs.len() && objs[root as int] == (
        GraphObject::Catalog { page_tree: self.page_tree_slot })
        &&& objs[self.page_tree_slot as int] matches GraphObject::PageTree {
            kids,
            count,
            resources,
        } && kids@ == self.kids@ && count == self.kids@.len() && resources == self.resources_slot
    }

    /// An empty accumulating graph: both fonts, the resource dictionary and
    /// the reserved pages-container slot, no pages yet.
    pub fn new() -> (g: DocumentGraph)
        ensures
            g.wf(),
            g.root is None,
            g.kids@.len() == 0,
            g.objects@.len() == 4,
            g.page_tree_slot == 3,
            g.resources_slot == 2,
            g.objects@[0] == (GraphObject::Font { bold: false }),
            g.objects@[1] == (GraphObject::Font { bold: true }),
            g.objects@[2] == (GraphObject::FontDirectory { regular_font: 0, bold_font: 1 }),
            g.page_views() == Seq::<LabelPage>::empty(),
    {
        let mut objects: Vec<GraphObject> = Vec::new();
        objects.push(GraphObject::Font { bold: false });
        objects.push(GraphObject::Font { bold: true });
        objects.push(GraphObject::FontDirectory { regular_font: 0, bold_font: 1 });
        objects.push(GraphObject::Reserved);
        let g = DocumentGraph {
            objects,
            page_tree_slot: 3,
            resources_slot: 2,
            kids: Vec::new(),
            root: None,
        };
        proof {
            assert(g.page_views() =~= Seq::<LabelPage>::empty());
        }
        g
    }

    /// Add one label page: its content stream, then the page object pointing
    /// at the pages-container slot and the stream; the page is recorded last
    /// in emission order.
    pub fn add_label_page(&mut self, page: LabelPage)
        requires
            old(self).wf(),
            old(self).root is None,
            old(self).objects@.len() + 2 <= usize::MAX,
        ensures
            final(self).wf(),
            final(self).root is None,
            final(self).page_tree_slot == old(self).page_tree_slot,
            final(self).resources_slot == old(self).resources_slot,
            final(self).kids@.len() == old(self).kids@.len() + 1,
            final(self).objects@.len() == old(self).objects@.len() + 2,
            final(self).kids@ == old(self).kids@.push((old(self).objects@.len() + 1) as usize),
            final(self).objects@ == old(self).objects@.push(
                GraphObject::ContentStream { page },
            ).push(
                GraphObject::Page {
                    parent: old(self).page_tree_slot,
                    contents: old(self).objects@.len() as usize,
                },
            ),
            final(self).page_views() == old(self).page_views().push(page),
    {
        let ghost old_self = *self;
        let stream_index = self.objects.len();
        self.objects.push(GraphObject::ContentStream { page });
        let page_index = self.objects.len();
        self.objects.push(
            GraphObject::Page { parent: self.page_tree_slot, contents: stream_index },
        );
        self.kids.push(page_index);
        proof {
            assert forall|k: int, m: int| 0 <= k < m < self.kids@.len() implies self.kids@[k]
                < self.kids@[m] by {
                if m < self.kids@.len() - 1 {
                    assert(old_self.kids@[k] < old_self.kids@[m]);
                } else {
                    assert(old_self.kids@[k] < old_self.objects@.len());
                }
            }
            assert forall|j: int|
                0 <= j < self.objects@.len() && (#[trigger] self.objects@[j]) is Page implies self.kids@.contains(
                j as usize,
            ) by {
                if j < old_self.objects@.len() {
                    assert(old_self.kids@.contains(j as usize));
                    let w = choose|w: int|
                        0 <= w < old_self.kids@.len() && old_self.kids@[w] == j as usize;
                    assert(self.kids@[w] == j as usize);
                } else {
                    assert(self.kids@.last() == j as usize);
                }
            }
            assert(self.page_views() =~= old_self.page_views().push(page));
        }
    }

    /// Finalize exactly once, after every page has been added: fill the
    /// pages-container slot with the recorded pages and their count, create
    /// the catalog, and point the trailer root at it.
    pub fn finalize(&mut self)
        requires
            old(self).wf(),
            old(self).root is None,
            old(self).objects@.len() + 1 <= usize::MAX,
        ensures
            final(self).complete(),
            final(self).kids@ == old(self).kids@,
            final(self).page_tree_slot == old(self).page_tree_slot,
            final(self).resources_slot == old(self).resources_slot,
            final(self).objects@.len() == old(self).objects@.len() + 1,
            final(self).root == Some(old(self).objects@.len() as usize),
            forall|j: int|
                0 <= j < old(self).objects@.len() && j != old(self).page_tree_slot
                    ==> final(self).objects@[j] == old(self).objects@[j],
            final(self).page_views() == old(self).page_views(),
    {
        let ghost old_self = *self;
        let kids_copy = copy_indices(&self.kids);
        let count = kids_copy.len();
        let tree = GraphObject::PageTree {
            kids: kids_copy,
            count,
            resources: self.resources_slot,
        };
        let slot = self.page_tree_slot;
        let ghost tree_snapshot = tree;
        // Move the filled container into its reserved slot: push it last,
        // then swap it into place, discarding the placeholder.
        self.objects.push(tree);
        let _placeholder = self.objects.swap_remove(slot);
        let catalog_index = self.objects.len();
        self.objects.push(GraphObject::Catalog { page_tree: slot });
        self.root = Some(catalog_index);
        proof {
            assert(self.objects@ =~= old_self.objects@.update(slot as int, tree_snapshot).push(
                GraphObject::Catalog { page_tree: slot },
            ));
        }
        proof {
            assert forall|j: int|
                0 <= j < self.objects@.len() && (#[trigger] self.objects@[j]) is Page implies self.kids@.contains(
                j as usize,
            ) by {
                if j < old_self.objects@.len() && j != slot {
                    assert(old_self.objects@[j] is Page);
                }
            }
            assert(self.page_views() =~= old_self.page_views());
        }
    }
}

/// The declared page count of a finalized graph equals the number of label
/// pages added, the pages recorded are exactly the page objects of the arena,
/// and no page is recorded twice.
pub proof fn lemma_page_count_matches(g: DocumentGraph)
    requires
        g.complete(),
    ensures
        g.objects@[g.page_tree_slot as int] matches GraphObject::PageTree { count, .. } && count
            == g.kids@.len(),
        g.page_views().len() == g.kids@.len(),
        forall|j: usize|
            j < g.objects@.len() ==> ((#[trigger] g.objects@[j as int]) is Page
                <==> g.kids@.contains(j)),
        forall|k: int, m: int| 0 <= k < m < g.kids@.len() ==> g.kids@[k] != g.kids@[m],
{
    assert forall|j: usize|
        j < g.objects@.len() && g.kids@.contains(j) implies (#[trigger] g.objects@[j as int])
        is Page by {
        let w = choose|w: int| 0 <= w < g.kids@.len() && g.kids@[w] == j;
        assert(page_at(g.objects@, g.kids@[w], g.page_tree_slot));
    }
}

/// Every reference of a finalized graph resolves: each page's parent is the
/// single pages container, each page's content stream exists, the container
/// references the resource dictionary, the catalog references the container,
/// and the trailer root references the catalog.
pub proof fn lemma_no_dangling_references(g: DocumentGraph)
    requires
        g.complete(),
    ensures
        forall|k: int|
            0 <= k < g.kids@.len() ==> page_at(g.objects@, #[trigger] g.kids@[k], g.page_tree_slot),
        g.page_tree_slot < g.objects@.len(),
        g.objects@[g.page_tree_slot as int] matches GraphObject::PageTree {
            kids,
            resources,
            ..
        } && kids@ == g.kids@ && resources == g.resources_slot && resources < g.objects@.len(),
        g.objects@[g.resources_slot as int] is FontDirectory,
        g.root matches Some(root) && root < g.objects@.len() && g.objects@[root as int] == (
        GraphObject::Catalog { page_tree: g.page_tree_slot }),
{
}

/// A field-for-field copy of an index list.
fn copy_indices(v: &Vec<usize>) -> (r: Vec<usize>)
    ensures
        r@ == v@,
{
    let mut r: Vec<usize> = Vec::new();
    let mut k: usize = 0;
    while k < v.len()
        invariant
            k <= v@.len(),
            r@ == v@.subrange(0, k as int),
        decreases v@.len() - k,
    {
        r.push(v[k]);
        proof {
            assert(r@ =~= v@.subrange(0, k as int + 1));
        }
        k += 1;
    }
    proof {
        assert(v@.subrange(0, v@.len() as int) =~= v@);
    }
    r
}

/// Assemble the finalized document graph of a planned page list: exactly one
/// regular and one bold font and one resource dictionary, then one content
/// stream and one page object per label page, in order, under one pages
/// container, closed by one catalog. Every arena index is accounted for, so
/// the graph holds nothing else.
pub fn assemble_document(pages: Vec<LabelPage>) -> (g: DocumentGraph)
    requires
        pages@.len() * 2 + 5 <= usize::MAX,
    ensures
        g.complete(),
        g.page_views() == pages@,
        g.kids@.len() == pages@.len(),
        g.page_tree_slot == 3,
        g.resources_slot == 2,
        g.objects@.len() == 5 + 2 * pages@.len(),
        g.root == Some((4 + 2 * pages@.len()) as usize),
        g.objects@[0] == (GraphObject::Font { bold: false }),
        g.objects@[1] == (GraphObject::Font { bold: true }),
        g.objects@[2] == (GraphObject::FontDirectory { regular_font: 0, bold_font: 1 }),
        forall|i: int| 0 <= i < pages@.len() ==> (#[trigger] g.kids@[i]) == 5 + 2 * i,
        forall|i: int| 0 <= i < pages@.len() ==> (#[trigger] g.objects@[4 + 2 * i]) is ContentStream,
        forall|i: int|
            0 <= i < pages@.len() ==> ((#[trigger] g.objects@[5 + 2 * i]) matches GraphObject::Page {
                parent,
                contents,
            } && parent == 3 && contents == 4 + 2 * i),
{
    let mut g = DocumentGraph::new();
    let mut pages = pages;
    let ghost all = pages@;
    let mut taken: usize = 0;
    while pages.len() > 0
        invariant
            g.wf(),
            g.root is None,
            taken + pages@.len() == all.len(),
            all.len() * 2 + 5 <= usize::MAX,
            g.objects@.len() == 4 + 2 * taken,
            g.kids@.len() == taken,
            g.page_tree_slot == 3,
            g.resources_slot == 2,
            g.objects@[0] == (GraphObject::Font { bold: false }),
            g.objects@[1] == (GraphObject::Font { bold: true }),
            g.objects@[2] == (GraphObject::FontDirectory { regular_font: 0, bold_font: 1 }),
            forall|i: int| 0 <= i < taken ==> (#[trigger] g.kids@[i]) == 5 + 2 * i,
            forall|i: int| 0 <= i < taken ==> (#[trigger] g.objects@[4 + 2 * i]) is ContentStream,
            forall|i: int|
                0 <= i < taken ==> ((#[trigger] g.objects@[5 + 2 * i]) matches GraphObject::Page {
                    parent,
                    contents,
                } && parent == 3 && contents == 4 + 2 * i),
            pages@ == all.subrange(taken as int, all.len() as int),
            g.page_views() == all.subrange(0, taken as int),
        decreases pages@.len(),
    {
        let ghost pre = g;
        let page = pages.remove(0);
        proof {
            assert(all.subrange(taken as int, all.len() as int)[0] == all[taken as int]);
            assert(pages@ =~= all.subrange(taken as int + 1, all.len() as int));
        }
        g.add_label_page(page);
        proof {
            assert(g.page_views() =~= all.subrange(0, taken as int + 1));
            assert forall|i: int| 0 <= i < taken + 1 implies (#[trigger] g.kids@[i]) == 5 + 2 * i
                && (#[trigger] g.objects@[4 + 2 * i]) is ContentStream && (g.objects@[5 + 2 * i]
                matches GraphObject::Page { parent, contents } && parent == 3 && contents == 4 + 2
                * i) by {
                if i < taken {
                    assert(g.kids@[i] == pre.kids@[i]);
                    assert(g.objects@[4 + 2 * i] == pre.objects@[4 + 2 * i]);
                    assert(g.objects@[5 + 2 * i] == pre.objects@[5 + 2 * i]);
                }
            }
        }
        taken += 1;
    }
    let ghost before = g;
    g.finalize();
    proof {
        assert(all.subrange(0, all.len() as int) =~= all);
        assert forall|i: int| 0 <= i < all.len() implies (#[trigger] g.objects@[4 + 2 * i])
            is ContentStream && (g.objects@[5 + 2 * i] matches GraphObject::Page {
            parent,
            contents,
        } && parent == 3 && contents == 4 + 2 * i) by {
            assert(g.objects@[4 + 2 * i] == before.objects@[4 + 2 * i]);
            assert(g.objects@[5 + 2 * i] == before.objects@[5 + 2 * i]);
        }
    }
    g
}

} // verus!
