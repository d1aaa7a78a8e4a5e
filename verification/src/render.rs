//! Serialization of the finalized document graph through the PDF library.
//! Every call into the library goes through one trusted item whose doc
//! comment names the function relied on; the walk over the graph and the
//! object-number accounting are verified.
use vstd::prelude::*;

use crate::emit::LabelPage;
use crate::emit::Primitive;
use crate::graph::DocumentGraph;
use crate::graph::GraphObject;
use crate::layout::MARGIN;
use crate::layout::PAGE_HEIGHT;
use crate::layout::PAGE_WIDTH;
use vstd::pervasive::unreached;

verus! {

/// Width of a ruled separator line, in layout units.
pub const RULE_WIDTH: u16 = 1;

#[verifier::external_type_specification]
#[verifier::external_body]
pub struct ExDocument(lopdf::Document);

#[verifier::external_type_specification]
#[verifier::external_body]
pub struct ExOperation(lopdf::content::Operation);

/// The highest object number allocated in a document so far.
pub uninterp spec fn doc_max_id(d: &lopdf::Document) -> nat;

/// The five operations of one positioned text block; they depend on the
/// arguments alone.
pub uninterp spec fn text_ops(font: Seq<char>, size: u16, x: u16, y: i32, text: Seq<char>) -> Seq<
    lopdf::content::Operation,
>;

/// The four operations of one ruled horizontal line; they depend on the
/// arguments alone.
pub uninterp spec fn rule_ops(width: u16, x_start: u16, x_end: u16, y: i32) -> Seq<
    lopdf::content::Operation,
>;

/// The content-stream bytes of an operation sequence; they depend on the
/// operations alone.
pub uninterp spec fn encoded_ops(ops: Seq<lopdf::content::Operation>) -> Seq<u8>;

/// Relies on lopdf::Document::with_version: a fresh document holds no objects,
/// so its highest object number is zero.
#[verifier::external_body]
fn new_document() -> (d: lopdf::Document)
    ensures
        doc_max_id(&d) == 0,
{
    lopdf::Document::with_version("1.5")
}

/// Relies on lopdf::Document::new_object_id: it increments the document's
/// highest object number and returns it, with generation zero.
#[verifier::external_body]
fn reserve_object_id(doc: &mut lopdf::Document) -> (r: (u32, u16))
    requires
        doc_max_id(old(doc)) + 1 <= u32::MAX,
    ensures
        doc_max_id(final(doc)) == doc_max_id(old(doc)) + 1,
        r.0 as nat == doc_max_id(final(doc)),
        r.1 == 0,
{
    doc.new_object_id()
}

/// Relies on lopdf::Document::add_object: it stores the object under the
/// incremented highest object number and returns that number, with generation
/// zero. The dictionary holds a Type-1-family font entry.
#[verifier::external_body]
fn add_font_object(doc: &mut lopdf::Document, subtype: &str) -> (r: (u32, u16))
    requires
        doc_max_id(old(doc)) + 1 <= u32::MAX,
    ensures
        doc_max_id(final(doc)) == doc_max_id(old(doc)) + 1,
        r.0 as nat == doc_max_id(final(doc)),
        r.1 == 0,
{
    let mut d = lopdf::Dictionary::new();
    d.set("Type", "Font");
    d.set("Subtype", subtype);
    d.set("BaseFont", "Arial");
    doc.add_object(d)
}

/// Relies on lopdf::Document::add_object, as in `add_font_object`. The
/// dictionary maps the logical font names to the two font objects.
#[verifier::external_body]
fn add_resources_object(doc: &mut lopdf::Document, regular: (u32, u16), bold: (u32, u16)) -> (r: (
    u32,
    u16,
))
    requires
        doc_max_id(old(doc)) + 1 <= u32::MAX,
    ensures
        doc_max_id(final(doc)) == doc_max_id(old(doc)) + 1,
        r.0 as nat == doc_max_id(final(doc)),
        r.1 == 0,
{
    let mut fonts = lopdf::Dictionary::new();
    fonts.set("F1", lopdf::Object::Reference(regular));
    fonts.set("F2", lopdf::Object::Reference(bold));
    let mut d = lopdf::Dictionary::new();
    d.set("Font", lopdf::Object::Dictionary(fonts));
    doc.add_object(d)
}

/// Relies on lopdf::Document::add_object and lopdf::Stream::new, which wraps
/// the encoded content bytes in a stream object.
#[verifier::external_body]
fn add_stream_object(doc: &mut lopdf::Document, content: Vec<u8>) -> (r: (u32, u16))
    requires
        doc_max_id(old(doc)) + 1 <= u32::MAX,
    ensures
        doc_max_id(final(doc)) == doc_max_id(old(doc)) + 1,
        r.0 as nat == doc_max_id(final(doc)),
        r.1 == 0,
{
    doc.add_object(lopdf::Stream::new(lopdf::Dictionary::new(), content))
}

/// Relies on lopdf::Document::add_object, as in `add_font_object`. The page
/// dictionary references its parent container and its content stream.
#[verifier::external_body]
fn add_page_object(doc: &mut lopdf::Document, parent: (u32, u16), contents: (u32, u16)) -> (r: (
    u32,
    u16,
))
    requires
        doc_max_id(old(doc)) + 1 <= u32::MAX,
    ensures
        doc_max_id(final(doc)) == doc_max_id(old(doc)) + 1,
        r.0 as nat == doc_max_id(final(doc)),
        r.1 == 0,
{
    let mut d = lopdf::Dictionary::new();
    d.set("Type", "Page");
    d.set("Parent", lopdf::Object::Reference(parent));
    d.set("Contents", lopdf::Object::Reference(contents));
    doc.add_object(d)
}

/// Relies on lopdf::Document::set_object: it stores the pages container under
/// the identifier reserved for it and allocates no object number. The
/// container lists the page references, their count, the shared resources and
/// the physical page size.
#[verifier::external_body]
fn set_page_tree(
    doc: &mut lopdf::Document,
    id: (u32, u16),
    kids: Vec<(u32, u16)>,
    count: usize,
    resources: (u32, u16),
    width: u16,
    height: u16,
)
    ensures
        doc_max_id(final(doc)) == doc_max_id(old(doc)),
{
    let kid_refs: Vec<lopdf::Object> = kids.into_iter().map(lopdf::Object::Reference).collect();
    let mut d = lopdf::Dictionary::new();
    d.set("Type", "Pages");
    d.set("Kids", kid_refs);
    d.set("Count", count as i64);
    d.set("Resources", lopdf::Object::Reference(resources));
    d.set("MediaBox", vec![0.into(), 0.into(), width.into(), height.into()]);
    doc.set_object(id, d);
}

/// Relies on lopdf::Document::add_object, as in `add_font_object`. The
/// catalog references the pages container.
#[verifier::external_body]
fn add_catalog_object(doc: &mut lopdf::Document, page_tree: (u32, u16)) -> (r: (u32, u16))
    requires
        doc_max_id(old(doc)) + 1 <= u32::MAX,
    ensures
        doc_max_id(final(doc)) == doc_max_id(old(doc)) + 1,
        r.0 as nat == doc_max_id(final(doc)),
        r.1 == 0,
{
    let mut d = lopdf::Dictionary::new();
    d.set("Type", "Catalog");
    d.set("Pages", lopdf::Object::Reference(page_tree));
    doc.add_object(d)
}

/// Relies on lopdf::Dictionary::set on the document's trailer: it points the
/// trailer's root entry at the catalog and allocates no object number.
#[verifier::external_body]
fn set_trailer_root(doc: &mut lopdf::Document, catalog: (u32, u16))
    ensures
        doc_max_id(final(doc)) == doc_max_id(old(doc)),
{
    doc.trailer.set("Root", lopdf::Object::Reference(catalog));
}

/// Relies on lopdf::Document::compress: it deflates stream contents in place
/// and allocates no object number.
#[verifier::external_body]
fn compress_document(doc: &mut lopdf::Document)
    ensures
        doc_max_id(final(doc)) == doc_max_id(old(doc)),
{
    doc.compress();
}

/// Relies on lopdf::content::Operation::new: appends the five operations of
/// one positioned text block.
#[verifier::external_body]
fn push_text_ops(
    ops: &mut Vec<lopdf::content::Operation>,
    font: &str,
    size: u16,
    x: u16,
    y: i32,
    text: &str,
)
    ensures
        final(ops)@ == old(ops)@ + text_ops(font@, size, x, y, text@),
        final(ops)@.len() == old(ops)@.len() + 5,
{
    ops.push(lopdf::content::Operation::new("BT", vec![]));
    ops.push(lopdf::content::Operation::new("Tf", vec![font.into(), size.into()]));
    ops.push(lopdf::content::Operation::new("Td", vec![x.into(), y.into()]));
    ops.push(lopdf::content::Operation::new("Tj", vec![lopdf::Object::string_literal(text)]));
    ops.push(lopdf::content::Operation::new("ET", vec![]));
}

/// Relies on lopdf::content::Operation::new: appends the four operations of
/// one ruled horizontal line.
#[verifier::external_body]
fn push_rule_ops(
    ops: &mut Vec<lopdf::content::Operation>,
    width: u16,
    x_start: u16,
    x_end: u16,
    y: i32,
)
    ensures
        final(ops)@ == old(ops)@ + rule_ops(width, x_start, x_end, y),
        final(ops)@.len() == old(ops)@.len() + 4,
{
    ops.push(lopdf::content::Operation::new("w", vec![width.into()]));
    ops.push(lopdf::content::Operation::new("m", vec![x_start.into(), y.into()]));
    ops.push(lopdf::content::Operation::new("l", vec![x_end.into(), y.into()]));
    ops.push(lopdf::content::Operation::new("S", vec![]));
}

/// Relies on lopdf::content::Content::encode: it serializes the operations to
/// content-stream bytes, a function of the operations alone. Its only error
/// paths are input/output errors of the writer it is given, and writing into
/// an in-memory byte buffer cannot fail, so encoding always succeeds.
#[verifier::external_body]
fn encode_operations(ops: &Vec<lopdf::content::Operation>) -> (r: Option<Vec<u8>>)
    ensures
        r is Some,
        r->0@ == encoded_ops(ops@),
{
    let content = lopdf::content::Content { operations: ops.as_slice() };
    match content.encode() {
        Ok(bytes) => Some(bytes),
        Err(_) => None,
    }
}

/// The operations of one primitive: a text block's five or a rule's four.
pub open spec fn ops_of_prim(p: Primitive) -> Seq<lopdf::content::Operation> {
    match p {
        Primitive::Text { bold, size, x, y, text } => text_ops(
            if bold {
                "F2"@
            } else {
                "F1"@
            },
            size,
            x,
            y,
            text@,
        ),
        Primitive::Rule { y } => rule_ops(RULE_WIDTH, MARGIN, (PAGE_WIDTH - MARGIN) as u16, y),
    }
}

/// The operations of a primitive sequence, in paint order.
pub open spec fn ops_of_prims(prims: Seq<Primitive>) -> Seq<lopdf::content::Operation>
    decreases prims.len(),
{
    if prims.len() == 0 {
        Seq::empty()
    } else {
        ops_of_prims(prims.drop_last()) + ops_of_prim(prims.last())
    }
}

/// Translate one page's primitives into exactly their content-stream
/// operations, in paint order.
fn operations_for(page: &LabelPage) -> (ops: Vec<lopdf::content::Operation>)
    ensures
        ops@ == ops_of_prims(page.primitives@),
{
    let mut ops: Vec<lopdf::content::Operation> = Vec::new();
    let mut k: usize = 0;
    while k < page.primitives.len()
        invariant
            k <= page.primitives@.len(),
            ops@ == ops_of_prims(page.primitives@.subrange(0, k as int)),
        decreases page.primitives@.len() - k,
    {
        let ghost pre = page.primitives@.subrange(0, k as int);
        let ghost ext = page.primitives@.subrange(0, k as int + 1);
        proof {
            assert(ext.drop_last() =~= pre);
            assert(ext.last() == page.primitives@[k as int]);
        }
        match &page.primitives[k] {
            Primitive::Text { bold, size, x, y, text } => {
                let font = if *bold {
                    "F2"
                } else {
                    "F1"
                };
                push_text_ops(&mut ops, font, *size, *x, *y, text.as_str());
            },
            Primitive::Rule { y } => {
                push_rule_ops(&mut ops, RULE_WIDTH, MARGIN, PAGE_WIDTH - MARGIN, *y);
            },
        }
        k += 1;
    }
    proof {
        assert(page.primitives@.subrange(0, page.primitives@.len() as int) =~= page.primitives@);
    }
    ops
}

/// Serialize the finalized graph into a document of the PDF library: one
/// stream and one page object per recorded page, the shared resources, the
/// pages container under its reserved number, the catalog, and the trailer
/// root, then compress the streams. The document's highest object number
/// accounts for exactly the objects of the graph.
pub fn render_document(g: &DocumentGraph) -> (d: lopdf::Document)
    requires
        g.complete(),
        g.kids@.len() * 2 + 5 <= u32::MAX,
    ensures
        doc_max_id(&d) == 5 + 2 * g.kids@.len(),
{
    let mut doc = new_document();
    let font_regular = add_font_object(&mut doc, "Type1");
    let font_bold = add_font_object(&mut doc, "Type2");
    let resources = add_resources_object(&mut doc, font_regular, font_bold);
    let pages_id = reserve_object_id(&mut doc);
    let mut kid_ids: Vec<(u32, u16)> = Vec::new();
    let mut k: usize = 0;
    while k < g.kids.len()
        invariant
            g.complete(),
            g.kids@.len() * 2 + 5 <= u32::MAX,
            k <= g.kids@.len(),
            doc_max_id(&doc) == 4 + 2 * k,
            kid_ids@.len() == k,
        decreases g.kids@.len() - k,
    {
        let kid_index = g.kids[k];
        let contents_index = match &g.objects[kid_index] {
            GraphObject::Page { parent: _, contents } => *contents,
            _ => unreached(),
        };
        let page = match &g.objects[contents_index] {
            GraphObject::ContentStream { page } => page,
            _ => unreached(),
        };
        let ops = operations_for(page);
        let bytes = match encode_operations(&ops) {
            Some(b) => b,
            None => unreached(),
        };
        let stream_id = add_stream_object(&mut doc, bytes);
        let page_id = add_page_object(&mut doc, pages_id, stream_id);
        kid_ids.push(page_id);
        k += 1;
    }
    set_page_tree(&mut doc, pages_id, kid_ids, k, resources, PAGE_WIDTH, PAGE_HEIGHT);
    let catalog_id = add_catalog_object(&mut doc, pages_id);
    set_trailer_root(&mut doc, catalog_id);
    compress_document(&mut doc);
    doc
}

} // verus!
