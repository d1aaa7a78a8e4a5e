use order_labels::emit::LabelPart;
use order_labels::graph::DocumentGraph;
use order_labels::graph::GraphObject;
use order_labels::graph::assemble_document;
use order_labels::layout::LayoutConfig;
use order_labels::models::Order;
use order_labels::plan::plan_order;

fn item(id: u32, description: &str) -> Order {
    Order {
        id,
        fulfillment: Some("Pickup".to_string()),
        paid: "yes".to_string(),
        item: description.to_string(),
        unit_size: Some("lb".to_string()),
        quantity: Some(1),
        price: None,
        customer: "Ada".to_string(),
        addr_pickup: None,
        addr_delivery: None,
    }
}

fn assembled(descriptions: &[&str]) -> DocumentGraph {
    let order: Vec<Order> = descriptions.iter().map(|d| item(8, d)).collect();
    let cfg = LayoutConfig::standard();
    let pages = plan_order(&order, &cfg).unwrap();
    assemble_document(pages)
}

#[test]
fn page_count_matches_pages_added() {
    let g = assembled(&["Eggs", "Milk", "Kale"]);
    assert_eq!(g.kids.len(), 1);
    match &g.objects[g.page_tree_slot] {
        GraphObject::PageTree { kids, count, resources } => {
            assert_eq!(*count, 1);
            assert_eq!(kids, &g.kids);
            assert_eq!(*resources, g.resources_slot);
        },
        _ => panic!("the pages container is missing"),
    }
    // The recorded pages are exactly the page objects of the arena.
    let page_indices: Vec<usize> = g
        .objects
        .iter()
        .enumerate()
        .filter(|(_, o)| matches!(o, GraphObject::Page { .. }))
        .map(|(j, _)| j)
        .collect();
    assert_eq!(page_indices, g.kids);
}

#[test]
fn arena_holds_nothing_beyond_the_inventory() {
    let g = assembled(&["Eggs", "Milk"]);
    // One page: two fonts, the resource dictionary, the pages container, one
    // stream, one page, one catalog — and nothing else.
    assert_eq!(g.objects.len(), 7);
    assert_eq!(g.kids, vec![5]);
    assert!(matches!(g.objects[0], GraphObject::Font { bold: false }));
    assert!(matches!(g.objects[1], GraphObject::Font { bold: true }));
    assert!(matches!(
        g.objects[2],
        GraphObject::FontDirectory { regular_font: 0, bold_font: 1 }
    ));
    assert!(matches!(g.objects[4], GraphObject::ContentStream { .. }));
    assert!(matches!(g.objects[5], GraphObject::Page { parent: 3, contents: 4 }));
    assert_eq!(g.root, Some(6));
    let fonts = g.objects.iter().filter(|o| matches!(o, GraphObject::Font { .. })).count();
    let dirs = g.objects.iter().filter(|o| matches!(o, GraphObject::FontDirectory { .. })).count();
    let streams =
        g.objects.iter().filter(|o| matches!(o, GraphObject::ContentStream { .. })).count();
    assert_eq!((fonts, dirs, streams), (2, 1, 1));
}

#[test]
fn every_reference_resolves() {
    let g = assembled(&["Eggs"]);
    let root = g.root.unwrap();
    match &g.objects[root] {
        GraphObject::Catalog { page_tree } => assert_eq!(*page_tree, g.page_tree_slot),
        _ => panic!("the trailer root is not the catalog"),
    }
    match &g.objects[g.resources_slot] {
        GraphObject::FontDirectory { regular_font, bold_font } => {
            assert!(matches!(g.objects[*regular_font], GraphObject::Font { bold: false }));
            assert!(matches!(g.objects[*bold_font], GraphObject::Font { bold: true }));
        },
        _ => panic!("the resource dictionary is missing"),
    }
    for kid in &g.kids {
        match &g.objects[*kid] {
            GraphObject::Page { parent, contents } => {
                assert_eq!(*parent, g.page_tree_slot);
                match &g.objects[*contents] {
                    GraphObject::ContentStream { page } => {
                        assert_eq!(page.part, LabelPart::Whole);
                    },
                    _ => panic!("a content stream reference dangles"),
                }
            },
            _ => panic!("a page reference dangles"),
        }
    }
}

#[test]
fn empty_batch_assembles_an_empty_finalized_graph() {
    let g = assemble_document(Vec::new());
    assert_eq!(g.kids.len(), 0);
    assert_eq!(g.objects.len(), 5);
    assert_eq!(g.root, Some(4));
    match &g.objects[g.page_tree_slot] {
        GraphObject::PageTree { kids, count, .. } => {
            assert_eq!(*count, 0);
            assert!(kids.is_empty());
        },
        _ => panic!("the pages container is missing"),
    }
}
