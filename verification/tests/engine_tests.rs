use order_labels::emit::LabelPage;
use order_labels::emit::LabelPart;
use order_labels::emit::Primitive;
use order_labels::engine::generate_labels;
use order_labels::layout::LayoutConfig;
use order_labels::models::Order;
use order_labels::models::group_orders;
use order_labels::plan::plan_batch;
use order_labels::plan::plan_order;
use order_labels::report::FailureKind;
use order_labels::report::classify_save_error;
use order_labels::report::success_message;

fn item(id: u32, fulfillment: Option<&str>, description: &str, customer: &str) -> Order {
    Order {
        id,
        fulfillment: fulfillment.map(|s| s.to_string()),
        paid: "yes".to_string(),
        item: description.to_string(),
        unit_size: Some("lb".to_string()),
        quantity: Some(2),
        price: Some("4.00".to_string()),
        customer: customer.to_string(),
        addr_pickup: None,
        addr_delivery: None,
    }
}

fn rendered_rows(page: &LabelPage) -> Vec<String> {
    page.primitives
        .iter()
        .filter_map(|p| match p {
            Primitive::Text { size, x, text, .. } if *size == 13 && *x == 18 => {
                Some(text.clone())
            },
            _ => None,
        })
        .collect()
}

fn rule_heights(page: &LabelPage) -> Vec<i32> {
    page.primitives
        .iter()
        .filter_map(|p| match p {
            Primitive::Rule { y } => Some(*y),
            _ => None,
        })
        .collect()
}

fn texts(page: &LabelPage) -> Vec<String> {
    page.primitives
        .iter()
        .filter_map(|p| match p {
            Primitive::Text { text, .. } => Some(text.clone()),
            _ => None,
        })
        .collect()
}

#[test]
fn three_fitting_items_make_one_page() {
    let order = vec![
        item(12, Some("Pickup"), "Eggs", "Ada"),
        item(12, Some("Pickup"), "Milk", "Ada"),
        item(12, Some("Pickup"), "Kale", "Ada"),
    ];
    let cfg = LayoutConfig::standard();
    let pages = plan_order(&order, &cfg).unwrap();
    assert_eq!(pages.len(), 1);
    assert_eq!(pages[0].part, LabelPart::Whole);
    assert_eq!(rendered_rows(&pages[0]), vec!["Eggs", "Milk", "Kale"]);
    // One separator above each of the three rows and one below the last.
    let rules = rule_heights(&pages[0]);
    assert_eq!(rules.len(), 4);
    // Rows sit at 290, 274, 258; a separator sits 14 above its row and the
    // closing line one unit below the last row.
    assert_eq!(rules, vec![290 + 14, 274 + 14, 258 + 14, 258 - 1]);
    let all = texts(&pages[0]);
    assert!(all.contains(&"Ada".to_string()));
    assert!(all.contains(&"Label 1 of 1".to_string()));
    assert!(all.contains(&"Pickup".to_string()));
    assert!(all.contains(&"Order # 12".to_string()));
}

#[test]
fn forty_items_split_into_two_tagged_pages() {
    let mut order = Vec::new();
    for k in 0..40 {
        order.push(item(9, Some("Pickup"), &format!("Item number {}", k), "Grace"));
    }
    let cfg = LayoutConfig::standard();
    let pages = plan_order(&order, &cfg).unwrap();
    assert_eq!(pages.len(), 2);
    assert_eq!(pages[0].part, LabelPart::PartOne);
    assert_eq!(pages[1].part, LabelPart::PartTwo);
    assert!(texts(&pages[0]).contains(&"Label 1 of 2".to_string()));
    assert!(texts(&pages[1]).contains(&"Label 2 of 2".to_string()));
    let first = rendered_rows(&pages[0]);
    let second = rendered_rows(&pages[1]);
    assert_eq!(first.len(), 20);
    assert_eq!(second.len(), 20);
    let mut joined = first;
    joined.extend(second);
    let expected: Vec<String> = (0..40).map(|k| format!("Item number {}", k)).collect();
    assert_eq!(joined, expected);
}

#[test]
fn skipped_items_are_not_rendered() {
    let order = vec![
        item(4, Some("Pickup"), "Eggs", "Ada"),
        item(4, None, "Hidden continuation", "Ada"),
        item(4, Some("Pickup"), "Delivery Charge", "Ada"),
        item(4, Some("Pickup"), "Milk", "Ada"),
    ];
    let cfg = LayoutConfig::standard();
    let pages = plan_order(&order, &cfg).unwrap();
    assert_eq!(pages.len(), 1);
    assert_eq!(rendered_rows(&pages[0]), vec!["Eggs", "Milk"]);
}

#[test]
fn long_description_is_truncated_on_the_page() {
    let order = vec![item(4, Some("Pickup"), "A very long description that overflows", "Ada")];
    let cfg = LayoutConfig::standard();
    let pages = plan_order(&order, &cfg).unwrap();
    assert_eq!(rendered_rows(&pages[0]), vec!["A very long descripti.."]);
}

#[test]
fn order_without_any_fulfillment_fails_and_yields_no_page() {
    let order = vec![item(31, None, "Eggs", "Ada"), item(31, None, "Milk", "Ada")];
    let cfg = LayoutConfig::standard();
    let result = plan_order(&order, &cfg);
    let failure = result.err().unwrap();
    assert_eq!(failure.kind, FailureKind::MissingFulfillment);
    assert!(failure.message.contains("31"));

    let batch = group_orders(&order);
    let batch_result = plan_batch(&batch, &cfg);
    assert_eq!(batch_result.err().unwrap().kind, FailureKind::MissingFulfillment);
}

#[test]
fn batch_pages_follow_batch_order_with_halves_adjacent() {
    let mut rows = Vec::new();
    rows.push(item(1, Some("Pickup"), "Eggs", "Ada"));
    for k in 0..30 {
        rows.push(item(2, Some("Delivery Route"), &format!("Bulk {}", k), "Grace"));
    }
    rows.push(item(3, Some("Pickup"), "Kale", "Edith"));
    let batch = group_orders(&rows);
    let cfg = LayoutConfig::standard();
    let pages = plan_batch(&batch, &cfg).unwrap();
    let parts: Vec<LabelPart> = pages.iter().map(|p| p.part).collect();
    assert_eq!(
        parts,
        vec![LabelPart::Whole, LabelPart::PartOne, LabelPart::PartTwo, LabelPart::Whole]
    );
    assert_eq!(rendered_rows(&pages[0]), vec!["Eggs"]);
    assert_eq!(rendered_rows(&pages[1]).len(), 15);
    assert_eq!(rendered_rows(&pages[2]).len(), 15);
    assert_eq!(rendered_rows(&pages[3]), vec!["Kale"]);
}

#[test]
fn locked_destination_is_classified_distinctly() {
    let locked = classify_save_error(Some(32), "labels.pdf", "os error 32");
    assert_eq!(locked.kind, FailureKind::DestinationLocked);
    assert!(locked.message.contains("labels.pdf"));
    assert!(locked.message.contains("open"));

    let generic = classify_save_error(Some(5), "labels.pdf", "access denied");
    assert_eq!(generic.kind, FailureKind::GenericSave);
    assert!(generic.message.contains("labels.pdf"));
    assert!(generic.message.contains("access denied"));

    let unknown = classify_save_error(None, "labels.pdf", "strange");
    assert_eq!(unknown.kind, FailureKind::GenericSave);
}

#[test]
fn malformed_input_is_classified_as_grouping_failure() {
    let failure = order_labels::report::grouping_input_failure("orders.csv", "row 3: bad integer");
    assert_eq!(failure.kind, FailureKind::GroupingInput);
    assert!(failure.message.contains("orders.csv"));
    assert!(failure.message.contains("row 3: bad integer"));
}

#[test]
fn success_message_names_the_destination() {
    let message = success_message("out/labels.pdf");
    assert!(message.contains("out/labels.pdf"));
    assert!(message.contains("saved"));
}

#[test]
fn generated_document_round_trips_through_the_pdf_library() {
    let rows = vec![
        item(11, Some("Pickup"), "Eggs", "Ada"),
        item(11, Some("Pickup"), "Milk", "Ada"),
        item(22, Some("Delivery Route"), "Bread", "Grace"),
    ];
    let batch = group_orders(&rows);
    let cfg = LayoutConfig::standard();
    let mut doc = generate_labels(&batch, &cfg).ok().unwrap();
    // Two orders, both fitting: one page each, plus fonts, resources, pages
    // container and catalog.
    assert_eq!(doc.max_id, 5 + 2 * 2);
    let pages = doc.get_pages();
    assert_eq!(pages.len(), 2);

    // The document survives serialization and re-parsing, and the parsed
    // object graph resolves from the trailer root down to the content bytes.
    let mut bytes: Vec<u8> = Vec::new();
    doc.save_to(&mut bytes).unwrap();
    let parsed = lopdf::Document::load_mem(&bytes).unwrap();
    let parsed_pages = parsed.get_pages();
    assert_eq!(parsed_pages.len(), 2);
    let root_id = parsed.trailer.get(b"Root").unwrap().as_reference().unwrap();
    let catalog = parsed.get_object(root_id).unwrap().as_dict().unwrap();
    let tree_id = catalog.get(b"Pages").unwrap().as_reference().unwrap();
    let tree = parsed.get_object(tree_id).unwrap().as_dict().unwrap();
    assert_eq!(tree.get(b"Count").unwrap().as_i64().unwrap(), 2);
    for (_, page_id) in parsed_pages {
        let page = parsed.get_object(page_id).unwrap().as_dict().unwrap();
        let parent = page.get(b"Parent").unwrap().as_reference().unwrap();
        assert_eq!(parent, tree_id);
        let contents = page.get(b"Contents").unwrap().as_reference().unwrap();
        // The content stream exists and decodes to the emitted operations.
        let stream = parsed.get_object(contents).unwrap().as_stream().unwrap();
        let content = stream.decompressed_content().unwrap();
        let decoded = lopdf::content::Content::decode(&content).unwrap();
        assert!(decoded.operations.iter().any(|op| op.operator == "Tj"));
        assert!(decoded.operations.iter().any(|op| op.operator == "S"));
    }
}

#[test]
fn rendered_text_reaches_the_content_stream() {
    let rows = vec![item(77, Some("Pickup"), "Spinach", "Ada")];
    let batch = group_orders(&rows);
    let cfg = LayoutConfig::standard();
    let mut doc = generate_labels(&batch, &cfg).ok().unwrap();
    let mut bytes: Vec<u8> = Vec::new();
    doc.save_to(&mut bytes).unwrap();
    let parsed = lopdf::Document::load_mem(&bytes).unwrap();
    let text = parsed.extract_text(&[1]).unwrap();
    assert!(text.contains("Spinach"));
    assert!(text.contains("Ada"));
    assert!(text.contains("Order # 77"));
}
