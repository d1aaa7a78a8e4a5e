use order_labels::layout::LayoutConfig;
use order_labels::layout::fits_single_label;
use order_labels::layout::item_qualifies;
use order_labels::layout::resolve_fulfillment;
use order_labels::layout::split_point;
use order_labels::models::Order;
use order_labels::models::group_orders;

fn item(id: u32, fulfillment: Option<&str>, description: &str, customer: &str) -> Order {
    Order {
        id,
        fulfillment: fulfillment.map(|s| s.to_string()),
        paid: "yes".to_string(),
        item: description.to_string(),
        unit_size: Some("lb".to_string()),
        quantity: Some(1),
        price: Some("4.00".to_string()),
        customer: customer.to_string(),
        addr_pickup: None,
        addr_delivery: None,
    }
}

#[test]
fn grouping_keeps_first_seen_order_and_contents() {
    let rows = vec![
        item(7, Some("Pickup"), "Eggs", "Ada"),
        item(3, Some("Delivery"), "Milk", "Grace"),
        item(7, Some("Pickup"), "Butter", "Ada"),
        item(5, Some("Pickup"), "Kale", "Edith"),
        item(3, Some("Delivery"), "Bread", "Grace"),
    ];
    let batch = group_orders(&rows);
    let ids: Vec<u32> = batch.groups.iter().map(|g| g.id).collect();
    assert_eq!(ids, vec![7, 3, 5]);
    let seven: Vec<&str> = batch.groups[0].items.iter().map(|o| o.item.as_str()).collect();
    assert_eq!(seven, vec!["Eggs", "Butter"]);
    let three: Vec<&str> = batch.groups[1].items.iter().map(|o| o.item.as_str()).collect();
    assert_eq!(three, vec!["Milk", "Bread"]);
    assert_eq!(batch.groups[2].items.len(), 1);
}

#[test]
fn grouping_of_empty_input_is_empty() {
    let batch = group_orders(&Vec::new());
    assert_eq!(batch.groups.len(), 0);
}

#[test]
fn qualifying_needs_fulfillment_and_no_delivery_mark() {
    assert!(item_qualifies(&item(1, Some("Pickup"), "Eggs", "Ada")));
    assert!(!item_qualifies(&item(1, None, "Eggs", "Ada")));
    assert!(!item_qualifies(&item(1, Some("Pickup"), "Delivery Charge", "Ada")));
    assert!(!item_qualifies(&item(1, Some("Pickup"), "Home Delivery Fee", "Ada")));
}

#[test]
fn fit_boundary_on_standard_label() {
    let cfg = LayoutConfig::standard();
    // usable height 308 - 18 = 290; each row takes 13 + 3 = 16 units.
    assert!(fits_single_label(18, &cfg));
    assert!(!fits_single_label(19, &cfg));
    assert!(fits_single_label(0, &cfg));
}

#[test]
fn split_point_is_floor_half() {
    assert_eq!(split_point(40), 20);
    assert_eq!(split_point(41), 20);
    assert_eq!(split_point(1), 0);
}

#[test]
fn fulfillment_resolution_first_then_last() {
    let first = vec![item(1, Some("Pickup"), "Eggs", "Ada"), item(1, None, "Milk", "Ada")];
    assert_eq!(resolve_fulfillment(&first), Some("Pickup".to_string()));
    let last = vec![item(1, None, "Eggs", "Ada"), item(1, Some("Delivery"), "Milk", "Ada")];
    assert_eq!(resolve_fulfillment(&last), Some("Delivery".to_string()));
    let neither = vec![
        item(1, None, "Eggs", "Ada"),
        item(1, Some("Pickup"), "Milk", "Ada"),
        item(1, None, "Jam", "Ada"),
    ];
    // The strategy looks only at the first and the last line item.
    assert_eq!(resolve_fulfillment(&neither), None);
}
