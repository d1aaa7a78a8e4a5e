use order_labels::next_row_height;
use order_labels::text::contains_str;
use order_labels::text::truncate_description;
use order_labels::text::u32_to_string;

#[test]
fn row_recurrence_from_top_margin() {
    // Customer heading: page height 432, font 22, margin 18.
    assert_eq!(next_row_height(22, 432, 18), 392);
    // Then the label-part heading, one row spacing below.
    assert_eq!(next_row_height(18, 392, 3), 371);
    assert_eq!(next_row_height(18, 371, 3), 350);
    assert_eq!(next_row_height(12, 350, 3), 335);
    assert_eq!(next_row_height(10, 335, 3), 322);
}

#[test]
fn short_description_kept_verbatim() {
    assert_eq!(truncate_description("Carrots"), "Carrots");
    // Exactly twenty-three characters stays untouched.
    let exact = "abcdefghijklmnopqrstuvw";
    assert_eq!(exact.chars().count(), 23);
    assert_eq!(truncate_description(exact), exact);
}

#[test]
fn long_description_cut_to_twenty_one_plus_periods() {
    let long = "abcdefghijklmnopqrstuvwx";
    assert_eq!(long.chars().count(), 24);
    assert_eq!(truncate_description(long), "abcdefghijklmnopqrstu..");
}

#[test]
fn truncation_counts_characters_not_bytes() {
    // Twenty-five two-byte characters: cutting by bytes would split one.
    let long: String = std::iter::repeat('é').take(25).collect();
    let cut = truncate_description(&long);
    let expected: String = std::iter::repeat('é').take(21).collect::<String>() + "..";
    assert_eq!(cut, expected);
    assert_eq!(cut.chars().count(), 23);
}

#[test]
fn contains_finds_substring() {
    assert!(contains_str("Delivery Charge", "Delivery"));
    assert!(contains_str("Home Delivery", "Delivery"));
    assert!(contains_str("Delivery", "Delivery"));
    assert!(!contains_str("Deliver", "Delivery"));
    assert!(!contains_str("fresh eggs", "Delivery"));
    assert!(contains_str("anything", ""));
}

#[test]
fn decimal_rendering() {
    assert_eq!(u32_to_string(0), "0");
    assert_eq!(u32_to_string(7), "7");
    assert_eq!(u32_to_string(40321), "40321");
    assert_eq!(u32_to_string(4294967295), "4294967295");
}
