//! Tests of the row parser and its numeric field grammar.

use marketlog::range::{is_hub, qualifies, OrderRange};
use marketlog::record::{is_header_like, parse_cents, parse_csv_row, parse_i32, OrderRow, MAX_CENTS};

fn row(fields: &[&str]) -> Vec<String> {
    fields.iter().map(|f| f.to_string()).collect()
}

fn qualifying_row() -> Vec<String> {
    row(&["5.50", "", "34", "", "", "", "", "false", "", "", "60003760", "", "", "0"])
}

#[test]
fn parses_a_plain_row() {
    let order = parse_csv_row(&qualifying_row()).expect("row should parse");
    assert_eq!(order.price, 550);
    assert!(!order.is_buy_order);
    assert_eq!(order.location_id, 6000376000);
    assert_eq!(order.jumps, 0);
    assert_eq!(order.type_id, 34);
}

#[test]
fn hub_row_qualifies_at_hub_range() {
    let order = parse_csv_row(&qualifying_row()).expect("row should parse");
    assert!(is_hub(order.location_id));
    assert!(qualifies(OrderRange::Hub, false, &order));
    assert!(qualifies(OrderRange::System, false, &order));
    assert!(qualifies(OrderRange::Region, false, &order));
    // The side filter is conjunctive.
    assert!(!qualifies(OrderRange::Region, true, &order));
}

#[test]
fn one_jump_row_fails_hub_but_passes_wider_ranges() {
    let mut fields = qualifying_row();
    fields[13] = "1".to_string();
    let order = parse_csv_row(&fields).expect("row should parse");
    assert_eq!(order.jumps, 1);
    assert!(!qualifies(OrderRange::Hub, false, &order));
    assert!(!qualifies(OrderRange::System, false, &order));
    assert!(qualifies(OrderRange::OneJump, false, &order));
    assert!(qualifies(OrderRange::TwoJump, false, &order));
    assert!(qualifies(OrderRange::Region, false, &order));
}

#[test]
fn non_hub_location_fails_hub_range() {
    let mut fields = qualifying_row();
    fields[10] = "60000001".to_string();
    let order = parse_csv_row(&fields).expect("row should parse");
    assert!(!is_hub(order.location_id));
    assert!(!qualifies(OrderRange::Hub, false, &order));
    assert!(qualifies(OrderRange::System, false, &order));
}

#[test]
fn range_ordinals_clamp_to_region() {
    assert_eq!(OrderRange::from(0u8), OrderRange::Hub);
    assert_eq!(OrderRange::from(1u8), OrderRange::System);
    assert_eq!(OrderRange::from(2u8), OrderRange::OneJump);
    assert_eq!(OrderRange::from(3u8), OrderRange::TwoJump);
    assert_eq!(OrderRange::from(4u8), OrderRange::Region);
    assert_eq!(OrderRange::from(5u8), OrderRange::Region);
    assert_eq!(OrderRange::from(255u8), OrderRange::Region);
}

#[test]
fn buy_flag_is_case_insensitive() {
    let mut fields = qualifying_row();
    fields[7] = "TRUE".to_string();
    assert!(parse_csv_row(&fields).expect("row should parse").is_buy_order);
    fields[7] = "True".to_string();
    assert!(parse_csv_row(&fields).expect("row should parse").is_buy_order);
    fields[7] = "yes".to_string();
    assert!(!parse_csv_row(&fields).expect("row should parse").is_buy_order);
}

#[test]
fn short_row_is_rejected() {
    let fields = row(&["5.50", "", "34", "", "", "", "", "false", "", "", "60003760", "", "0"]);
    assert!(parse_csv_row(&fields).is_none());
}

#[test]
fn header_like_first_field_is_rejected() {
    let mut fields = qualifying_row();
    fields[0] = "  PRICE ".to_string();
    assert!(parse_csv_row(&fields).is_none());
    fields[0] = " bid".to_string();
    assert!(parse_csv_row(&fields).is_none());
}

#[test]
fn header_detection_trims_and_folds_case() {
    // Whitespace is trimmed before the check, so these depend on trimming
    // really happening.
    assert!(is_header_like("  price "));
    assert!(is_header_like("\tPrice"));
    assert!(is_header_like(" zzz"));
    // Alphabetic first character after trimming.
    assert!(is_header_like("bid"));
    assert!(!is_header_like("5.50"));
    assert!(!is_header_like(" 5.50 "));
    assert!(!is_header_like(""));
    assert!(!is_header_like("   "));
    // A digit-led field is no header even when letters follow.
    assert!(!is_header_like("5abc"));
}

#[test]
fn unparsable_fields_reject_the_whole_row() {
    for (idx, bad) in [(0usize, "5,5"), (2, "x34"), (10, "6.0e7"), (13, "1.5")] {
        let mut fields = qualifying_row();
        fields[idx] = bad.to_string();
        assert!(parse_csv_row(&fields).is_none(), "field {idx} = {bad:?} should reject");
    }
}

#[test]
fn decimal_grammar() {
    assert_eq!(parse_cents("5.50"), Some(550));
    assert_eq!(parse_cents("5"), Some(500));
    assert_eq!(parse_cents("5."), Some(500));
    assert_eq!(parse_cents(".5"), Some(50));
    assert_eq!(parse_cents("0.05"), Some(5));
    // Fraction digits past the second are truncated away.
    assert_eq!(parse_cents("5.509"), Some(550));
    assert_eq!(parse_cents("60003760"), Some(6000376000));
    assert_eq!(parse_cents(""), None);
    assert_eq!(parse_cents("."), None);
    assert_eq!(parse_cents("-1"), None);
    assert_eq!(parse_cents("+1"), None);
    assert_eq!(parse_cents("1e5"), None);
    assert_eq!(parse_cents("1.2.3"), None);
    assert_eq!(parse_cents(" 5"), None);
    assert_eq!(parse_cents("100000000000000"), Some(MAX_CENTS));
    assert_eq!(parse_cents("100000000000000.01"), None);
    assert_eq!(parse_cents("999999999999999999999999"), None);
}

#[test]
fn integer_grammar() {
    assert_eq!(parse_i32("0"), Some(0));
    assert_eq!(parse_i32("+12"), Some(12));
    assert_eq!(parse_i32("-7"), Some(-7));
    assert_eq!(parse_i32("2147483647"), Some(i32::MAX));
    assert_eq!(parse_i32("2147483648"), None);
    assert_eq!(parse_i32("-2147483648"), Some(i32::MIN));
    assert_eq!(parse_i32("-2147483649"), None);
    assert_eq!(parse_i32(""), None);
    assert_eq!(parse_i32("-"), None);
    assert_eq!(parse_i32("1.5"), None);
    assert_eq!(parse_i32(" 1"), None);
}

#[test]
fn order_rows_compare_by_fields() {
    let a = OrderRow { price: 1, is_buy_order: false, location_id: 2, jumps: 3, type_id: 4 };
    let b = a;
    assert_eq!(a, b);
}
