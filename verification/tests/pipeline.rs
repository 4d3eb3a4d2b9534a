//! End-to-end tests of the dump-parsing pipeline.

use marketlog::snapshot::{
    extract_item_name_from_filename, parse_market_log, process_dump, snapshot_from_rows,
};

fn row(fields: &[&str]) -> Vec<String> {
    fields.iter().map(|f| f.to_string()).collect()
}

#[test]
fn two_sides_aggregate() {
    let content = "5.50,,34,,,,,false,,,60003760,,,0\n6.00,,34,,,,,true,,,60003760,,,0\n";
    let md = parse_market_log(content, 4, 4).expect("snapshot expected");
    assert_eq!(md.item_name, "");
    assert_eq!(md.type_id, 34);
    assert_eq!(md.sell_price, Some(550));
    assert_eq!(md.buy_price, Some(600));
    assert_eq!(md.sell_order_count, 1);
    assert_eq!(md.buy_order_count, 1);
    assert_eq!(md.sell_price_95_ci, Some(550));
    assert_eq!(md.buy_price_95_ci, Some(600));
}

#[test]
fn reparse_is_bit_identical() {
    let content = "5.50,,34,,,,,false,,,60003760,,,0\n\
                   7.25,,34,,,,,false,,,60004588,,,0\n\
                   6.00,,34,,,,,true,,,60003760,,,1\n";
    let a = parse_market_log(content, 2, 1).expect("snapshot expected");
    let b = parse_market_log(content, 2, 1).expect("snapshot expected");
    assert_eq!(a.item_name, b.item_name);
    assert_eq!(a.type_id, b.type_id);
    assert_eq!(a.sell_price, b.sell_price);
    assert_eq!(a.buy_price, b.buy_price);
    assert_eq!(a.sell_order_count, b.sell_order_count);
    assert_eq!(a.buy_order_count, b.buy_order_count);
    assert_eq!(a.sell_price_95_ci, b.sell_price_95_ci);
    assert_eq!(a.buy_price_95_ci, b.buy_price_95_ci);
}

#[test]
fn header_only_dump_yields_nothing() {
    let content = "price,volRemaining,typeID,range,orderID,volEntered,minVolume,bid,issueDate,duration,stationID,regionID,solarSystemID,jumps\n";
    assert!(parse_market_log(content, 4, 4).is_none());
}

#[test]
fn alphabetic_first_field_yields_nothing() {
    let content = "zzz,,34,,,,,false,,,60003760,,,0\n";
    assert!(parse_market_log(content, 4, 4).is_none());
}

#[test]
fn empty_dump_yields_nothing() {
    assert!(parse_market_log("", 4, 4).is_none());
}

#[test]
fn header_row_is_skipped_data_rows_kept() {
    let content = "Price,a,b,c,d,e,f,g,h,i,j,k,l,m\n5.50,,34,,,,,false,,,60003760,,,0\n";
    let md = parse_market_log(content, 4, 4).expect("snapshot expected");
    assert_eq!(md.type_id, 34);
    assert_eq!(md.sell_order_count, 1);
    assert_eq!(md.sell_price, Some(550));
}

#[test]
fn type_id_comes_from_first_accepted_row() {
    let content = "bad,,99,,,,,false,,,60003760,,,0\n5.50,,34,,,,,false,,,60003760,,,0\n9.00,,77,,,,,true,,,60003760,,,0\n";
    let md = parse_market_log(content, 4, 4).expect("snapshot expected");
    assert_eq!(md.type_id, 34);
}

#[test]
fn min_sell_and_max_buy_prices() {
    let content = "5.50,,34,,,,,false,,,60003760,,,0\n\
                   4.75,,34,,,,,false,,,60003760,,,0\n\
                   9.10,,34,,,,,false,,,60003760,,,0\n\
                   1.00,,34,,,,,true,,,60003760,,,0\n\
                   2.50,,34,,,,,true,,,60003760,,,0\n";
    let md = parse_market_log(content, 4, 4).expect("snapshot expected");
    assert_eq!(md.sell_price, Some(475));
    assert_eq!(md.buy_price, Some(250));
    assert_eq!(md.sell_order_count, 3);
    assert_eq!(md.buy_order_count, 2);
}

#[test]
fn confidence_bounds_of_two_prices() {
    // Prices 1.00 and 2.00 in hundredths: mean 150, Bessel variance 5000,
    // stddev floor(sqrt(5000)) = 70, margin floor(1.96 * 70 / sqrt(2)) = 97.
    let content = "1.00,,34,,,,,false,,,60003760,,,0\n2.00,,34,,,,,false,,,60003760,,,0\n";
    let md = parse_market_log(content, 4, 4).expect("snapshot expected");
    assert_eq!(md.sell_price, Some(100));
    assert_eq!(md.sell_price_95_ci, Some(150 - 97));
    assert_eq!(md.buy_price, None);
    assert_eq!(md.buy_price_95_ci, None);
}

#[test]
fn hub_range_excludes_out_of_hub_rows() {
    // One jump away from the hub: invisible at Hub range, visible at
    // OneJump and Region.
    let content = "5.50,,34,,,,,false,,,60003760,,,1\n";
    let hub = parse_market_log(content, 0, 0).expect("snapshot expected");
    assert_eq!(hub.sell_price, None);
    assert_eq!(hub.sell_order_count, 0);
    assert_eq!(hub.sell_price_95_ci, None);
    let one_jump = parse_market_log(content, 2, 2).expect("snapshot expected");
    assert_eq!(one_jump.sell_price, Some(550));
    let region = parse_market_log(content, 4, 4).expect("snapshot expected");
    assert_eq!(region.sell_price, Some(550));
}

#[test]
fn rows_without_enough_fields_are_skipped() {
    let content = "5.50,,34,,,,,false,,,60003760,,0\n";
    assert!(parse_market_log(content, 4, 4).is_none());
}

#[test]
fn snapshot_from_rows_matches_pipeline() {
    let rows = vec![
        row(&["5.50", "", "34", "", "", "", "", "false", "", "", "60003760", "", "", "0"]),
        row(&["6.00", "", "34", "", "", "", "", "true", "", "", "60003760", "", "", "0"]),
    ];
    let md = snapshot_from_rows(&rows, 4, 4).expect("snapshot expected");
    assert_eq!(md.type_id, 34);
    assert_eq!(md.sell_price, Some(550));
    assert_eq!(md.buy_price, Some(600));
}

#[test]
fn process_dump_names_snapshot_from_file_name() {
    let content = "5.50,,34,,,,,false,,,60003760,,,0\n";
    let md = process_dump(content, "The Forge-Tritanium-2024.01.01 123456.txt", 4, 4)
        .expect("snapshot expected");
    assert_eq!(md.item_name, "Tritanium");
    assert_eq!(md.sell_price, Some(550));
}

#[test]
fn item_name_from_three_segments() {
    assert_eq!(extract_item_name_from_filename("60003760-34-Tritanium.txt"), "34");
}

#[test]
fn item_name_from_two_segments_is_unknown() {
    assert_eq!(extract_item_name_from_filename("only-two.txt"), "Unknown");
}

#[test]
fn item_name_rejoins_inner_hyphens() {
    assert_eq!(extract_item_name_from_filename("a-b-c-d.txt"), "b-c");
}

#[test]
fn item_name_of_empty_middle_is_unknown() {
    assert_eq!(extract_item_name_from_filename("a--b.txt"), "Unknown");
    assert_eq!(extract_item_name_from_filename("plain.txt"), "Unknown");
    assert_eq!(extract_item_name_from_filename(""), "Unknown");
}
