//! Turning one market-log dump into one immutable price snapshot: the raw
//! text is split into records, each record is run through the tolerant row
//! parser, the qualifying orders of each side are aggregated, and the
//! result is combined with an item name derived from the dump's file name.
//!
//! Record splitting is the one step taken on trust (the csv crate performs
//! it); everything that happens to the split records is verified against
//! `spec_snapshot`, the mathematical description of the whole pipeline.

use vstd::prelude::*;
use crate::range::{filter_orders_by_range, spec_qualifies, spec_range_of_ordinal, OrderRange};
use crate::record::{parse_csv_row, spec_parse_row, OrderRow, MAX_CENTS};
use crate::stats::{
    calculate_95_ci_lower, calculate_95_ci_upper, lemma_seq_min_max, seq_max, seq_min,
    spec_all_in_range, spec_ci_lower, spec_ci_upper, spec_seq_max, spec_seq_min, MAX_ROWS,
};

verus! {

/// One normalized price snapshot for one tradable item, assembled once per
/// successfully parsed dump and never mutated afterwards. Prices are
/// fixed-point counts of hundredths; an absent side (no qualifying orders)
/// is carried as `None`, which an unverified boundary may render as the
/// conventional sentinel.
#[derive(Clone, Debug)]
pub struct MarketData {
    /// Display name of the item, derived from the dump's file name.
    pub item_name: String,
    /// Type id of the first successfully parsed row (the dump is monotype).
    pub type_id: i32,
    /// Lowest qualifying ask, in hundredths; `None` where no ask qualifies.
    pub sell_price: Option<u64>,
    /// Highest qualifying bid, in hundredths; `None` where no bid qualifies.
    pub buy_price: Option<u64>,
    /// How many asks qualified.
    pub sell_order_count: usize,
    /// How many bids qualified.
    pub buy_order_count: usize,
    /// Lower 95% confidence bound of the qualifying asks, in hundredths.
    pub sell_price_95_ci: Option<i64>,
    /// Upper 95% confidence bound of the qualifying bids, in hundredths.
    pub buy_price_95_ci: Option<i64>,
}

/// The mathematical shadow of `MarketData`.
pub struct MarketDataV {
    pub item_name: Seq<char>,
    pub type_id: i32,
    pub sell_price: Option<u64>,
    pub buy_price: Option<u64>,
    pub sell_order_count: int,
    pub buy_order_count: int,
    pub sell_price_95_ci: Option<i64>,
    pub buy_price_95_ci: Option<i64>,
}

impl View for MarketData {
    type V = MarketDataV;

    open spec fn view(&self) -> MarketDataV {
        MarketDataV {
            item_name: self.item_name@,
            type_id: self.type_id,
            sell_price: self.sell_price,
            buy_price: self.buy_price,
            sell_order_count: self.sell_order_count as int,
            buy_order_count: self.buy_order_count as int,
            sell_price_95_ci: self.sell_price_95_ci,
            buy_price_95_ci: self.buy_price_95_ci,
        }
    }
}

impl DeepView for MarketData {
    type V = MarketDataV;

    open spec fn deep_view(&self) -> MarketDataV {
        self.view()
    }
}

/// What the record splitter yields on given dump text: the sequence of
/// records, each a sequence of fields.
pub uninterp spec fn spec_csv_rows(content: Seq<char>) -> Seq<Seq<Seq<char>>>;

/// Relies on csv::ReaderBuilder and csv::StringRecord: splits delimited
/// text into records of fields, with no header row taken off, variable
/// field counts tolerated, and unreadable records skipped — a function of
/// the text alone.
#[verifier::external_body]
fn split_records(content: &str) -> (rows: Vec<Vec<String>>)
    ensures
        rows.deep_view() == spec_csv_rows(content@),
{
    let mut reader = csv::ReaderBuilder::new().has_headers(false).flexible(true).from_reader(
        content.as_bytes(),
    );
    let mut rows: Vec<Vec<String>> = Vec::new();
    for result in reader.records() {
        if let Ok(record) = result {
            rows.push(record.iter().map(|field| field.to_string()).collect());
        }
    }
    rows
}

/// The orders the rows of a dump denote, in dump order: each row run
/// through the row parser, rejected rows skipped.
pub open spec fn spec_parsed_orders(rows: Seq<Seq<Seq<char>>>) -> Seq<OrderRow>
    decreases rows.len(),
{
    if rows.len() == 0 {
        Seq::empty()
    } else {
        let rest = spec_parsed_orders(rows.drop_last());
        match spec_parse_row(rows.last()) {
            Some(order) => rest.push(order),
            None => rest,
        }
    }
}

pub proof fn lemma_parsed_orders_len(rows: Seq<Seq<Seq<char>>>)
    ensures
        spec_parsed_orders(rows).len() <= rows.len(),
    decreases rows.len(),
{
    if rows.len() > 0 {
        lemma_parsed_orders_len(rows.drop_last());
    }
}

/// Every parsed order's price and location fit the fixed-point model: the
/// row parser rejects anything larger.
pub proof fn lemma_parsed_orders_in_range(rows: Seq<Seq<Seq<char>>>)
    ensures
        forall|k: int|
            0 <= k < spec_parsed_orders(rows).len() ==> #[trigger] spec_parsed_orders(
                rows,
            )[k].price <= MAX_CENTS,
    decreases rows.len(),
{
    if rows.len() > 0 {
        lemma_parsed_orders_in_range(rows.drop_last());
        let rest = spec_parsed_orders(rows.drop_last());
        match spec_parse_row(rows.last()) {
            Some(order) => {
                crate::record::lemma_parse_cents_in_range(rows.last()[0]);
                assert(order.price <= MAX_CENTS);
                assert(forall|k: int|
                    0 <= k < rest.len() ==> rest.push(order)[k] == #[trigger] rest[k]);
                assert(rest.push(order)[rest.len() as int] == order);
            },
            None => (),
        }
    }
}

/// The orders of one side that qualify under the range a raw ordinal
/// selects.
pub open spec fn spec_qualifying(rows: Seq<Seq<Seq<char>>>, range: u8, is_buy: bool) -> Seq<
    OrderRow,
> {
    spec_parsed_orders(rows).filter(
        |o: OrderRow| spec_qualifies(spec_range_of_ordinal(range), is_buy, o),
    )
}

/// The prices of a list of orders, in order.
pub open spec fn spec_prices(orders: Seq<OrderRow>) -> Seq<u64> {
    orders.map_values(|o: OrderRow| o.price)
}

/// The snapshot a dump's rows and a pair of range ordinals yield: nothing
/// where no row parses; otherwise the type id of the first parsed row, the
/// price extremes, counts and 95% confidence bounds of each side's
/// qualifying orders, and an item name left empty for the caller to fill
/// from the dump's file name.
pub open spec fn spec_snapshot(rows: Seq<Seq<Seq<char>>>, buy_range: u8, sell_range: u8) -> Option<
    MarketDataV,
> {
    let orders = spec_parsed_orders(rows);
    if orders.len() == 0 {
        None
    } else {
        let sells = spec_qualifying(rows, sell_range, false);
        let buys = spec_qualifying(rows, buy_range, true);
        let sp = spec_prices(sells);
        let bp = spec_prices(buys);
        Some(
            MarketDataV {
                item_name: Seq::empty(),
                type_id: orders[0].type_id,
                sell_price: if sp.len() == 0 {
                    None
                } else {
                    Some(spec_seq_min(sp))
                },
                buy_price: if bp.len() == 0 {
                    None
                } else {
                    Some(spec_seq_max(bp))
                },
                sell_order_count: sells.len() as int,
                buy_order_count: buys.len() as int,
                sell_price_95_ci: spec_ci_lower(sp),
                buy_price_95_ci: spec_ci_upper(bp),
            },
        )
    }
}

/// Reads the prices out of a list of orders.
#[verifier::loop_isolation(false)]
fn prices_of(orders: &Vec<OrderRow>) -> (r: Vec<u64>)
    ensures
        r@ == spec_prices(orders@),
{
    let mut out: Vec<u64> = Vec::new();
    let mut k: usize = 0;
    while k < orders.len()
        invariant
            0 <= k <= orders@.len(),
            out@.len() == k,
            forall|m: int| 0 <= m < k ==> out@[m] == #[trigger] orders@[m].price,
        decreases orders@.len() - k,
    {
        out.push(orders[k].price);
        k = k + 1;
    }
    proof {
        assert(out@ =~= spec_prices(orders@));
    }
    out
}

/// Builds the snapshot of one dump's already-split records: the verified
/// core of the pipeline, usable directly by a caller that has the records
/// in hand.
#[verifier::loop_isolation(false)]
pub fn snapshot_from_rows(rows: &Vec<Vec<String>>, buy_range: u8, sell_range: u8) -> (r: Option<
    MarketData,
>)
    requires
        rows@.len() <= MAX_ROWS,
    ensures
        r.deep_view() == spec_snapshot(rows.deep_view(), buy_range, sell_range),
{
    let ghost rowsv = rows.deep_view();
    let mut orders: Vec<OrderRow> = Vec::new();
    let mut i: usize = 0;
    while i < rows.len()
        invariant
            0 <= i <= rows@.len(),
            orders@ == spec_parsed_orders(rowsv.take(i as int)),
        decreases rows@.len() - i,
    {
        proof {
            assert(rowsv.take(i + 1).drop_last() =~= rowsv.take(i as int));
            assert(rowsv.take(i + 1).last() == rowsv[i as int]);
            assert(rows@[i as int].deep_view() == rowsv[i as int]);
        }
        match parse_csv_row(&rows[i]) {
            Some(order) => orders.push(order),
            None => (),
        }
        i = i + 1;
    }
    proof {
        assert(rowsv.take(rowsv.len() as int) =~= rowsv);
    }
    if orders.len() == 0 {
        return None;
    }
    let type_id = orders[0].type_id;
    let sell_enum = OrderRange::from(sell_range);
    let buy_enum = OrderRange::from(buy_range);
    let sells = filter_orders_by_range(&orders, sell_enum, false);
    let buys = filter_orders_by_range(&orders, buy_enum, true);
    proof {
        assert(sells@ == spec_qualifying(rowsv, sell_range, false));
        assert(buys@ == spec_qualifying(rowsv, buy_range, true));
        lemma_parsed_orders_len(rowsv);
        lemma_parsed_orders_in_range(rowsv);
        orders@.lemma_filter_len(
            |o: OrderRow| spec_qualifies(spec_range_of_ordinal(sell_range), false, o),
        );
        orders@.lemma_filter_len(
            |o: OrderRow| spec_qualifies(spec_range_of_ordinal(buy_range), true, o),
        );
        assert forall|k: int| 0 <= k < sells@.len() implies #[trigger] sells@[k].price
            <= MAX_CENTS by {
            orders@.lemma_filter_contains_rev(
                |o: OrderRow| spec_qualifies(spec_range_of_ordinal(sell_range), false, o),
                sells@[k],
            );
            assert(sells@.contains(sells@[k]));
            let m = choose|m: int| 0 <= m < orders@.len() && orders@[m] == sells@[k];
        }
        assert forall|k: int| 0 <= k < buys@.len() implies #[trigger] buys@[k].price
            <= MAX_CENTS by {
            orders@.lemma_filter_contains_rev(
                |o: OrderRow| spec_qualifies(spec_range_of_ordinal(buy_range), true, o),
                buys@[k],
            );
            assert(buys@.contains(buys@[k]));
            let m = choose|m: int| 0 <= m < orders@.len() && orders@[m] == buys@[k];
        }
    }
    let sell_prices = prices_of(&sells);
    let buy_prices = prices_of(&buys);
    proof {
        assert(spec_all_in_range(sell_prices@));
        assert(spec_all_in_range(buy_prices@));
    }
    let sell_price: Option<u64> = if sell_prices.len() == 0 {
        None
    } else {
        Some(seq_min(&sell_prices))
    };
    let buy_price: Option<u64> = if buy_prices.len() == 0 {
        None
    } else {
        Some(seq_max(&buy_prices))
    };
    let sell_price_95_ci = calculate_95_ci_lower(&sell_prices);
    let buy_price_95_ci = calculate_95_ci_upper(&buy_prices);
    let md = MarketData {
        item_name: String::new(),
        type_id,
        sell_price,
        buy_price,
        sell_order_count: sells.len(),
        buy_order_count: buys.len(),
        sell_price_95_ci,
        buy_price_95_ci,
    };
    Some(md)
}

/// Parses one whole dump: splits the text into records (the one trusted
/// step) and assembles the snapshot from them. The item name is left empty
/// for the caller to fill from the dump's file name, which is the one
/// source of the display name — no synthetic name is derived from the type
/// id. A dump of more records than `MAX_ROWS` yields nothing.
pub fn parse_market_log(content: &str, buy_range: u8, sell_range: u8) -> (r: Option<MarketData>)
    ensures
        spec_csv_rows(content@).len() <= MAX_ROWS ==> r.deep_view() == spec_snapshot(
            spec_csv_rows(content@),
            buy_range,
            sell_range,
        ),
        spec_csv_rows(content@).len() > MAX_ROWS ==> r is None,
{
    let rows = split_records(content);
    proof {
        assert(rows@.len() == rows.deep_view().len());
    }
    if rows.len() > MAX_ROWS {
        return None;
    }
    snapshot_from_rows(&rows, buy_range, sell_range)
}

/// The index of the first `-` in the sequence, or its length if none occurs.
pub open spec fn spec_find_dash(s: Seq<char>) -> int
    decreases s.len(),
{
    if s.len() == 0 {
        0
    } else if s.first() == '-' {
        0
    } else {
        1 + spec_find_dash(s.drop_first())
    }
}

/// The index of the last `-` in the sequence, or `-1` if none occurs.
pub open spec fn spec_rfind_dash(s: Seq<char>) -> int
    decreases s.len(),
{
    if s.len() == 0 {
        -1
    } else if s.last() == '-' {
        s.len() - 1
    } else {
        spec_rfind_dash(s.drop_last())
    }
}

proof fn lemma_find_dash_at(s: Seq<char>, i: int)
    requires
        0 <= i <= s.len(),
        forall|k: int| 0 <= k < i ==> s[k] != '-',
        i < s.len() ==> s[i] == '-',
    ensures
        spec_find_dash(s) == i,
    decreases i,
{
    if i > 0 {
        lemma_find_dash_at(s.drop_first(), i - 1);
    }
}

proof fn lemma_rfind_dash_at(s: Seq<char>, j: int)
    requires
        -1 <= j < s.len(),
        j >= 0 ==> s[j] == '-',
        forall|k: int| j < k < s.len() ==> s[k] != '-',
    ensures
        spec_rfind_dash(s) == j,
    decreases s.len(),
{
    if s.len() > 0 && j < s.len() - 1 {
        lemma_rfind_dash_at(s.drop_last(), j);
    }
}

/// The display item name a dump's hyphen-delimited file name carries:
/// every segment except the first (the location) and the last (type id and
/// extension), rejoined with hyphens — that is, whatever stands strictly
/// between the first and the last hyphen. Fewer than three segments, or an
/// empty middle, yield the literal "Unknown".
pub open spec fn spec_item_name(s: Seq<char>) -> Seq<char> {
    let i = spec_find_dash(s);
    let j = spec_rfind_dash(s);
    if i >= j || j == i + 1 {
        "Unknown"@
    } else {
        s.subrange(i + 1, j)
    }
}

/// Derives the display item name from a dump's file name.
#[verifier::loop_isolation(false)]
pub fn extract_item_name_from_filename(filename: &str) -> (r: String)
    ensures
        r@ == spec_item_name(filename@),
{
    let n = filename.unicode_len();
    let mut i: usize = 0;
    while i < n && filename.get_char(i) != '-'
        invariant
            0 <= i <= n,
            n == filename@.len(),
            forall|k: int| 0 <= k < i ==> filename@[k] != '-',
        decreases n - i,
    {
        i = i + 1;
    }
    proof {
        lemma_find_dash_at(filename@, i as int);
    }
    if i == n {
        // No hyphen at all: a single segment.
        proof {
            lemma_rfind_dash_at(filename@, -1);
        }
        return String::from_str("Unknown");
    }
    let mut j: usize = n - 1;
    while j > i && filename.get_char(j) != '-'
        invariant
            i <= j < n,
            n == filename@.len(),
            forall|k: int| j < k < n ==> filename@[k] != '-',
        decreases j,
    {
        j = j - 1;
    }
    proof {
        lemma_rfind_dash_at(filename@, j as int);
    }
    if j == i || j == i + 1 {
        // One hyphen only, or nothing between the first and the last.
        return String::from_str("Unknown");
    }
    let mid = filename.substring_char(i + 1, j);
    String::from_str(mid)
}

/// A snapshot with its item name filled in.
pub open spec fn spec_with_name(v: MarketDataV, name: Seq<char>) -> MarketDataV {
    MarketDataV { item_name: name, ..v }
}

/// Drives one dump through the whole pipeline: parses the text, and names
/// the snapshot after the dump's file name. A dump that yields no parseable
/// order yields no snapshot at all.
pub fn process_dump(content: &str, file_name: &str, buy_range: u8, sell_range: u8) -> (r: Option<
    MarketData,
>)
    ensures
        spec_csv_rows(content@).len() > MAX_ROWS ==> r is None,
        spec_csv_rows(content@).len() <= MAX_ROWS ==> match spec_snapshot(
            spec_csv_rows(content@),
            buy_range,
            sell_range,
        ) {
            None => r is None,
            Some(v) => r is Some && r->Some_0@ == spec_with_name(v, spec_item_name(file_name@)),
        },
{
    match parse_market_log(content, buy_range, sell_range) {
        Some(md) => {
            let mut named = md;
            named.item_name = extract_item_name_from_filename(file_name);
            Some(named)
        },
        None => None,
    }
}

/// A dump whose every row is rejected parses to no orders at all.
pub proof fn lemma_parsed_orders_all_none(rows: Seq<Seq<Seq<char>>>)
    requires
        forall|m: int| 0 <= m < rows.len() ==> #[trigger] spec_parse_row(rows[m]) is None,
    ensures
        spec_parsed_orders(rows).len() == 0,
    decreases rows.len(),
{
    if rows.len() > 0 {
        assert(forall|m: int|
            0 <= m < rows.len() - 1 ==> rows.drop_last()[m] == #[trigger] rows[m]);
        lemma_parsed_orders_all_none(rows.drop_last());
    }
}

proof fn lemma_parsed_orders_first(rows: Seq<Seq<Seq<char>>>, k: int)
    requires
        0 <= k < rows.len(),
        spec_parse_row(rows[k]) is Some,
        forall|m: int| 0 <= m < k ==> #[trigger] spec_parse_row(rows[m]) is None,
    ensures
        spec_parsed_orders(rows).len() > 0,
        spec_parsed_orders(rows)[0] == spec_parse_row(rows[k]).unwrap(),
    decreases rows.len(),
{
    assert(forall|m: int| 0 <= m < rows.len() - 1 ==> rows.drop_last()[m] == #[trigger] rows[m]);
    if k == rows.len() - 1 {
        lemma_parsed_orders_all_none(rows.drop_last());
    } else {
        lemma_parsed_orders_first(rows.drop_last(), k);
    }
}

/// Law: for a dump with at least one parseable row, the assembled snapshot
/// exists and its item-type id is the type id of the first row that
/// satisfies the parser's acceptance rules.
pub proof fn lemma_snapshot_first_type_id(
    rows: Seq<Seq<Seq<char>>>,
    buy_range: u8,
    sell_range: u8,
    k: int,
)
    requires
        0 <= k < rows.len(),
        spec_parse_row(rows[k]) is Some,
        forall|m: int| 0 <= m < k ==> #[trigger] spec_parse_row(rows[m]) is None,
    ensures
        spec_snapshot(rows, buy_range, sell_range) is Some,
        spec_snapshot(rows, buy_range, sell_range).unwrap().type_id == spec_parse_row(
            rows[k],
        ).unwrap().type_id,
{
    lemma_parsed_orders_first(rows, k);
}

/// Law: in the assembled snapshot, the sell price is exactly the least
/// price among the parsed orders that qualify under the sell range on the
/// sell side — absent exactly when no order qualifies — and the buy price
/// is exactly the greatest price among the orders qualifying on the buy
/// side.
pub proof fn lemma_snapshot_price_extremes(
    rows: Seq<Seq<Seq<char>>>,
    buy_range: u8,
    sell_range: u8,
)
    requires
        spec_parsed_orders(rows).len() > 0,
    ensures
        spec_snapshot(rows, buy_range, sell_range) is Some,
        (spec_snapshot(rows, buy_range, sell_range).unwrap().sell_price is None) == (
        spec_qualifying(rows, sell_range, false).len() == 0),
        (spec_snapshot(rows, buy_range, sell_range).unwrap().buy_price is None) == (
        spec_qualifying(rows, buy_range, true).len() == 0),
        spec_qualifying(rows, sell_range, false).len() > 0 ==> spec_snapshot(
            rows,
            buy_range,
            sell_range,
        ).unwrap().sell_price == Some(
            spec_seq_min(spec_prices(spec_qualifying(rows, sell_range, false))),
        ),
        spec_qualifying(rows, buy_range, true).len() > 0 ==> spec_snapshot(
            rows,
            buy_range,
            sell_range,
        ).unwrap().buy_price == Some(
            spec_seq_max(spec_prices(spec_qualifying(rows, buy_range, true))),
        ),
        spec_qualifying(rows, sell_range, false).len() > 0 ==> spec_prices(
            spec_qualifying(rows, sell_range, false),
        ).contains(spec_seq_min(spec_prices(spec_qualifying(rows, sell_range, false)))),
        forall|m: int|
            0 <= m < spec_qualifying(rows, sell_range, false).len() ==> spec_seq_min(
                spec_prices(spec_qualifying(rows, sell_range, false)),
            ) <= #[trigger] spec_qualifying(rows, sell_range, false)[m].price,
        spec_qualifying(rows, buy_range, true).len() > 0 ==> spec_prices(
            spec_qualifying(rows, buy_range, true),
        ).contains(spec_seq_max(spec_prices(spec_qualifying(rows, buy_range, true)))),
        forall|m: int|
            0 <= m < spec_qualifying(rows, buy_range, true).len() ==> #[trigger] spec_qualifying(
                rows,
                buy_range,
                true,
            )[m].price <= spec_seq_max(spec_prices(spec_qualifying(rows, buy_range, true))),
        forall|m: int|
            0 <= m < spec_qualifying(rows, sell_range, false).len() ==> !(
            #[trigger] spec_qualifying(rows, sell_range, false)[m]).is_buy_order
                && spec_qualifies(
                spec_range_of_ordinal(sell_range),
                false,
                spec_qualifying(rows, sell_range, false)[m],
            ),
        forall|m: int|
            0 <= m < spec_qualifying(rows, buy_range, true).len() ==> (#[trigger] spec_qualifying(
                rows,
                buy_range,
                true,
            )[m]).is_buy_order && spec_qualifies(
                spec_range_of_ordinal(buy_range),
                true,
                spec_qualifying(rows, buy_range, true)[m],
            ),
{
    let sells = spec_qualifying(rows, sell_range, false);
    let buys = spec_qualifying(rows, buy_range, true);
    let sp = spec_prices(sells);
    let bp = spec_prices(buys);
    if sells.len() > 0 {
        lemma_seq_min_max(sp);
        assert forall|m: int| 0 <= m < sells.len() implies spec_seq_min(sp)
            <= #[trigger] sells[m].price by {
            assert(sp[m] == sells[m].price);
        }
    }
    if buys.len() > 0 {
        lemma_seq_min_max(bp);
        assert forall|m: int| 0 <= m < buys.len() implies #[trigger] buys[m].price <= spec_seq_max(
            bp,
        ) by {
            assert(bp[m] == buys[m].price);
        }
    }
    assert forall|m: int| 0 <= m < sells.len() implies !(#[trigger] sells[m]).is_buy_order
        && spec_qualifies(spec_range_of_ordinal(sell_range), false, sells[m]) by {
        spec_parsed_orders(rows).lemma_filter_pred(
            |o: OrderRow| spec_qualifies(spec_range_of_ordinal(sell_range), false, o),
            m,
        );
    }
    assert forall|m: int| 0 <= m < buys.len() implies (#[trigger] buys[m]).is_buy_order
        && spec_qualifies(spec_range_of_ordinal(buy_range), true, buys[m]) by {
        spec_parsed_orders(rows).lemma_filter_pred(
            |o: OrderRow| spec_qualifies(spec_range_of_ordinal(buy_range), true, o),
            m,
        );
    }
}

/// Law: snapshot assembly is deterministic. Splitting and parsing are
/// functions of the dump text and the two range ordinals alone, so reading
/// the same text twice yields identical snapshot values, field for field.
pub proof fn lemma_snapshot_deterministic(
    content: Seq<char>,
    buy_range: u8,
    sell_range: u8,
    r1: Option<MarketDataV>,
    r2: Option<MarketDataV>,
)
    requires
        r1 == spec_snapshot(spec_csv_rows(content), buy_range, sell_range),
        r2 == spec_snapshot(spec_csv_rows(content), buy_range, sell_range),
    ensures
        r1 == r2,
{
}

} // verus!
