//! Tickers: which CIK belongs to a ticker, and the list of all tickers.

use vstd::prelude::*;
use vstd::arithmetic::power::pow;
use vstd::hash_map::StringHashMap;
use crate::json::{
    Json, JsonView, Number, cell_at, cell_copy, fields_view, item_of, items_view, lookup_finds, put,
    text_in, text_or, text_view,
};
use crate::lists::{at_most, filter_grows};
use crate::text::{
    all_digits, contains, contains_text, decimal, digit, empty_literal, front_is_skipped, lower_case,
    lowercase, owned,
    padding_keeps_the_number, parts_stand_in_between, skip_front, spelled, stands_at, trim_start_char,
    upper_case, uppercase, zero_padded, zero_padded_text, zeros,
};

verus! {

/// For how many nanoseconds a fetched ticker file is used again: one hour.
pub const TICKER_CACHE_TTL_NANOS: u64 = 3_600_000_000_000;

/// How many tickers a listing holds at most.
pub const MAX_LISTED: usize = 50;

/// How many digits a CIK has in an address.
pub const CIK_WIDTH: usize = 10;

/// A CIK as EDGAR's addresses spell it: ten digits, with leading zeros.
pub open spec fn padded_cik(cik: u64) -> Seq<char> {
    zero_padded(cik as nat, 10)
}

/// A CIK as EDGAR's addresses spell it: ten digits, with leading zeros.
pub fn pad_cik(cik: u64) -> (r: String)
    ensures
        r@ == padded_cik(cik),
{
    zero_padded_text(cik, CIK_WIDTH)
}

/// A CIK without its leading zeros.
pub open spec fn cik_number(cik: Seq<char>) -> Seq<char> {
    skip_front(cik, |c: char| c == '0')
}

/// A CIK without its leading zeros, as the archive's addresses spell it.
pub fn cik_num(cik: &str) -> (r: String)
    ensures
        r@ == cik_number(cik@),
{
    trim_start_char(cik, '0')
}

/// The CIKs of all tickers, by the ticker in upper case.
pub struct TickerMap {
    ciks: StringHashMap<String>,
}

impl View for TickerMap {
    type V = Map<Seq<char>, Seq<char>>;

    closed spec fn view(&self) -> Map<Seq<char>, Seq<char>> {
        self.ciks@.map_values(|cik: String| cik@)
    }
}

/// The tickers of the first `n` entries of the ticker file, by the ticker in
/// upper case. An entry without a ticker or a number is passed over; a later
/// entry takes the place of an earlier one.
pub open spec fn tickers_before(
    entries: Seq<(Seq<char>, JsonView)>,
    n: nat,
) -> Map<Seq<char>, Seq<char>>
    decreases n,
{
    if n == 0 {
        Map::empty()
    } else {
        let map = tickers_before(entries, (n - 1) as nat);
        let entry = entries[n - 1].1;
        match (entry.field("ticker"@).as_str(), entry.field("cik_str"@).as_u64()) {
            (Some(ticker), Some(cik)) => map.insert(upper_case(ticker), padded_cik(cik)),
            _ => map,
        }
    }
}

/// The tickers of a ticker file, or why there are none.
pub open spec fn tickers_of(file: JsonView) -> Result<Map<Seq<char>, Seq<char>>, Seq<char>> {
    match file.as_object() {
        Some(entries) => Ok(tickers_before(entries, entries.len())),
        None => Err("ticker file was not a JSON object"@),
    }
}

/// The CIK of a ticker in a map, or that it is not there.
pub open spec fn cik_in(
    map: Map<Seq<char>, Seq<char>>,
    ticker: Seq<char>,
    symbol: Seq<char>,
) -> Result<Seq<char>, Seq<char>> {
    if map.contains_key(symbol) {
        Ok(map[symbol])
    } else {
        Err("ticker '"@ + ticker + "' not found in EDGAR"@)
    }
}

impl TickerMap {
    /// A map without tickers.
    pub fn new() -> (r: TickerMap)
        ensures
            r@ == Map::<Seq<char>, Seq<char>>::empty(),
    {
        let r = TickerMap { ciks: StringHashMap::new() };
        assert(r@ =~= Map::<Seq<char>, Seq<char>>::empty());
        r
    }

    /// Gives a ticker in upper case its CIK.
    pub fn add(&mut self, symbol: String, cik: u64)
        ensures
            final(self)@ == old(self)@.insert(symbol@, padded_cik(cik)),
    {
        self.ciks.insert(symbol, pad_cik(cik));
        assert(self@ =~= old(self)@.insert(symbol@, padded_cik(cik)));
    }

    /// Reads the ticker file.
    pub fn from_file(file: &Json) -> (r: Result<TickerMap, String>)
        ensures
            match r {
                Ok(map) => tickers_of(file@) == Ok::<_, Seq<char>>(map@),
                Err(e) => tickers_of(file@) == Err::<Map<Seq<char>, Seq<char>>, _>(e@),
            },
    {
        let entries = match file.as_object() {
            Some(e) => e,
            None => return Err(owned("ticker file was not a JSON object")),
        };
        let ghost all = fields_view(entries@);
        let mut map = TickerMap::new();
        let mut i: usize = 0;
        while i < entries.len()
            invariant
                i <= entries@.len(),
                all == fields_view(entries@),
                map@ == tickers_before(all, i as nat),
            decreases entries@.len() - i,
        {
            let entry = &entries[i].1;
            assert(all[i as int].1 == entry@);
            match (entry.str_field("ticker"), entry.u64_field("cik_str")) {
                (Some(ticker), Some(cik)) => {
                    map.add(uppercase(ticker), cik);
                },
                _ => {},
            }
            i += 1;
        }
        Ok(map)
    }

    /// The CIK of `symbol`, which is `ticker` in upper case.
    pub fn cik_of(&self, ticker: &str, symbol: &str) -> (r: Result<String, String>)
        ensures
            match r {
                Ok(cik) => cik_in(self@, ticker@, symbol@) == Ok::<_, Seq<char>>(cik@),
                Err(e) => cik_in(self@, ticker@, symbol@) == Err::<Seq<char>, _>(e@),
            },
    {
        match self.ciks.get(symbol) {
            Some(cik) => Ok(cik.clone()),
            None => Err(owned("ticker '").concat(ticker).concat("' not found in EDGAR")),
        }
    }

    /// The CIK of a ticker, in whatever case it is written.
    pub fn cik_for_ticker(&self, ticker: &str) -> (r: Result<String, String>)
        ensures
            match r {
                Ok(cik) => cik_in(self@, ticker@, upper_case(ticker@)) == Ok::<_, Seq<char>>(cik@),
                Err(e) => cik_in(self@, ticker@, upper_case(ticker@)) == Err::<Seq<char>, _>(e@),
            },
    {
        let symbol = uppercase(ticker);
        self.cik_of(ticker, symbol.as_str())
    }
}

/// The tickers that were fetched last, and when. Times count nanoseconds from
/// some fixed moment.
pub struct TickerCache {
    held: Option<(u64, TickerMap)>,
}

impl View for TickerCache {
    type V = Option<(u64, Map<Seq<char>, Seq<char>>)>;

    closed spec fn view(&self) -> Option<(u64, Map<Seq<char>, Seq<char>>)> {
        match self.held {
            Some((fetched, map)) => Some((fetched, map@)),
            None => None,
        }
    }
}

/// The tickers that a cache still gives out: those that it holds, within an
/// hour.
pub open spec fn fresh_tickers(
    held: Option<(u64, Map<Seq<char>, Seq<char>>)>,
    now: u64,
) -> Option<Map<Seq<char>, Seq<char>>> {
    match held {
        Some((fetched, map)) => if now - fetched < 3_600_000_000_000 {
            Some(map)
        } else {
            None
        },
        None => None,
    }
}

impl TickerCache {
    /// A cache that holds nothing.
    pub fn new() -> (r: TickerCache)
        ensures
            r@ is None,
    {
        TickerCache { held: None }
    }

    /// The tickers, where they need not be fetched again.
    pub fn fresh(&self, now: u64) -> (r: Option<&TickerMap>)
        ensures
            match r {
                Some(map) => fresh_tickers(self@, now) == Some(map@),
                None => fresh_tickers(self@, now) is None,
            },
    {
        match &self.held {
            Some((fetched, map)) => if now < *fetched || now - *fetched < TICKER_CACHE_TTL_NANOS {
                Some(map)
            } else {
                None
            },
            None => None,
        }
    }

    /// Keeps tickers in place of those that it held.
    pub fn store(&mut self, now: u64, tickers: TickerMap)
        ensures
            final(self)@ == Some((now, tickers@)),
    {
        self.held = Some((now, tickers));
    }
}

/// The rows of a listing; none where the document has no list of them.
pub open spec fn listed_rows(data: JsonView) -> Seq<JsonView> {
    match data.field("data"@).as_array() {
        Some(rows) => rows,
        None => Seq::empty(),
    }
}

/// Whether a name or a ticker, both in lower case, holds what is looked for.
pub open spec fn holds_query(
    name: Seq<char>,
    ticker: Seq<char>,
    query: Option<Seq<char>>,
) -> bool {
    match query {
        Some(q) => contains_text(name, q) || contains_text(ticker, q),
        None => true,
    }
}

/// Whether a name or a ticker, both in lower case, holds what is looked for.
pub fn is_hit(name: &str, ticker: &str, query: Option<&str>) -> (r: bool)
    ensures
        r == holds_query(name@, ticker@, text_view(query)),
{
    match query {
        Some(q) => contains(name, q) || contains(ticker, q),
        None => true,
    }
}

/// The text at a position of a row; empty where there is none.
pub open spec fn row_text(row: Seq<JsonView>, i: int) -> Seq<char> {
    text_or(cell_at(Some(row), i).as_str(), Seq::empty())
}

/// Whether a row is listed: it is an array, and its name or its ticker holds
/// what is looked for, whatever the case.
pub open spec fn row_is_listed(row: JsonView, query: Option<Seq<char>>) -> bool {
    match row.as_array() {
        Some(cells) => holds_query(
            lower_case(row_text(cells, 1)),
            lower_case(row_text(cells, 2)),
            query,
        ),
        None => false,
    }
}

fn text_at(row: &Vec<Json>, i: usize) -> (r: &str)
    ensures
        r@ == row_text(items_view(row@), i as int),
{
    proof {
        empty_literal();
    }
    if i < row.len() {
        match row[i].as_str() {
            Some(s) => s,
            None => "",
        }
    } else {
        ""
    }
}

/// A row as a listing shows it.
pub open spec fn listing_row(row: JsonView) -> JsonView {
    let cells = row.as_array();
    JsonView::Object(
        seq![
            ("cik"@, cell_at(cells, 0)),
            ("name"@, cell_at(cells, 1)),
            ("ticker"@, cell_at(cells, 2)),
            ("exchange"@, cell_at(cells, 3)),
        ],
    )
}

fn show_row(cells: &Vec<Json>) -> (r: Json)
    ensures
        r@ == listing_row(JsonView::Array(items_view(cells@))),
{
    let mut fields: Vec<(String, Json)> = Vec::new();
    put(&mut fields, "cik", cell_copy(Some(cells), 0));
    put(&mut fields, "name", cell_copy(Some(cells), 1));
    put(&mut fields, "ticker", cell_copy(Some(cells), 2));
    put(&mut fields, "exchange", cell_copy(Some(cells), 3));
    let r = Json::object(fields);
    assert(r@->Object_0 =~= listing_row(JsonView::Array(items_view(cells@)))->Object_0);
    r
}

/// The rows that a listing shows: the first of those that hold what is looked
/// for.
pub open spec fn listing_rows(data: JsonView, query: Option<Seq<char>>) -> Seq<JsonView> {
    at_most(
        listed_rows(data).filter(|row: JsonView| row_is_listed(row, query)),
        MAX_LISTED as int,
    ).map_values(|row: JsonView| listing_row(row))
}

/// What a request for a listing replies with. The query is in lower case.
pub open spec fn list_tickers_outcome(query: Option<Seq<char>>, data: JsonView) -> JsonView {
    let rows = listing_rows(data, query);
    JsonView::Object(
        seq![
            ("total_tickers"@, JsonView::Number(Number::PosInt(listed_rows(data).len() as u64))),
            ("returned"@, JsonView::Number(Number::PosInt(rows.len() as u64))),
            ("query"@, JsonView::Str(text_or(query, "(none)"@))),
            ("data"@, JsonView::Array(rows)),
        ],
    )
}

fn row_hit(cells: &Vec<Json>, query: Option<&str>) -> (r: bool)
    ensures
        r == row_is_listed(JsonView::Array(items_view(cells@)), text_view(query)),
{
    match query {
        Some(_) => {
            let name = lowercase(text_at(cells, 1));
            let ticker = lowercase(text_at(cells, 2));
            is_hit(name.as_str(), ticker.as_str(), query)
        },
        None => true,
    }
}

fn select_rows(rows: &Vec<Json>, query: Option<&str>) -> (r: Vec<Json>)
    ensures
        items_view(r@) == at_most(
            items_view(rows@).filter(|row: JsonView| row_is_listed(row, text_view(query))),
            MAX_LISTED as int,
        ).map_values(|row: JsonView| listing_row(row)),
{
    let ghost all = items_view(rows@);
    let ghost pred = |row: JsonView| row_is_listed(row, text_view(query));
    let ghost show = |row: JsonView| listing_row(row);
    let mut r: Vec<Json> = Vec::new();
    let mut i: usize = 0;
    proof {
        reveal(Seq::filter);
        assert(items_view(r@) =~= all.take(0).filter(pred).map_values(show));
    }
    while i < rows.len() && r.len() < MAX_LISTED
        invariant
            i <= rows@.len(),
            all == items_view(rows@),
            pred == (|row: JsonView| row_is_listed(row, text_view(query))),
            show == (|row: JsonView| listing_row(row)),
            r@.len() <= MAX_LISTED,
            items_view(r@) == all.take(i as int).filter(pred).map_values(show),
        decreases rows@.len() - i,
    {
        proof {
            filter_grows(all, i as int, pred);
        }
        let ghost kept = all.take(i as int).filter(pred);
        let ghost before = items_view(r@);
        match rows[i].as_array() {
            Some(cells) => {
                assert(all[i as int] == JsonView::Array(items_view(cells@)));
                if row_hit(cells, query) {
                    r.push(show_row(cells));
                    assert(items_view(r@) =~= before.push(show(all[i as int])));
                    assert(kept.push(all[i as int]).map_values(show) =~= kept.map_values(show).push(
                        show(all[i as int]),
                    ));
                }
            },
            None => {},
        }
        i += 1;
    }
    proof {
        let here = all.take(i as int);
        let kept = here.filter(pred);
        let whole = all.filter(pred);
        assert(all =~= here + all.skip(i as int));
        Seq::filter_distributes_over_add(here, all.skip(i as int), pred);
        assert(items_view(r@).len() == kept.len());
        if i == rows.len() {
            assert(here =~= all);
            assert(at_most(whole, MAX_LISTED as int) =~= kept);
        } else {
            assert(at_most(whole, MAX_LISTED as int) =~= kept);
        }
    }
    r
}

/// What a request for a listing replies with. The query is in lower case.
pub fn list_tickers_reply(query: Option<&str>, data: &Json) -> (r: Json)
    ensures
        r@ == list_tickers_outcome(text_view(query), data@),
{
    let ghost shown_rows = listing_rows(data@, text_view(query));
    let (total, rows): (u64, Vec<Json>) = match data.array_field("data") {
        Some(rows) => {
            assert(items_view(rows@).len() == rows@.len());
            (rows.len() as u64, select_rows(rows, query))
        },
        None => {
            let none: Vec<Json> = Vec::new();
            proof {
                reveal(Seq::filter);
                assert(items_view(none@) =~= shown_rows);
            }
            (0, none)
        },
    };
    let returned: u64 = rows.len() as u64;
    assert(items_view(rows@).len() == rows@.len());
    let shown = match query {
        Some(q) => q,
        None => "(none)",
    };
    let mut fields: Vec<(String, Json)> = Vec::new();
    put(&mut fields, "total_tickers", Json::Number(Number::PosInt(total)));
    put(&mut fields, "returned", Json::Number(Number::PosInt(returned)));
    put(&mut fields, "query", Json::string(shown));
    put(&mut fields, "data", Json::array(rows));
    let r = Json::object(fields);
    assert(r@->Object_0 =~= list_tickers_outcome(text_view(query), data@)->Object_0);
    r
}

/// Whether a character is a decimal digit.
pub open spec fn is_digit(c: char) -> bool {
    '0' <= c <= '9'
}

proof fn decimal_has_digits(n: nat)
    ensures
        decimal(n).len() >= 1,
        forall|i: int| 0 <= i < decimal(n).len() ==> is_digit(#[trigger] decimal(n)[i]),
        n > 0 ==> decimal(n)[0] != '0',
    decreases n,
{
    if n >= 10 {
        decimal_has_digits(n / 10);
    }
}

proof fn decimal_length(n: nat, digits: nat)
    requires
        digits >= 1,
        n < pow(10, digits),
    ensures
        decimal(n).len() <= digits,
    decreases digits,
{
    reveal(pow);
    if n >= 10 {
        assert(pow(10, 0) == 1);
        assert(digits > 1) by {
            if digits == 1 {
                assert(pow(10, 1) == 10 * pow(10, 0));
            }
        }
        assert(pow(10, digits) == 10 * pow(10, (digits - 1) as nat));
        decimal_length(n / 10, (digits - 1) as nat);
    }
}

/// A CIK in an address consists of digits, at least ten of them; ten exactly
/// for every number that ten digits can hold.
pub proof fn padded_cik_has_ten_digits(cik: u64)
    ensures
        padded_cik(cik).len() >= 10,
        forall|i: int| 0 <= i < padded_cik(cik).len() ==> is_digit(#[trigger] padded_cik(cik)[i]),
        cik < 10_000_000_000 ==> padded_cik(cik).len() == 10,
{
    decimal_has_digits(cik as nat);
    if cik < 10_000_000_000 {
        assert(pow(10, 10) == 10_000_000_000) by {
            reveal(pow);
            reveal_with_fuel(pow, 11);
        }
        decimal_length(cik as nat, 10);
    }
}

proof fn zeros_are_skipped(n: nat, rest: Seq<char>)
    ensures
        cik_number(zeros(n) + rest) == cik_number(rest),
    decreases n,
{
    if n == 0 {
        assert(zeros(0) + rest =~= rest);
    } else {
        let whole = zeros(n) + rest;
        assert(whole.drop_first() =~= zeros((n - 1) as nat) + rest);
        zeros_are_skipped((n - 1) as nat, rest);
    }
}

/// Taking the leading zeros off a padded CIK gives the plain number back.
pub proof fn padding_is_undone(cik: u64)
    requires
        cik > 0,
    ensures
        cik_number(padded_cik(cik)) == decimal(cik as nat),
{
    let digits = decimal(cik as nat);
    decimal_has_digits(cik as nat);
    if digits.len() < 10 {
        zeros_are_skipped((10 - digits.len()) as nat, digits);
    }
}

/// Two companies never share a padded CIK.
pub proof fn padded_ciks_differ(a: u64, b: u64)
    requires
        padded_cik(a) == padded_cik(b),
    ensures
        a == b,
{
    if a > 0 && b > 0 {
        padding_is_undone(a);
        padding_is_undone(b);
        decimal_is_injective(a as nat, b as nat);
    } else if a != b {
        let (zero, other) = if a == 0 {
            (a, b)
        } else {
            (b, a)
        };
        padding_is_undone(other);
        decimal_has_digits(other as nat);
        assert(decimal(0) =~= zeros(1));
        assert(padded_cik(zero) =~= zeros(10) + Seq::<char>::empty());
        zeros_are_skipped(10, Seq::empty());
    }
}

proof fn digits_differ(x: int, y: int)
    requires
        0 <= x < 10,
        0 <= y < 10,
        digit(x) == digit(y),
    ensures
        x == y,
{
}

proof fn decimal_is_injective(a: nat, b: nat)
    requires
        decimal(a) == decimal(b),
    ensures
        a == b,
    decreases a,
{
    decimal_has_digits(a / 10);
    decimal_has_digits(b / 10);
    if a >= 10 {
        assert(decimal(a) == decimal(a / 10).push(digit((a % 10) as int)));
    } else {
        assert(decimal(a) == seq![digit(a as int)]);
    }
    if b >= 10 {
        assert(decimal(b) == decimal(b / 10).push(digit((b % 10) as int)));
    } else {
        assert(decimal(b) == seq![digit(b as int)]);
    }
    if a >= 10 && b >= 10 {
        assert(decimal(a).drop_last() =~= decimal(a / 10));
        assert(decimal(b).drop_last() =~= decimal(b / 10));
        decimal_is_injective(a / 10, b / 10);
        assert(decimal(a).last() == digit((a % 10) as int));
        assert(decimal(b).last() == digit((b % 10) as int));
        digits_differ((a % 10) as int, (b % 10) as int);
    } else if a < 10 && b < 10 {
        assert(decimal(a)[0] == digit(a as int));
        assert(decimal(b)[0] == digit(b as int));
        digits_differ(a as int, b as int);
    } else {
        assert(decimal(a).len() != decimal(b).len());
    }
}

/// Whether a row of a listing shows a row of the document that holds what is
/// looked for.
pub open spec fn shows_a_hit(shown: JsonView, data: JsonView, query: Option<Seq<char>>) -> bool {
    exists|row: JsonView|
        listed_rows(data).contains(row) && row_is_listed(row, query) && shown == #[trigger]
            listing_row(row)
}

/// A listing shows at most fifty tickers, each from a row of the document that
/// holds what is looked for.
pub proof fn listing_is_short(data: JsonView, query: Option<Seq<char>>)
    ensures
        listing_rows(data, query).len() <= 50,
        forall|i: int|
            0 <= i < listing_rows(data, query).len() ==> shows_a_hit(
                #[trigger] listing_rows(data, query)[i],
                data,
                query,
            ),
{
    let rows = listed_rows(data);
    let pred = |row: JsonView| row_is_listed(row, query);
    let kept = rows.filter(pred);
    let shown = at_most(kept, 50);
    assert forall|i: int| 0 <= i < listing_rows(data, query).len() implies shows_a_hit(
        #[trigger] listing_rows(data, query)[i],
        data,
        query,
    ) by {
        let row = shown[i];
        assert(row == kept[i]);
        rows.lemma_filter_pred(pred, i);
        rows.lemma_filter_contains_rev(pred, row);
        assert(listing_rows(data, query)[i] == listing_row(row));
    }
}

/// The case in which a ticker is written makes no difference to the CIK that
/// is found for it.
pub proof fn case_of_a_ticker_is_ignored(
    map: Map<Seq<char>, Seq<char>>,
    first: Seq<char>,
    second: Seq<char>,
)
    requires
        upper_case(first) == upper_case(second),
    ensures
        cik_in(map, first, upper_case(first)) is Ok <==> cik_in(map, second, upper_case(second)) is Ok,
        cik_in(map, first, upper_case(first)) is Ok ==> cik_in(map, first, upper_case(first))
            == cik_in(map, second, upper_case(second)),
{
}

/// Every CIK that the ticker file gives is a number in decimal, padded to ten
/// digits.
pub proof fn ciks_are_padded(file: JsonView, symbol: Seq<char>)
    requires
        tickers_of(file) is Ok,
        tickers_of(file)->Ok_0.contains_key(symbol),
    ensures
        exists|cik: u64| tickers_of(file)->Ok_0[symbol] == #[trigger] padded_cik(cik),
{
    let entries = file.as_object()->0;
    ciks_before_are_padded(entries, entries.len(), symbol);
}

proof fn ciks_before_are_padded(
    entries: Seq<(Seq<char>, JsonView)>,
    n: nat,
    symbol: Seq<char>,
)
    requires
        tickers_before(entries, n).contains_key(symbol),
    ensures
        exists|cik: u64| tickers_before(entries, n)[symbol] == #[trigger] padded_cik(cik),
    decreases n,
{
    let map = tickers_before(entries, (n - 1) as nat);
    let entry = entries[n - 1].1;
    match (entry.field("ticker"@).as_str(), entry.field("cik_str"@).as_u64()) {
        (Some(ticker), Some(cik)) => {
            if upper_case(ticker) == symbol {
                assert(tickers_before(entries, n)[symbol] == padded_cik(cik));
            } else {
                ciks_before_are_padded(entries, (n - 1) as nat, symbol);
            }
        },
        _ => {
            ciks_before_are_padded(entries, (n - 1) as nat, symbol);
        },
    }
}

/// Tickers are given out again for one hour after they were fetched, and not
/// any longer.
pub proof fn tickers_are_kept_for_an_hour(
    fetched: u64,
    map: Map<Seq<char>, Seq<char>>,
    now: u64,
)
    ensures
        now < fetched + 3_600_000_000_000 ==> fresh_tickers(Some((fetched, map)), now) == Some(map),
        now >= fetched + 3_600_000_000_000 ==> fresh_tickers(
            Some((fetched, map)),
            now,
        ) is None,
{
}

/// Whether an entry of the ticker file gives a CIK to `symbol`, a ticker in
/// upper case.
pub open spec fn gives_cik(entry: JsonView, symbol: Seq<char>) -> bool {
    &&& entry.field("cik_str"@).as_u64() is Some
    &&& entry.field("ticker"@).as_str() is Some
    &&& upper_case(entry.field("ticker"@).as_str()->0) == symbol
}

proof fn ticker_before(
    entries: Seq<(Seq<char>, JsonView)>,
    n: nat,
    symbol: Seq<char>,
    i: int,
)
    requires
        n <= entries.len(),
        0 <= i < entries.len(),
        gives_cik(entries[i].1, symbol),
        forall|k: int|
            0 <= k < entries.len() && k != i ==> !gives_cik((#[trigger] entries[k]).1, symbol),
    ensures
        tickers_before(entries, n).contains_key(symbol) <==> i < n,
        i < n ==> tickers_before(entries, n)[symbol] == padded_cik(
            entries[i].1.field("cik_str"@).as_u64()->0,
        ),
    decreases n,
{
    if n > 0 {
        ticker_before(entries, (n - 1) as nat, symbol, i);
        if n - 1 != i {
            assert(!gives_cik(entries[n - 1].1, symbol));
        }
    }
}

/// A ticker that one entry of the ticker file names resolves to that entry's
/// CIK, padded, in whatever case either of them writes the ticker.
pub proof fn listed_tickers_are_found(file: JsonView, i: int, ticker: Seq<char>)
    requires
        file matches JsonView::Object(entries) && 0 <= i < entries.len(),
        gives_cik(file->Object_0[i].1, upper_case(ticker)),
        forall|k: int|
            0 <= k < file->Object_0.len() && k != i ==> !gives_cik(
                (#[trigger] file->Object_0[k]).1,
                upper_case(ticker),
            ),
    ensures
        tickers_of(file) is Ok,
        cik_in(tickers_of(file)->Ok_0, ticker, upper_case(ticker)) == Ok::<_, Seq<char>>(
            padded_cik(file->Object_0[i].1.field("cik_str"@).as_u64()->0),
        ),
{
    let entries = file->Object_0;
    ticker_before(entries, entries.len(), upper_case(ticker), i);
}

proof fn no_ticker_before(entries: Seq<(Seq<char>, JsonView)>, n: nat, symbol: Seq<char>)
    requires
        n <= entries.len(),
        forall|k: int| 0 <= k < entries.len() ==> !gives_cik((#[trigger] entries[k]).1, symbol),
    ensures
        !tickers_before(entries, n).contains_key(symbol),
    decreases n,
{
    if n > 0 {
        no_ticker_before(entries, (n - 1) as nat, symbol);
        assert(!gives_cik(entries[n - 1].1, symbol));
    }
}

/// A ticker that no entry of the ticker file names is not found.
pub proof fn unlisted_tickers_are_not_found(file: JsonView, ticker: Seq<char>)
    requires
        file is Object,
        forall|k: int|
            0 <= k < file->Object_0.len() ==> !gives_cik(
                (#[trigger] file->Object_0[k]).1,
                upper_case(ticker),
            ),
    ensures
        tickers_of(file) is Ok,
        cik_in(tickers_of(file)->Ok_0, ticker, upper_case(ticker)) is Err,
{
    let entries = file->Object_0;
    no_ticker_before(entries, entries.len(), upper_case(ticker));
}

/// Whether a part stands at some position of a text.
pub open spec fn stands_somewhere(text: Seq<char>, part: Seq<char>) -> bool {
    exists|at: int|
        0 <= at && at + part.len() <= text.len() && #[trigger] text.subrange(at, at + part.len())
            == part
}

/// Whether a row of the document is to be listed: it is an array, and what is
/// looked for stands somewhere in its name or in its ticker, both in lower case.
pub open spec fn is_looked_for(row: JsonView, query: Option<Seq<char>>) -> bool {
    row is Array && match query {
        Some(q) => {
            ||| stands_somewhere(lower_case(text_in(item_of(row, 1))), q)
            ||| stands_somewhere(lower_case(text_in(item_of(row, 2))), q)
        },
        None => true,
    }
}

proof fn standing_is_being_contained(text: Seq<char>, part: Seq<char>)
    ensures
        stands_somewhere(text, part) == contains_text(text, part),
{
    if contains_text(text, part) {
        let at = choose|at: int| stands_at(text, part, at);
        assert(text.subrange(at, at + part.len()) == part);
    }
    if stands_somewhere(text, part) {
        let at = choose|at: int|
            0 <= at && at + part.len() <= text.len() && #[trigger] text.subrange(
                at,
                at + part.len(),
            ) == part;
        assert(stands_at(text, part, at));
    }
}

/// A listing shows the first fifty of all rows of the document that are looked
/// for, in their order and cell by cell. A part of a name or of a ticker is
/// enough to be found.
pub proof fn every_row_looked_for_is_shown(
    query: Option<Seq<char>>,
    data: JsonView,
    rows: Seq<JsonView>,
)
    requires
        data.field("data"@) == JsonView::Array(rows) || (data.field("data"@) !is Array && rows.len()
            == 0),
        rows.len() <= u64::MAX,
    ensures
        ({
            let reply = list_tickers_outcome(query, data);
            let hits = rows.filter(|row: JsonView| is_looked_for(row, query));
            let shown = reply.field("data"@)->Array_0;
            &&& reply.field("data"@) is Array
            &&& shown.len() == if hits.len() < 50 {
                hits.len()
            } else {
                50
            }
            &&& forall|k: int|
                0 <= k < shown.len() ==> {
                    &&& (#[trigger] shown[k]).field("cik"@) == item_of(hits[k], 0)
                    &&& shown[k].field("name"@) == item_of(hits[k], 1)
                    &&& shown[k].field("ticker"@) == item_of(hits[k], 2)
                    &&& shown[k].field("exchange"@) == item_of(hits[k], 3)
                }
            &&& reply.field("total_tickers"@) == JsonView::Number(Number::PosInt(rows.len() as u64))
            &&& reply.field("returned"@) == JsonView::Number(Number::PosInt(shown.len() as u64))
            &&& reply.field("query"@) == match query {
                Some(q) => JsonView::Str(q),
                None => JsonView::Str("(none)"@),
            }
        }),
{
    reveal_strlit("total_tickers");
    reveal_strlit("returned");
    reveal_strlit("query");
    reveal_strlit("data");
    reveal_strlit("cik");
    reveal_strlit("name");
    reveal_strlit("ticker");
    reveal_strlit("exchange");
    let fields = list_tickers_outcome(query, data)->Object_0;
    assert(fields[0].0 == "total_tickers"@ && fields[1].0 == "returned"@ && fields[2].0
        == "query"@);
    assert(fields[3].0 == "data"@);
    lookup_finds(fields, "total_tickers"@, 0);
    lookup_finds(fields, "returned"@, 1);
    lookup_finds(fields, "query"@, 2);
    lookup_finds(fields, "data"@, 3);
    assert(data.field("data"@) !is Array ==> rows =~= Seq::<JsonView>::empty());
    assert(listed_rows(data) == rows);
    let listed = |row: JsonView| row_is_listed(row, query);
    let wanted = |row: JsonView| is_looked_for(row, query);
    assert forall|row: JsonView| #[trigger] listed(row) == wanted(row) by {
        if row is Array {
            let cells = row->Array_0;
            assert(row_text(cells, 1) == text_in(item_of(row, 1)));
            assert(row_text(cells, 2) == text_in(item_of(row, 2)));
            if query is Some {
                standing_is_being_contained(lower_case(row_text(cells, 1)), query->0);
                standing_is_being_contained(lower_case(row_text(cells, 2)), query->0);
            }
        }
    }
    assert(listed =~= wanted);
    let hits = rows.filter(wanted);
    let shown = listing_rows(data, query);
    assert forall|k: int| 0 <= k < shown.len() implies {
        &&& (#[trigger] shown[k]).field("cik"@) == item_of(hits[k], 0)
        &&& shown[k].field("name"@) == item_of(hits[k], 1)
        &&& shown[k].field("ticker"@) == item_of(hits[k], 2)
        &&& shown[k].field("exchange"@) == item_of(hits[k], 3)
    } by {
        assert(shown[k] == listing_row(hits[k]));
        assert("cik"@.len() == 3 && "name"@.len() == 4 && "ticker"@.len() == 6);
        assert("exchange"@.len() == 8);
        let cells = shown[k]->Object_0;
        assert(cells[0].0 == "cik"@ && cells[1].0 == "name"@ && cells[2].0 == "ticker"@);
        assert(cells[3].0 == "exchange"@);
        lookup_finds(cells, "cik"@, 0);
        lookup_finds(cells, "name"@, 1);
        lookup_finds(cells, "ticker"@, 2);
        lookup_finds(cells, "exchange"@, 3);
    }
}

/// A row whose ticker holds what is looked for, with anything before and behind
/// it, is one of those that are listed, and so is one whose name does.
pub proof fn a_part_is_enough_to_be_found(
    data: JsonView,
    rows: Seq<JsonView>,
    i: int,
    front: Seq<char>,
    query: Seq<char>,
    back: Seq<char>,
)
    requires
        data.field("data"@) == JsonView::Array(rows),
        0 <= i < rows.len(),
        rows[i] is Array,
        lower_case(text_in(item_of(rows[i], 2))) == front + query + back || lower_case(
            text_in(item_of(rows[i], 1)),
        ) == front + query + back,
    ensures
        rows.filter(|row: JsonView| is_looked_for(row, Some(query))).contains(rows[i]),
        row_is_listed(rows[i], Some(query)),
        listing_rows(data, Some(query)).len() < 50 ==> listing_rows(data, Some(query)).contains(
            listing_row(rows[i]),
        ),
{
    let at = front.len() as int;
    parts_stand_in_between(front, query, back);
    let cells = rows[i]->Array_0;
    assert(row_text(cells, 1) == text_in(item_of(rows[i], 1)));
    assert(row_text(cells, 2) == text_in(item_of(rows[i], 2)));
    let wanted = |row: JsonView| is_looked_for(row, Some(query));
    let listed = |row: JsonView| row_is_listed(row, Some(query));
    if lower_case(text_in(item_of(rows[i], 2))) == front + query + back {
        assert(stands_at(lower_case(text_in(item_of(rows[i], 2))), query, at));
        assert(contains_text(lower_case(row_text(cells, 2)), query));
    } else {
        assert(stands_at(lower_case(text_in(item_of(rows[i], 1))), query, at));
        assert(contains_text(lower_case(row_text(cells, 1)), query));
    }
    standing_is_being_contained(lower_case(row_text(cells, 1)), query);
    standing_is_being_contained(lower_case(row_text(cells, 2)), query);
    assert(is_looked_for(rows[i], Some(query)));
    assert(row_is_listed(rows[i], Some(query)));
    assert(wanted(rows[i]) && listed(rows[i]));
    rows.lemma_filter_contains(wanted, i);
    rows.lemma_filter_contains(listed, i);
    let kept = rows.filter(listed);
    let k = choose|k: int| 0 <= k < kept.len() && kept[k] == rows[i];
    if listing_rows(data, Some(query)).len() < 50 {
        assert(listing_rows(data, Some(query))[k] == listing_row(rows[i]));
    }
}

/// A padded CIK spells the number that it was made of, in digits.
pub proof fn padded_ciks_spell_their_number(cik: u64)
    ensures
        all_digits(padded_cik(cik)),
        spelled(padded_cik(cik)) == cik,
{
    padding_keeps_the_number(cik as nat, 10);
}

/// A ticker file that is an object always gives tickers, and any other document
/// an error.
pub proof fn a_ticker_file_is_an_object(file: JsonView)
    ensures
        tickers_of(file) is Ok <==> file is Object,
        file !is Object ==> tickers_of(file)->Err_0 == "ticker file was not a JSON object"@,
{
}

/// Leading zeros go from a CIK, and nothing else.
pub proof fn leading_zeros_go(cik: Seq<char>, n: int)
    requires
        0 <= n <= cik.len(),
        forall|k: int| 0 <= k < n ==> #[trigger] cik[k] == '0',
        n < cik.len() ==> cik[n] != '0',
    ensures
        cik_number(cik) == cik.skip(n),
{
    let zero = |c: char| c == '0';
    assert forall|k: int| 0 <= k < n implies zero(#[trigger] cik[k]) by {}
    front_is_skipped(cik, zero, n);
}

} // verus!
