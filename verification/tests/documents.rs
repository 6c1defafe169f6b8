use sec_mcp::company::{company_facts_reply, company_info_reply, lookup_cik_reply};
use sec_mcp::concept::financial_concept_reply;
use sec_mcp::doubles::order_key;
use sec_mcp::filings::collect_filings;
use sec_mcp::forms::{is_annual_form, is_quarterly_form};
use sec_mcp::frames::{period_code, top_entries, xbrl_frames_reply};
use sec_mcp::insiders::{describe_code, strip_style_sheet};
use sec_mcp::json::{Json, Number};
use sec_mcp::tickers::list_tickers_reply;
use serde_json::Value;

fn to_json(value: &Value) -> Json {
    match value {
        Value::Null => Json::Null,
        Value::Bool(b) => Json::Bool(*b),
        Value::Number(n) => Json::Number(if let Some(u) = n.as_u64() {
            Number::PosInt(u)
        } else if let Some(i) = n.as_i64() {
            Number::NegInt(i)
        } else {
            Number::Float(n.as_f64().unwrap().to_bits())
        }),
        Value::String(s) => Json::Str(s.clone()),
        Value::Array(items) => Json::Array(items.iter().map(to_json).collect()),
        Value::Object(fields) => {
            Json::Object(fields.iter().map(|(k, v)| (k.clone(), to_json(v))).collect())
        }
    }
}

fn to_value(json: &Json) -> Value {
    match json {
        Json::Null => Value::Null,
        Json::Bool(b) => Value::Bool(*b),
        Json::Number(Number::PosInt(u)) => Value::from(*u),
        Json::Number(Number::NegInt(i)) => Value::from(*i),
        Json::Number(Number::Float(bits)) => Value::from(f64::from_bits(*bits)),
        Json::Str(s) => Value::String(s.clone()),
        Json::Array(items) => Value::Array(items.iter().map(to_value).collect()),
        Json::Object(fields) => {
            Value::Object(fields.iter().map(|(k, v)| (k.clone(), to_value(v))).collect())
        }
    }
}

fn parse(text: &str) -> Json {
    to_json(&serde_json::from_str(text).unwrap())
}

fn value(text: &str) -> Value {
    serde_json::from_str(text).unwrap()
}

#[test]
fn annual_and_quarterly_forms() {
    for form in ["10-K", "20-F", "40-F"] {
        assert!(is_annual_form(Some(form)) && !is_quarterly_form(Some(form)));
    }
    for form in ["10-Q", "6-K"] {
        assert!(is_quarterly_form(Some(form)) && !is_annual_form(Some(form)));
    }
    for form in ["10-K/A", "20-F/A", "10-Q/A", "8-K", "", "10-k"] {
        assert!(!is_annual_form(Some(form)) && !is_quarterly_form(Some(form)));
    }
    assert!(!is_annual_form(None) && !is_quarterly_form(None));
}

const BLOCK: &str = r#"{
    "form": ["10-K", "8-K", "10-K", 4],
    "filingDate": ["2024-11-01", "2024-10-31", "2023-11-03", "2023-01-01"],
    "accessionNumber": ["0000320193-24-000123", "0000320193-24-000120", null],
    "primaryDocument": ["aapl-20240928.htm", "", "aapl-20230930.htm"],
    "primaryDocDescription": ["10-K", "8-K"]
}"#;

#[test]
fn filings_become_rows() {
    let mut out: Vec<Json> = Vec::new();
    collect_filings(&parse(BLOCK), "320193", None, 10, &mut out);
    let rows: Vec<Value> = out.iter().map(to_value).collect();
    assert_eq!(rows.len(), 4);
    assert_eq!(
        rows[0],
        value(
            r#"{"form": "10-K", "date": "2024-11-01", "description": "10-K",
                "accession_number": "0000320193-24-000123",
                "url": "https://www.sec.gov/Archives/edgar/data/320193/000032019324000123/aapl-20240928.htm"}"#
        )
    );
    assert_eq!(
        rows[2],
        value(
            r#"{"form": "10-K", "date": "2023-11-03", "description": null, "accession_number": "",
                "url": "https://www.sec.gov/Archives/edgar/data/320193//aapl-20230930.htm"}"#
        )
    );
    assert_eq!(
        rows[3],
        value(
            r#"{"form": 4, "date": "2023-01-01", "description": null, "accession_number": "",
                "url": "https://www.sec.gov/Archives/edgar/data/320193//"}"#
        )
    );
}

#[test]
fn a_form_filter_keeps_that_form_only() {
    let mut out: Vec<Json> = Vec::new();
    collect_filings(&parse(BLOCK), "320193", Some("10-K"), 10, &mut out);
    let dates: Vec<Value> = out.iter().map(|row| to_value(row)["date"].clone()).collect();
    assert_eq!(dates, vec![Value::from("2024-11-01"), Value::from("2023-11-03")]);
    let mut none: Vec<Json> = Vec::new();
    collect_filings(&parse(BLOCK), "320193", Some("10-Q"), 10, &mut none);
    assert!(none.is_empty());
    let mut unnamed: Vec<Json> = Vec::new();
    collect_filings(&parse(BLOCK), "320193", Some(""), 10, &mut unnamed);
    assert_eq!(unnamed.len(), 1);
}

#[test]
fn collecting_stops_at_the_limit() {
    let mut out: Vec<Json> = vec![Json::Null];
    collect_filings(&parse(BLOCK), "320193", None, 3, &mut out);
    assert_eq!(out.len(), 3);
    assert_eq!(to_value(&out[0]), Value::Null);
    collect_filings(&parse(BLOCK), "320193", None, 3, &mut out);
    assert_eq!(out.len(), 3);
    collect_filings(&parse(BLOCK), "320193", None, 0, &mut out);
    assert_eq!(out.len(), 3);
}

#[test]
fn a_block_without_forms_gives_nothing() {
    for text in ["{}", "null", "[]", r#"{"form": "10-K"}"#, r#"{"filingDate": ["2024-11-01"]}"#] {
        let mut out: Vec<Json> = Vec::new();
        collect_filings(&parse(text), "1", None, 5, &mut out);
        assert!(out.is_empty());
    }
}

#[test]
fn cik_lookup_reply() {
    assert_eq!(
        to_value(&lookup_cik_reply("AAPL", "0000320193")),
        value(
            r#"{"ticker": "AAPL", "cik": "0000320193",
                "edgar_url": "https://www.sec.gov/edgar/browse/?CIK=0000320193"}"#
        )
    );
}

#[test]
fn company_info_is_trimmed_to_what_matters() {
    let data = parse(
        r#"{"name": "Apple Inc.", "sic": "3571", "sicDescription": "Electronic Computers",
            "stateOfIncorporation": "CA", "fiscalYearEnd": "0928", "phone": "1",
            "addresses": {"business": {"city": "CUPERTINO"}, "mailing": {"city": "ELSEWHERE"}},
            "exchanges": ["Nasdaq"], "tickers": ["AAPL"], "filings": {}}"#,
    );
    assert_eq!(
        to_value(&company_info_reply("AAPL", "0000320193", &data)),
        value(
            r#"{"name": "Apple Inc.", "ticker": "AAPL", "cik": "0000320193", "sic": "3571",
                "sic_description": "Electronic Computers", "state_of_incorporation": "CA",
                "fiscal_year_end": "0928", "business_address": {"city": "CUPERTINO"},
                "mailing_address": {"city": "ELSEWHERE"}, "exchanges": ["Nasdaq"],
                "tickers": ["AAPL"],
                "edgar_page": "https://www.sec.gov/edgar/browse/?CIK=0000320193"}"#
        )
    );
    let bare = to_value(&company_info_reply("X", "1", &Json::Null));
    assert_eq!(bare["name"], Value::Null);
    assert_eq!(bare["business_address"], Value::Null);
}

const FACTS: &str = r#"{"entityName": "Apple Inc.", "facts": {
    "dei": {"EntityPublicFloat": {"label": "Entity Public Float", "description": null}},
    "broken": 5,
    "us-gaap": {"Assets": {"label": "Assets", "description": "Sum."}, "Odd": {}}
}}"#;

#[test]
fn every_taxonomy_is_listed_without_a_filter() {
    assert_eq!(
        to_value(&company_facts_reply("AAPL", "0000320193", None, &parse(FACTS))),
        value(
            r#"{"company": "Apple Inc.", "ticker": "AAPL", "cik": "0000320193", "taxonomies": {
                "dei": [{"concept": "EntityPublicFloat", "label": "Entity Public Float",
                         "description": ""}],
                "us-gaap": [{"concept": "Assets", "label": "Assets", "description": "Sum."},
                            {"concept": "Odd", "label": "Odd", "description": ""}]}}"#
        )
    );
}

#[test]
fn a_taxonomy_filter_lists_that_taxonomy_only() {
    let reply = to_value(&company_facts_reply("AAPL", "1", Some("dei"), &parse(FACTS)));
    let names: Vec<&String> = reply["taxonomies"].as_object().unwrap().keys().collect();
    assert_eq!(names, vec!["dei"]);
    let none = to_value(&company_facts_reply("AAPL", "1", Some("ifrs-full"), &parse(FACTS)));
    assert_eq!(none["taxonomies"], value("{}"));
    let empty = to_value(&company_facts_reply("AAPL", "1", None, &parse("{}")));
    assert_eq!(empty["taxonomies"], value("{}"));
    assert_eq!(empty["company"], Value::from("Unknown"));
}

fn concept_document(unit: &str, forms: &[&str]) -> Json {
    let facts: Vec<String> = forms
        .iter()
        .enumerate()
        .map(|(i, form)| format!(r#"{{"form": "{form}", "val": {i}}}"#))
        .collect();
    parse(&format!(
        r#"{{"entityName": "Novartis AG", "label": "Profit", "description": "All of it.",
             "units": {{"{unit}": [{}]}}}}"#,
        facts.join(", ")
    ))
}

fn concept_reply(period: Option<&str>, data: &Json) -> Value {
    to_value(&financial_concept_reply(
        "NVS",
        "0001114448",
        "AccountingProfit",
        "ifrs-full",
        period,
        data,
    ))
}

#[test]
fn a_concept_reply_in_full() {
    let data = concept_document("USD", &["10-K"]);
    assert_eq!(
        concept_reply(None, &data),
        value(
            r#"{"company": "Novartis AG", "ticker": "NVS", "cik": "0001114448",
                "concept": "AccountingProfit", "taxonomy": "ifrs-full", "label": "Profit",
                "description": "All of it.", "unit": "USD", "data": [{"form": "10-K", "val": 0}]}"#
        )
    );
    assert_eq!(
        concept_reply(None, &Json::Null),
        value(
            r#"{"company": "Unknown", "ticker": "NVS", "cik": "0001114448",
                "concept": "AccountingProfit", "taxonomy": "ifrs-full", "label": "AccountingProfit",
                "description": "", "unit": "unknown", "data": []}"#
        )
    );
}

#[test]
fn foreign_filers_have_quarterly_facts() {
    let data = concept_document("USD", &["6-K", "6-K", "6-K"]);
    let quarterly = concept_reply(Some("quarterly"), &data);
    assert_eq!(quarterly["data"].as_array().unwrap().len(), 3);
    assert_eq!(quarterly.get("note"), None);
    assert_eq!(quarterly.get("available_forms"), None);
}

#[test]
fn an_empty_period_names_the_forms() {
    let data = concept_document("USD", &["6-K", "10-Q", "6-K"]);
    let annual = concept_reply(Some("annual"), &data);
    assert_eq!(annual["data"], value("[]"));
    assert_eq!(annual["available_forms"], value(r#"["10-Q", "6-K"]"#));
    assert_eq!(
        annual["note"],
        Value::from(
            "The 'annual' filter matched none of this concept's facts. They are filed on: \
             10-Q, 6-K. Retry without the period filter to see them."
        )
    );
}

#[test]
fn a_concept_without_facts_has_no_note() {
    let data = concept_document("USD", &[]);
    let annual = concept_reply(Some("annual"), &data);
    assert_eq!(annual["data"], value("[]"));
    assert_eq!(annual.get("note"), None);
}

#[test]
fn a_period_of_another_name_filters_nothing() {
    let data = concept_document("USD", &["10-K", "8-K", "10-Q"]);
    assert_eq!(concept_reply(Some("monthly"), &data)["data"].as_array().unwrap().len(), 3);
    assert_eq!(concept_reply(Some("annual"), &data)["data"], value(r#"[{"form": "10-K", "val": 0}]"#));
}

#[test]
fn a_reply_holds_the_last_twenty_facts() {
    let forms: Vec<&str> = (0..25).map(|_| "10-K").collect();
    let reply = concept_reply(Some("annual"), &concept_document("USD", &forms));
    let values: Vec<u64> =
        reply["data"].as_array().unwrap().iter().map(|f| f["val"].as_u64().unwrap()).collect();
    assert_eq!(values, (5..25).collect::<Vec<u64>>());
}

#[test]
fn units_have_a_preference() {
    let three = parse(r#"{"units": {"EUR": [1], "USD": [2], "pure": [3]}}"#);
    assert_eq!(concept_reply(None, &three)["unit"], Value::from("USD"));
    let two = parse(r#"{"units": {"EUR": [1], "pure": [3]}}"#);
    assert_eq!(concept_reply(None, &two)["unit"], Value::from("pure"));
    let one = parse(r#"{"units": {"USD/shares": [1.5], "shares": [2]}}"#);
    assert_eq!(concept_reply(None, &one)["unit"], Value::from("USD/shares"));
    assert_eq!(concept_reply(None, &one)["data"], value("[1.5]"));
    let odd = parse(r#"{"units": {"USD": 5, "pure": [3]}}"#);
    assert_eq!(concept_reply(None, &odd)["unit"], Value::from("unknown"));
}

#[test]
fn period_codes() {
    let code = |period: &str, instant: bool| period_code(period, instant);
    assert_eq!(code("2024", false), Ok("2024".to_string()));
    assert_eq!(code(" CY2024Q1 ", false), Ok("2024Q1".to_string()));
    assert_eq!(code("cy2024Q1I", false), Ok("2024Q1".to_string()));
    assert_eq!(code("2019Q1", true), Ok("2019Q1I".to_string()));
    assert_eq!(code("CY2019Q1i", true), Ok("2019Q1I".to_string()));
    assert_eq!(
        code("CY2024", true),
        Err("instant=true requires a quarterly period (e.g. '2024Q1'); got '2024'".to_string())
    );
    assert_eq!(
        code("2024q1", true),
        Err("instant=true requires a quarterly period (e.g. '2024Q1'); got '2024q1'".to_string())
    );
    assert_eq!(code("2024Ii", false), Ok("2024I".to_string()));
    assert_eq!(code("2024iI", false), Ok("2024".to_string()));
}

#[test]
fn prefix_and_mark_make_no_difference() {
    for period in ["2024", "2024Q1", "CY2024", "cy2024Q3", ""] {
        for instant in [false, true] {
            let plain = period_code(period, instant);
            assert_eq!(period_code(&format!("CY{period}"), instant), plain);
            assert_eq!(period_code(&format!("{period}I"), instant), plain);
            assert_eq!(period_code(&format!("{period}i"), instant), plain);
            assert_eq!(period_code(&format!(" {period}\t"), instant), plain);
            if !period.starts_with("CY") {
                assert_eq!(period_code(&format!("cy{period}"), instant), plain);
            }
        }
    }
}

#[test]
fn integers_are_ordered_as_doubles() {
    let mut numbers: Vec<u64> = vec![0, 1, 2, 3, u64::MAX, u64::MAX - 1, u64::MAX / 2];
    for shift in 0..64u32 {
        let power = 1u64 << shift;
        for offset in [0u64, 1, 2, 3, 255, 256, 257, 511, 512, 513, 1023, 1024, 1025, 2048, 3072] {
            numbers.push(power.wrapping_add(offset));
            numbers.push(power.wrapping_sub(offset));
        }
    }
    for n in numbers {
        let key = order_key(&Json::Number(Number::PosInt(n)));
        assert_eq!(key, (n as f64).to_bits() as i64, "{n}");
        let negative = (n / 2) as i64;
        let below = order_key(&Json::Number(Number::NegInt(-negative)));
        assert_eq!(below, -((negative as f64).to_bits() as i64), "-{negative}");
    }
    assert_eq!(
        order_key(&Json::Number(Number::NegInt(i64::MIN))),
        -((i64::MIN as f64).abs().to_bits() as i64)
    );
}

#[test]
fn all_numbers_are_ordered_as_doubles() {
    let numbers = [
        "0", "-0.0", "1", "-1", "0.5", "-0.5", "1e-320", "5e-324", "1e300", "-1e300", "3.14",
        "18446744073709551615", "18446744073709551616", "9007199254740993", "9007199254740992",
        "-9223372036854775808", "-9223372036854775809", "2.5", "1e19",
    ];
    for a in numbers {
        for b in numbers {
            let (x, y) = (value(a).as_f64().unwrap(), value(b).as_f64().unwrap());
            let (k, m) = (order_key(&parse(a)), order_key(&parse(b)));
            assert_eq!(k < m, x < y, "{a} {b}");
            assert_eq!(k == m, x == y, "{a} {b}");
        }
    }
    for other in ["null", "true", "\"5\"", "[]", "{}"] {
        assert_eq!(order_key(&parse(other)), 0);
    }
}

#[test]
fn frames_come_out_largest_first() {
    let data = parse(
        r#"{"data": [{"n": 1, "val": 5}, {"n": 2, "val": 7.5}, {"n": 3}, {"n": 4, "val": -2},
                     {"n": 5, "val": 5.0}, {"n": 6, "val": "9"}, {"n": 7, "val": 7.5}]}"#,
    );
    let order: Vec<u64> =
        top_entries(&data, 20).iter().map(|e| to_value(e)["n"].as_u64().unwrap()).collect();
    assert_eq!(order, vec![2, 7, 1, 5, 3, 6, 4]);
    assert_eq!(top_entries(&data, 2).len(), 2);
    assert_eq!(top_entries(&data, 0).len(), 0);
    assert_eq!(top_entries(&parse("{}"), 5).len(), 0);
}

#[test]
fn a_frame_reply_in_full() {
    let data = parse(r#"{"data": [{"val": 1}, {"val": 3}, {"val": 2}], "taxonomy": "us-gaap"}"#);
    assert_eq!(
        to_value(&xbrl_frames_reply("Assets", "us-gaap", "USD", "2019Q1I", true, 2, &data)),
        value(
            r#"{"concept": "Assets", "taxonomy": "us-gaap", "unit": "USD", "period": "2019Q1I",
                "instant": true, "count": 2, "data": [{"val": 3}, {"val": 2}]}"#
        )
    );
}

const LISTING: &str = r#"{"fields": ["cik", "name", "ticker", "exchange"], "data": [
    [320193, "Apple Inc.", "AAPL", "Nasdaq"],
    [789019, "MICROSOFT CORP", "MSFT", "Nasdaq"],
    "no row",
    [1018724, "AMAZON COM INC", "AMZN"],
    [1]
]}"#;

#[test]
fn a_listing_looks_at_names_and_tickers() {
    let hits = |query: &str| {
        let reply = to_value(&list_tickers_reply(Some(query), &parse(LISTING)));
        let rows = reply["data"].as_array().unwrap().clone();
        assert_eq!(reply["returned"], Value::from(rows.len()));
        rows.iter().map(|row| row["cik"].as_u64().unwrap()).collect::<Vec<u64>>()
    };
    assert_eq!(hits("apple"), vec![320193]);
    assert_eq!(hits("msft"), vec![789019]);
    assert_eq!(hits("inc"), vec![320193, 1018724]);
    assert_eq!(hits(""), vec![320193, 789019, 1018724, 1]);
    assert_eq!(hits("nyse"), Vec::<u64>::new());
}

#[test]
fn a_listing_in_full() {
    assert_eq!(
        to_value(&list_tickers_reply(None, &parse(LISTING))),
        value(
            r#"{"total_tickers": 5, "returned": 4, "query": "(none)", "data": [
                {"cik": 320193, "name": "Apple Inc.", "ticker": "AAPL", "exchange": "Nasdaq"},
                {"cik": 789019, "name": "MICROSOFT CORP", "ticker": "MSFT", "exchange": "Nasdaq"},
                {"cik": 1018724, "name": "AMAZON COM INC", "ticker": "AMZN", "exchange": null},
                {"cik": 1, "name": null, "ticker": null, "exchange": null}]}"#
        )
    );
    assert_eq!(
        to_value(&list_tickers_reply(Some("x"), &Json::Null)),
        value(r#"{"total_tickers": 0, "returned": 0, "query": "x", "data": []}"#)
    );
}

#[test]
fn a_listing_holds_fifty_rows_at_most() {
    let rows: Vec<String> = (0..60).map(|i| format!(r#"[{i}, "Co", "T{i}", "NYSE"]"#)).collect();
    let reply =
        to_value(&list_tickers_reply(Some("co"), &parse(&format!(r#"{{"data": [{}]}}"#, rows.join(", ")))));
    assert_eq!(reply["total_tickers"], Value::from(60));
    assert_eq!(reply["returned"], Value::from(50));
    assert_eq!(reply["data"].as_array().unwrap().len(), 50);
    assert_eq!(reply["data"][49]["cik"], Value::from(49));
}

#[test]
fn copies_of_documents_hold_the_same() {
    let text = r#"{"a": [1, -2, 3.5, null, true, "x", {"b": []}], "c": {}}"#;
    let document = parse(text);
    assert_eq!(to_value(&document.clone()), value(text));
    assert_eq!(document.get("c").map(to_value), Some(value("{}")));
    assert!(document.get("d").is_none());
}

#[test]
fn style_sheets_are_stripped() {
    assert_eq!(strip_style_sheet("xslF345X06/form4.xml"), "form4.xml");
    assert_eq!(strip_style_sheet("xsl/a/b.xml"), "a/b.xml");
    assert_eq!(strip_style_sheet("form4.xml"), "form4.xml");
    assert_eq!(strip_style_sheet("doc/form4.xml"), "doc/form4.xml");
    assert_eq!(strip_style_sheet("xslform.xml"), "xslform.xml");
    assert_eq!(strip_style_sheet("xs"), "xs");
    assert_eq!(strip_style_sheet(""), "");
}

#[test]
fn every_transaction_code_is_expanded() {
    let codes = "PSVADFIMCEHOXGLWZJKU";
    let mut meanings: Vec<String> = codes.chars().map(|c| describe_code(&c.to_string())).collect();
    assert_eq!(meanings[0], "Open market or private purchase");
    assert_eq!(meanings[13], "Bona fide gift");
    assert!(!meanings.contains(&"Unknown transaction code".to_string()));
    meanings.sort();
    meanings.dedup();
    assert_eq!(meanings.len(), codes.len());
    for other in ["", "p", "PP", "Q"] {
        assert_eq!(describe_code(other), "Unknown transaction code");
    }
}
