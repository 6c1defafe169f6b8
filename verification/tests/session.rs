use sec_mcp::json::{Json, Number};
use sec_mcp::server::all_tools;
use sec_mcp::session::{
    fetched, handle_tool, look_up, read_document, resolved, resolved_as, saved, tickers_fetched,
    Lookup, Query, Step,
};
use sec_mcp::tickers::{TickerCache, TickerMap};
use serde_json::Value;

fn to_json(value: &Value) -> Json {
    match value {
        Value::Null => Json::Null,
        Value::Bool(b) => Json::Bool(*b),
        Value::Number(n) => Json::Number(if let Some(u) = n.as_u64() {
            Number::PosInt(u)
        } else if let Some(i) = n.as_i64() {
            Number::NegInt(i)
        } else {
            Number::Float(n.as_f64().unwrap().to_bits())
        }),
        Value::String(s) => Json::Str(s.clone()),
        Value::Array(items) => Json::Array(items.iter().map(to_json).collect()),
        Value::Object(fields) => {
            Json::Object(fields.iter().map(|(k, v)| (k.clone(), to_json(v))).collect())
        }
    }
}

fn to_value(json: &Json) -> Value {
    match json {
        Json::Null => Value::Null,
        Json::Bool(b) => Value::Bool(*b),
        Json::Number(Number::PosInt(u)) => Value::from(*u),
        Json::Number(Number::NegInt(i)) => Value::from(*i),
        Json::Number(Number::Float(bits)) => Value::from(f64::from_bits(*bits)),
        Json::Str(s) => Value::String(s.clone()),
        Json::Array(items) => Value::Array(items.iter().map(to_value).collect()),
        Json::Object(fields) => {
            Value::Object(fields.iter().map(|(k, v)| (k.clone(), to_value(v))).collect())
        }
    }
}

fn parse(text: &str) -> Json {
    to_json(&serde_json::from_str(text).unwrap())
}

fn value(text: &str) -> Value {
    serde_json::from_str(text).unwrap()
}

fn tickers() -> TickerMap {
    let mut map = TickerMap::new();
    map.add("AAPL".to_string(), 320193);
    map.add("NVS".to_string(), 1114448);
    map
}

/// Runs a call to its end with the documents of `site`; gives the addresses
/// that were fetched as well.
fn run(name: &str, args: &str, site: &[(&str, &str)]) -> (Result<Value, String>, Vec<String>) {
    let mut asked: Vec<String> = Vec::new();
    let mut step = handle_tool(true, name, &parse(args));
    loop {
        step = match step {
            Step::Reply(reply) => return (Ok(to_value(&reply)), asked),
            Step::Fail(why) => return (Err(why), asked),
            Step::Save(email) => saved(&email, Some("/tmp/config.toml"), Ok(())),
            Step::Resolve(lookup) => resolved(lookup, Ok(&tickers())),
            Step::Tickers(_, lookup) => resolved(lookup, Ok(&tickers())),
            Step::Fetch(url, query) => {
                let found = site.iter().find(|(at, _)| *at == url);
                let document = match found {
                    Some((_, text)) => Ok(parse(text)),
                    None => Err(format!("nothing at {url}")),
                };
                asked.push(url);
                fetched(query, document)
            }
            Step::Read(url, reading) => {
                let found = site.iter().find(|(at, _)| *at == url);
                let text = match found {
                    Some((_, text)) => Ok(text.to_string()),
                    None => Err(format!("nothing at {url}")),
                };
                asked.push(url);
                read_document(reading, text)
            }
        };
    }
}

const DATA_TOOLS: [&str; 8] = [
    "sec_insider_transactions",
    "sec_lookup_cik",
    "sec_recent_filings",
    "sec_financial_concept",
    "sec_company_info",
    "sec_list_tickers",
    "sec_company_facts",
    "sec_xbrl_frames",
];

#[test]
fn every_data_tool_is_refused_without_a_client() {
    for name in DATA_TOOLS {
        for args in ["{}", r#"{"ticker": "AAPL"}"#, "null"] {
            match handle_tool(false, name, &parse(args)) {
                Step::Fail(why) => assert_eq!(
                    why,
                    "SEC EDGAR contact email not configured. \
                     Please call the sec_configure tool first."
                ),
                _ => panic!("{name} went on"),
            }
        }
    }
}

#[test]
fn unknown_tools_are_refused_first() {
    for connected in [false, true] {
        match handle_tool(connected, "sec_nothing", &Json::Null) {
            Step::Fail(why) => assert_eq!(why, "unknown tool: sec_nothing"),
            _ => panic!("went on"),
        }
    }
}

#[test]
fn configuring_needs_an_address() {
    assert_eq!(run("sec_configure", "{}", &[]).0, Err("contact_email required".to_string()));
    assert_eq!(
        run("sec_configure", r#"{"contact_email": 5}"#, &[]).0,
        Err("contact_email required".to_string())
    );
    assert_eq!(
        run("sec_configure", r#"{"contact_email": " \t "}"#, &[]).0,
        Err("contact_email cannot be empty".to_string())
    );
}

#[test]
fn configuring_trims_and_reports_the_address() {
    match handle_tool(false, "sec_configure", &parse(r#"{"contact_email": " a@example.com\n"}"#)) {
        Step::Save(email) => assert_eq!(email, "a@example.com"),
        _ => panic!("not saved"),
    }
    assert_eq!(
        run("sec_configure", r#"{"contact_email": " a@example.com\n"}"#, &[]).0,
        Ok(value(
            r#"{"status": "configured", "contact_email": "a@example.com",
                "config_path": "/tmp/config.toml",
                "message": "SEC EDGAR contact email saved. All requests will now identify as: sec-mcp/0.5.0 (contact: a@example.com)"}"#
        ))
    );
}

#[test]
fn a_failed_save_is_reported() {
    match saved("a@example.com", None, Err("disk full".to_string())) {
        Step::Fail(why) => assert_eq!(why, "failed to save configuration: disk full"),
        _ => panic!("went on"),
    }
    match saved("a@example.com", None, Ok(())) {
        Step::Reply(reply) => assert_eq!(to_value(&reply)["config_path"], Value::from("unknown")),
        _ => panic!("no reply"),
    }
}

#[test]
fn arguments_are_asked_for_in_order() {
    for name in [
        "sec_lookup_cik",
        "sec_recent_filings",
        "sec_financial_concept",
        "sec_company_info",
        "sec_company_facts",
        "sec_insider_transactions",
    ] {
        assert_eq!(run(name, "{}", &[]).0, Err("ticker required".to_string()));
    }
    assert_eq!(
        run("sec_financial_concept", r#"{"ticker": "AAPL"}"#, &[]).0,
        Err("concept required".to_string())
    );
    assert_eq!(run("sec_xbrl_frames", "{}", &[]).0, Err("concept required".to_string()));
    assert_eq!(
        run("sec_xbrl_frames", r#"{"concept": "Assets"}"#, &[]).0,
        Err("period required".to_string())
    );
    assert_eq!(
        run("sec_xbrl_frames", r#"{"concept": "Assets", "period": "2019", "instant": true}"#, &[]).0,
        Err("instant=true requires a quarterly period (e.g. '2024Q1'); got '2019'".to_string())
    );
}

#[test]
fn a_ticker_is_resolved_to_its_cik() {
    let (reply, asked) = run("sec_lookup_cik", r#"{"ticker": "aapl"}"#, &[]);
    let reply = reply.unwrap();
    assert_eq!(reply["cik"].as_str(), Some("0000320193"));
    assert_eq!(reply["ticker"].as_str(), Some("AAPL"));
    assert!(asked.is_empty());
    assert_eq!(
        run("sec_lookup_cik", r#"{"ticker": "nope"}"#, &[]).0,
        Err("ticker 'nope' not found in EDGAR".to_string())
    );
}

#[test]
fn missing_tickers_end_a_call() {
    match resolved(Lookup::Info { ticker: "AAPL".to_string() }, Err("offline".to_string())) {
        Step::Fail(why) => assert_eq!(why, "offline"),
        _ => panic!("went on"),
    }
    let lookup = Lookup::Cik { ticker: "Aapl".to_string() };
    match resolved_as(lookup, "aapl".to_string(), Ok(&tickers())) {
        Step::Fail(why) => assert_eq!(why, "ticker 'Aapl' not found in EDGAR"),
        _ => panic!("went on"),
    }
}

const SUBMISSIONS: &str = "https://data.sec.gov/submissions/CIK0000320193.json";

fn block(forms: &[&str], first: usize) -> String {
    let forms_list: Vec<String> = forms.iter().map(|f| format!("{f:?}")).collect();
    let accessions: Vec<String> =
        (0..forms.len()).map(|i| format!("\"0-0-{}\"", first + i)).collect();
    format!(
        r#"{{"form": [{}], "accessionNumber": [{}]}}"#,
        forms_list.join(", "),
        accessions.join(", ")
    )
}

fn accessions(reply: &Value) -> Vec<String> {
    reply["filings"]
        .as_array()
        .unwrap()
        .iter()
        .map(|row| row["accession_number"].as_str().unwrap().to_string())
        .collect()
}

fn history() -> Vec<(&'static str, String)> {
    let recent = block(&["10-K", "8-K", "10-K"], 0);
    vec![
        (
            SUBMISSIONS,
            format!(
                r#"{{"name": "Apple Inc.", "filings": {{"recent": {recent}, "files": [
                    {{"name": "older-1.json"}}, {{"filingCount": 3}}, {{"name": "older-2.json"}}]}}}}"#
            ),
        ),
        ("https://data.sec.gov/submissions/older-1.json", block(&["8-K", "10-K"], 3)),
        ("https://data.sec.gov/submissions/older-2.json", block(&["10-K", "10-K"], 5)),
    ]
}

fn run_on_history(args: &str) -> (Value, Vec<String>) {
    let documents = history();
    let site: Vec<(&str, &str)> = documents.iter().map(|(at, text)| (*at, text.as_str())).collect();
    let (reply, asked) = run("sec_recent_filings", args, &site);
    (reply.unwrap(), asked)
}

#[test]
fn recent_filings_take_one_request_where_they_suffice() {
    let (reply, asked) = run_on_history(r#"{"ticker": "AAPL", "form_type": "10-K", "limit": 2}"#);
    assert_eq!(accessions(&reply), vec!["0-0-0", "0-0-2"]);
    assert_eq!(reply["filings"][0]["form"].as_str(), Some("10-K"));
    assert_eq!(reply["company"], Value::from("Apple Inc."));
    assert_eq!(reply["ticker"], Value::from("AAPL"));
    assert_eq!(reply["cik"], Value::from("0000320193"));
    assert_eq!(
        reply["filings"][0]["url"],
        Value::from("https://www.sec.gov/Archives/edgar/data/320193/000/")
    );
    assert_eq!(asked, vec![SUBMISSIONS]);
}

#[test]
fn older_filings_are_paged_in_while_some_are_missing() {
    let (reply, asked) = run_on_history(r#"{"ticker": "AAPL", "form_type": "10-K", "limit": 3}"#);
    assert_eq!(accessions(&reply), vec!["0-0-0", "0-0-2", "0-0-4"]);
    assert_eq!(asked, vec![SUBMISSIONS, "https://data.sec.gov/submissions/older-1.json"]);
    let (reply, asked) = run_on_history(r#"{"ticker": "AAPL", "form_type": "10-K", "limit": 4}"#);
    assert_eq!(accessions(&reply), vec!["0-0-0", "0-0-2", "0-0-4", "0-0-5"]);
    assert_eq!(asked.len(), 3);
}

#[test]
fn paging_ends_with_the_last_file() {
    let (reply, asked) = run_on_history(r#"{"ticker": "AAPL"}"#);
    assert_eq!(
        accessions(&reply),
        vec!["0-0-0", "0-0-1", "0-0-2", "0-0-3", "0-0-4", "0-0-5", "0-0-6"]
    );
    assert_eq!(asked.len(), 3);
    let (reply, asked) = run_on_history(r#"{"ticker": "AAPL", "limit": 0}"#);
    assert_eq!(accessions(&reply), Vec::<String>::new());
    assert_eq!(asked.len(), 1);
}

#[test]
fn a_reply_holds_ten_filings_or_at_most_forty() {
    let forms: Vec<&str> = (0..60).map(|_| "4").collect();
    let document = format!(r#"{{"filings": {{"recent": {}}}}}"#, block(&forms, 0));
    let count = |args: &str| {
        let (reply, _) = run("sec_recent_filings", args, &[(SUBMISSIONS, document.as_str())]);
        let reply = reply.unwrap();
        assert_eq!(reply["company"], Value::from("Unknown"));
        reply["filings"].as_array().unwrap().len()
    };
    assert_eq!(count(r#"{"ticker": "AAPL"}"#), 10);
    assert_eq!(count(r#"{"ticker": "AAPL", "limit": null}"#), 10);
    assert_eq!(count(r#"{"ticker": "AAPL", "limit": -1}"#), 10);
    assert_eq!(count(r#"{"ticker": "AAPL", "limit": 39}"#), 39);
    assert_eq!(count(r#"{"ticker": "AAPL", "limit": 41}"#), 40);
    assert_eq!(count(r#"{"ticker": "AAPL", "limit": 18446744073709551615}"#), 40);
}

#[test]
fn a_failed_request_ends_a_call() {
    let documents = history();
    let site: Vec<(&str, &str)> =
        documents.iter().take(2).map(|(at, text)| (*at, text.as_str())).collect();
    let (reply, asked) = run("sec_recent_filings", r#"{"ticker": "AAPL", "limit": 20}"#, &site);
    assert_eq!(
        reply,
        Err("nothing at https://data.sec.gov/submissions/older-2.json".to_string())
    );
    assert_eq!(asked.len(), 3);
    assert_eq!(
        run("sec_company_info", r#"{"ticker": "AAPL"}"#, &[]).0,
        Err(format!("nothing at {SUBMISSIONS}"))
    );
}

#[test]
fn a_concept_is_looked_up_with_its_defaults() {
    let at = "https://data.sec.gov/api/xbrl/companyconcept/CIK0000320193/us-gaap/Revenues.json";
    let document = r#"{"entityName": "Apple Inc.", "units": {"USD": [{"form": "10-K", "val": 1}]}}"#;
    let (reply, asked) = run(
        "sec_financial_concept",
        r#"{"ticker": "aapl", "concept": "Revenues", "taxonomy": null, "period": "quarterly"}"#,
        &[(at, document)],
    );
    let reply = reply.unwrap();
    assert_eq!(asked, vec![at]);
    assert_eq!(reply["taxonomy"], Value::from("us-gaap"));
    assert_eq!(reply["label"], Value::from("Revenues"));
    assert_eq!(reply["ticker"], Value::from("AAPL"));
    assert_eq!(reply["available_forms"], value(r#"["10-K"]"#));
}

#[test]
fn a_foreign_filer_is_found_in_its_taxonomy() {
    let at =
        "https://data.sec.gov/api/xbrl/companyconcept/CIK0001114448/ifrs-full/AccountingProfit.json";
    let document = r#"{"units": {"USD": [{"form": "6-K", "val": 1}]}}"#;
    let call = |period: &str| {
        let args = format!(
            r#"{{"ticker": "NVS", "concept": "AccountingProfit", "taxonomy": "ifrs-full",
                 "period": "{period}"}}"#
        );
        run("sec_financial_concept", &args, &[(at, document)]).0.unwrap()
    };
    assert!(!call("quarterly")["data"].as_array().unwrap().is_empty());
    let annual = call("annual");
    assert!(annual["data"].as_array().unwrap().is_empty());
    assert!(!annual["available_forms"].as_array().unwrap().is_empty());
}

#[test]
fn company_documents_come_from_their_endpoints() {
    let (reply, asked) =
        run("sec_company_info", r#"{"ticker": "AAPL"}"#, &[(SUBMISSIONS, r#"{"name": "Apple Inc."}"#)]);
    assert_eq!(reply.unwrap()["name"], Value::from("Apple Inc."));
    assert_eq!(asked, vec![SUBMISSIONS]);
    let facts = "https://data.sec.gov/api/xbrl/companyfacts/CIK0000320193.json";
    let document =
        r#"{"entityName": "Apple Inc.", "facts": {"us-gaap": {"Assets": {}}, "dei": {"Float": {}}}}"#;
    let (reply, asked) = run("sec_company_facts", r#"{"ticker": "AAPL"}"#, &[(facts, document)]);
    let reply = reply.unwrap();
    assert!(reply["company"].as_str().unwrap().to_lowercase().contains("apple"));
    assert!(!reply["taxonomies"]["us-gaap"].as_array().unwrap().is_empty());
    assert!(!reply["taxonomies"]["dei"].as_array().unwrap().is_empty());
    assert_eq!(asked, vec![facts]);
    let args = r#"{"ticker": "AAPL", "taxonomy": "dei"}"#;
    let narrowed = run("sec_company_facts", args, &[(facts, document)]).0.unwrap();
    assert_eq!(narrowed["taxonomies"].as_object().unwrap().len(), 1);
}

#[test]
fn a_listing_ignores_the_case_of_its_query() {
    let at = "https://www.sec.gov/files/company_tickers_exchange.json";
    let document = r#"{"data": [[320193, "Apple Inc.", "AAPL", "Nasdaq"], [1, "Other", "X", "NYSE"]]}"#;
    let (reply, asked) = run("sec_list_tickers", r#"{"query": "APPLE"}"#, &[(at, document)]);
    let reply = reply.unwrap();
    assert_eq!(asked, vec![at]);
    assert_eq!(reply["query"], Value::from("apple"));
    assert_eq!(reply["returned"], Value::from(1));
    assert_eq!(reply["data"][0]["ticker"], Value::from("AAPL"));
    let all = run("sec_list_tickers", "{}", &[(at, document)]).0.unwrap();
    assert_eq!(all["returned"], Value::from(2));
    assert_eq!(all["query"], Value::from("(none)"));
}

#[test]
fn frames_are_asked_for_with_their_defaults() {
    let at = "https://data.sec.gov/api/xbrl/frames/us-gaap/Revenues/USD/CY2024.json";
    let entries: Vec<String> = (0..30).map(|i| format!(r#"{{"val": {i}}}"#)).collect();
    let document = format!(r#"{{"data": [{}]}}"#, entries.join(", "));
    let (reply, asked) = run(
        "sec_xbrl_frames",
        r#"{"concept": "Revenues", "period": "CY2024"}"#,
        &[(at, document.as_str())],
    );
    let reply = reply.unwrap();
    assert_eq!(asked, vec![at]);
    assert_eq!(reply["count"], Value::from(20));
    assert_eq!(reply["data"][0], value(r#"{"val": 29}"#));
    assert_eq!(reply["period"], Value::from("2024"));
    assert_eq!(reply["instant"], Value::from(false));
}

#[test]
fn frames_per_share_unit_returns_data() {
    let at = "https://data.sec.gov/api/xbrl/frames/us-gaap/EarningsPerShareBasic/USD-per-shares/CY2019.json";
    let (reply, asked) = run(
        "sec_xbrl_frames",
        r#"{"concept": "EarningsPerShareBasic", "period": "2019", "unit": "USD/shares",
            "instant": false, "limit": 5}"#,
        &[(at, r#"{"data": [{"val": 1.5}, {"val": 11.97}]}"#)],
    );
    let reply = reply.unwrap();
    assert_eq!(asked, vec![at]);
    assert_eq!(reply["unit"], Value::from("USD/shares"));
    assert_eq!(reply["data"], value(r#"[{"val": 11.97}, {"val": 1.5}]"#));
}

#[test]
fn instant_frames_are_asked_for_by_quarter() {
    let at = "https://data.sec.gov/api/xbrl/frames/us-gaap/Assets/USD/CY2019Q1I.json";
    let (reply, asked) = run(
        "sec_xbrl_frames",
        r#"{"concept": "Assets", "period": "2019Q1", "unit": "USD", "instant": true, "limit": 5}"#,
        &[(at, r#"{"data": [{"val": 1}]}"#)],
    );
    assert_eq!(asked, vec![at]);
    assert_eq!(reply.unwrap()["period"], Value::from("2019Q1I"));
}

#[test]
fn a_query_keeps_what_was_found() {
    let query = Query::OlderFilings {
        symbol: "AAPL".to_string(),
        cik: "0000320193".to_string(),
        form: None,
        limit: 2,
        company: "Apple Inc.".to_string(),
        found: vec![Json::Null, Json::Null, Json::Null],
        names: vec!["more.json".to_string()],
    };
    match fetched(query, Ok(parse(&block(&["10-K"], 0)))) {
        Step::Reply(reply) => assert_eq!(to_value(&reply)["filings"], value("[null, null, null]")),
        _ => panic!("no reply"),
    }
}

const HOUR: u64 = 3_600_000_000_000;

fn cik_lookup() -> Lookup {
    Lookup::Cik { ticker: "aapl".to_string() }
}

fn ticker_file(cik: u64) -> Json {
    parse(&format!(r#"{{"0": {{"ticker": "AAPL", "cik_str": {cik}}}}}"#))
}

fn asks_for_tickers(step: &Step) -> bool {
    match step {
        Step::Tickers(url, _) => url == "https://www.sec.gov/files/company_tickers.json",
        _ => false,
    }
}

fn found_cik(step: Step) -> Value {
    match step {
        Step::Reply(reply) => to_value(&reply)["cik"].clone(),
        _ => panic!("no reply"),
    }
}

#[test]
fn tickers_are_requested_once_an_hour() {
    let mut cache = TickerCache::new();
    assert!(asks_for_tickers(&look_up(cik_lookup(), &cache, 7)));
    let step = tickers_fetched(cik_lookup(), &mut cache, 7, Ok(ticker_file(320193)));
    assert_eq!(found_cik(step), Value::from("0000320193"));
    assert_eq!(found_cik(look_up(cik_lookup(), &cache, 7 + HOUR - 1)), Value::from("0000320193"));
    assert!(asks_for_tickers(&look_up(cik_lookup(), &cache, 7 + HOUR)));
    let step = tickers_fetched(cik_lookup(), &mut cache, 8 + HOUR, Ok(ticker_file(5)));
    assert_eq!(found_cik(step), Value::from("0000000005"));
    assert_eq!(found_cik(look_up(cik_lookup(), &cache, 2 * HOUR)), Value::from("0000000005"));
}

#[test]
fn a_failed_ticker_request_leaves_the_cache_alone() {
    let mut cache = TickerCache::new();
    tickers_fetched(cik_lookup(), &mut cache, 0, Ok(ticker_file(320193)));
    for (file, expected) in [
        (Err("offline".to_string()), "offline"),
        (Ok(parse("[]")), "ticker file was not a JSON object"),
    ] {
        match tickers_fetched(cik_lookup(), &mut cache, HOUR, file) {
            Step::Fail(why) => assert_eq!(why, expected),
            _ => panic!("went on"),
        }
        assert!(asks_for_tickers(&look_up(cik_lookup(), &cache, HOUR)));
        assert!(!asks_for_tickers(&look_up(cik_lookup(), &cache, HOUR - 1)));
    }
}

#[test]
fn every_listed_tool_can_be_called() {
    let tools = all_tools();
    assert_eq!(tools.len(), 9, "expected 9 tools");
    for tool in tools {
        if let Step::Fail(why) = handle_tool(true, &tool.name, &Json::Null) {
            assert!(!why.starts_with("unknown tool"), "{}", tool.name);
        }
    }
}

const FORM_4: &str = r#"<?xml version="1.0"?>
<ownershipDocument>
    <documentType>4</documentType>
    <issuer>
        <issuerCik>0000320193</issuerCik>
        <issuerName>Apple Inc.</issuerName>
        <issuerTradingSymbol>AAPL</issuerTradingSymbol>
    </issuer>
    <reportingOwner>
        <reportingOwnerId>
            <rptOwnerCik>0001214156</rptOwnerCik>
            <rptOwnerName>COOK TIMOTHY D</rptOwnerName>
        </reportingOwnerId>
        <reportingOwnerRelationship>
            <isDirector>1</isDirector>
            <isOfficer>true</isOfficer>
            <isTenPercentOwner>0</isTenPercentOwner>
            <officerTitle>Chief Executive Officer</officerTitle>
        </reportingOwnerRelationship>
    </reportingOwner>
    <nonDerivativeTable>
        <nonDerivativeTransaction>
            <securityTitle><value>Common Stock</value></securityTitle>
            <transactionDate><value>2026-04-01</value></transactionDate>
            <transactionCoding><transactionCode>F</transactionCode></transactionCoding>
            <transactionAmounts>
                <transactionShares><value>1000</value><footnoteId id="F2"/></transactionShares>
                <transactionPricePerShare><value>223.19</value></transactionPricePerShare>
                <transactionAcquiredDisposedCode><value>D</value></transactionAcquiredDisposedCode>
            </transactionAmounts>
            <postTransactionAmounts>
                <sharesOwnedFollowingTransaction><value>3280295</value></sharesOwnedFollowingTransaction>
            </postTransactionAmounts>
            <ownershipNature>
                <directOrIndirectOwnership><value>D</value></directOrIndirectOwnership>
            </ownershipNature>
        </nonDerivativeTransaction>
    </nonDerivativeTable>
    <derivativeTable>
        <derivativeTransaction>
            <securityTitle><value>Restricted Stock Unit</value></securityTitle>
            <transactionCoding><footnoteId id="F1"/></transactionCoding>
        </derivativeTransaction>
        <derivativeHolding>
            <securityTitle><value>Option</value></securityTitle>
            <underlyingSecurity>
                <underlyingSecurityTitle><value>Common Stock</value></underlyingSecurityTitle>
                <underlyingSecurityShares><value>7</value></underlyingSecurityShares>
            </underlyingSecurity>
        </derivativeHolding>
    </derivativeTable>
    <footnotes>
        <footnote id="F1">Vests in 2027.</footnote>
        <footnote id="F2"> Withheld &amp; not sold. </footnote>
        <footnote id="F3">Unused.</footnote>
    </footnotes>
</ownershipDocument>"#;

const OWNERSHIP_INDEX: &str = r#"{"name": "Apple Inc.", "filings": {"recent": {
    "form": ["4", "8-K", "3", "4/A", "5", "4"],
    "filingDate": ["2026-04-03", "2026-04-02", "2026-03-01", "2026-02-01", "2026-01-15", "2026-01-01"],
    "accessionNumber": ["0-26-1", "0-26-2", "0-26-3", "0-26-4", "0-26-5", "0-26-6"],
    "primaryDocument": ["xslF345X06/form4.xml", "x.htm", "xslF345X02/form3.xml", "a.xml", "form5.xml",
                        "xslF345X06/old.xml"]
}}}"#;

const FORM_4_AT: &str = "https://www.sec.gov/Archives/edgar/data/320193/0261/form4.xml";

fn insiders(args: &str, form_3: &str) -> (Value, Vec<String>) {
    let site = [
        (SUBMISSIONS, OWNERSHIP_INDEX),
        (FORM_4_AT, FORM_4),
        ("https://www.sec.gov/Archives/edgar/data/320193/0263/form3.xml", form_3),
    ];
    let (reply, asked) = run("sec_insider_transactions", args, &site);
    (reply.unwrap(), asked)
}

#[test]
fn an_insider_reply_in_full() {
    let (reply, asked) = insiders(r#"{"ticker": "aapl", "form_type": "4", "limit": 1}"#, "");
    assert_eq!(asked, vec![SUBMISSIONS, FORM_4_AT]);
    assert_eq!(
        reply,
        value(
            r#"{"company": "Apple Inc.", "ticker": "AAPL", "cik": "0000320193", "filings": [{
                "form": "4", "date": "2026-04-03", "accession_number": "0-26-1",
                "url": "https://www.sec.gov/Archives/edgar/data/320193/0261/form4.xml",
                "issuer": {"cik": "0000320193", "name": "Apple Inc.", "symbol": "AAPL"},
                "insiders": [{"name": "COOK TIMOTHY D", "cik": "0001214156",
                              "role": "Director, Chief Executive Officer"}],
                "transactions": [
                    {"security": "Common Stock", "derivative": false, "date": "2026-04-01",
                     "code": "F",
                     "code_description": "Shares withheld or delivered to cover tax or an exercise price, not a sale",
                     "shares": "1000", "price_per_share": "223.19", "acquired_disposed_code": "D",
                     "shares_owned_following": "3280295", "ownership": "D",
                     "footnotes": ["Withheld & not sold."]},
                    {"security": "Restricted Stock Unit", "derivative": true, "date": null,
                     "code": "", "code_description": "Unknown transaction code", "shares": null,
                     "price_per_share": null, "acquired_disposed_code": null,
                     "shares_owned_following": null, "ownership": null,
                     "footnotes": ["Vests in 2027."]}],
                "holdings": [
                    {"security": "Option", "derivative": true, "shares_owned": null,
                     "underlying_security": "Common Stock", "underlying_shares": "7",
                     "ownership": null, "footnotes": []}]}]}"#
        )
    );
}

#[test]
fn unreadable_documents_are_reported_in_place() {
    let (reply, asked) = insiders(r#"{"ticker": "AAPL"}"#, "<broken");
    let rows = reply["filings"].as_array().unwrap();
    let forms: Vec<&str> = rows.iter().map(|row| row["form"].as_str().unwrap()).collect();
    assert_eq!(forms, vec!["4", "3", "5", "4"]);
    assert_eq!(asked.len(), 5);
    assert!(rows[0]["error"].is_null());
    assert!(rows[0]["insiders"][0]["name"].as_str().is_some_and(|n| !n.is_empty()));
    let txns = rows[0]["transactions"].as_array().unwrap();
    assert!(txns.iter().all(|t| t["code"].as_str().is_some()));
    assert!(rows[1]["error"].as_str().unwrap().starts_with("failed to parse the document: "));
    assert!(rows[1].get("holdings").is_none());
    assert_eq!(
        rows[2]["error"],
        Value::from(
            "nothing at https://www.sec.gov/Archives/edgar/data/320193/0265/form5.xml"
        )
    );
    assert!(rows[3]["error"].as_str().unwrap().ends_with("/0266/old.xml"));
}

#[test]
fn a_form_3_reports_holdings() {
    let args = r#"{"ticker": "AAPL", "form_type": "3", "limit": 1}"#;
    let row = |form_3: &str| insiders(args, form_3).0["filings"][0].clone();
    let held = row(
        "<ownershipDocument><nonDerivativeTable><nonDerivativeHolding>\
         <securityTitle><value>Common Stock</value></securityTitle><postTransactionAmounts>\
         <sharesOwnedFollowingTransaction><value>12</value></sharesOwnedFollowingTransaction>\
         </postTransactionAmounts></nonDerivativeHolding></nonDerivativeTable></ownershipDocument>",
    );
    assert_eq!(held["holdings"][0]["shares_owned"], Value::from("12"));
    assert_eq!(held["transactions"], value("[]"));
    let none = row(
        "<ownershipDocument><noSecuritiesOwned>1</noSecuritiesOwned></ownershipDocument>",
    );
    assert!(none["error"].is_null());
    assert_eq!(
        none["holdings"],
        value(
            r#"[{"security": "No securities are beneficially owned", "derivative": false,
                 "shares_owned": "0", "underlying_security": null, "underlying_shares": null,
                 "ownership": null, "footnotes": []}]"#
        )
    );
    let silent = row("<ownershipDocument/>");
    assert_eq!(
        silent["error"],
        Value::from("the form reports neither holdings nor that there are none")
    );
    assert_eq!(row("<html/>")["error"], Value::from("the document is no ownership form"));
}

#[test]
fn insider_filings_are_five_or_at_most_twenty() {
    let forms: Vec<&str> = (0..30).map(|_| "4").collect();
    let document = format!(r#"{{"filings": {{"recent": {}}}}}"#, block(&forms, 0));
    let count = |args: &str| {
        let (reply, _) =
            run("sec_insider_transactions", args, &[(SUBMISSIONS, document.as_str())]);
        let reply = reply.unwrap();
        let rows = reply["filings"].as_array().unwrap();
        assert!(rows.iter().all(|row| row["error"].as_str().is_some()));
        rows.len()
    };
    assert_eq!(count(r#"{"ticker": "AAPL"}"#), 5);
    assert_eq!(count(r#"{"ticker": "AAPL", "limit": 7}"#), 7);
    assert_eq!(count(r#"{"ticker": "AAPL", "limit": 21}"#), 20);
    assert_eq!(count(r#"{"ticker": "AAPL", "limit": 0}"#), 0);
    assert_eq!(count(r#"{"ticker": "AAPL", "form_type": "5"}"#), 0);
}
