use sec_mcp::config::{not_configured_text, Config, ConfigFile, State};
use sec_mcp::json::Json;
use sec_mcp::responses::{
    check_status, client_failed, parse_failed, read_failed, refusal_with_status, request_failed,
};
use sec_mcp::server::{
    list_tools, listed_tools, tool_result, user_agent, ToolEntry, CONFIGURE_DESC_UNCONFIGURED, SERVER_VERSION,
    TOOL_LIST_TTL_MS,
};
use sec_mcp::tickers::{cik_num, pad_cik, TickerCache, TickerMap};

const HOUR: u64 = 3_600_000_000_000;

fn configured(email: &str) -> Config {
    Config { contact_email: Some(email.to_string()) }
}

#[test]
fn a_missing_file_gives_the_default() {
    assert_eq!(Config::load(ConfigFile::Missing).contact_email, None);
    assert_eq!(Config::try_load(ConfigFile::Missing).unwrap().contact_email, None);
    assert_eq!(Config::default().contact_email, None);
}

#[test]
fn a_parsed_file_gives_its_address() {
    let found = Config::load(ConfigFile::Parsed(configured("a@example.com")));
    assert_eq!(found.contact_email.as_deref(), Some("a@example.com"));
}

#[test]
fn a_useless_file_is_an_error_and_then_the_default() {
    let error = |file: ConfigFile| Config::try_load(file).err().unwrap();
    assert_eq!(error(ConfigFile::NoDirectory), "cannot determine config directory");
    assert_eq!(error(ConfigFile::Unreadable("denied".to_string())), "denied");
    assert_eq!(error(ConfigFile::Malformed("line 1".to_string())), "line 1");
    assert_eq!(Config::load(ConfigFile::NoDirectory).contact_email, None);
    assert_eq!(Config::load(ConfigFile::Unreadable("denied".to_string())).contact_email, None);
    assert_eq!(Config::load(ConfigFile::Malformed("line 1".to_string())).contact_email, None);
}

#[test]
fn a_state_without_an_address_has_no_client() {
    let state: State<u8> = State::new(Config::default(), Some(7));
    assert!(!state.is_configured());
    assert_eq!(
        state.client(),
        Err("SEC EDGAR contact email not configured. Please call the sec_configure tool first."
            .to_string())
    );
    assert!(not_configured_text().contains("not configured"));
}

#[test]
fn a_state_may_have_an_address_and_no_client() {
    let state: State<u8> = State::new(configured("a@example.com"), None);
    assert!(state.is_configured());
    assert_eq!(state.client(), Err(not_configured_text()));
}

#[test]
fn a_new_address_brings_a_client() {
    let mut state: State<u8> = State::new(Config::default(), None);
    assert_eq!(state.set_email("a@example.com".to_string(), Ok(7)), Ok(()));
    assert!(state.is_configured());
    assert_eq!(state.client(), Ok(&7));
    assert_eq!(state.config().contact_email.as_deref(), Some("a@example.com"));
    let refused = state.set_email("b@example.com".to_string(), Err("no TLS".to_string()));
    assert_eq!(refused, Err("no TLS".to_string()));
    assert_eq!(state.config().contact_email.as_deref(), Some("a@example.com"));
    assert_eq!(state.client(), Ok(&7));
}

#[test]
fn requests_carry_the_address() {
    assert_eq!(SERVER_VERSION, "0.5.0");
    assert_eq!(user_agent("a@example.com"), "sec-mcp/0.5.0 (contact: a@example.com)");
}

#[test]
fn success_is_no_refusal() {
    for code in [200u16, 204, 299] {
        assert_eq!(check_status(code, "u", "body"), None);
        assert_eq!(refusal_with_status(code, "any", "u", "body"), None);
    }
}

#[test]
fn refusals_name_their_reason() {
    assert_eq!(
        check_status(404, "https://x/y", "body").unwrap(),
        "SEC EDGAR returned 404 (not found) for https://x/y"
    );
    assert_eq!(
        check_status(429, "https://x/y", "body").unwrap(),
        "SEC EDGAR rate limit exceeded (429). The fair-access limit is 10 req/sec; retry shortly."
    );
    assert_eq!(
        check_status(403, "https://x/y", "denied").unwrap(),
        "SEC EDGAR returned 403 Forbidden for https://x/y: denied"
    );
    assert_eq!(
        check_status(500, "u", "").unwrap(),
        "SEC EDGAR returned 500 Internal Server Error for u: "
    );
    assert_eq!(
        check_status(799, "u", "b").unwrap(),
        "SEC EDGAR returned 799 <unknown status code> for u: b"
    );
    assert_eq!(
        refusal_with_status(302, "302 Found", "u", "b").unwrap(),
        "SEC EDGAR returned 302 Found for u: b"
    );
}

#[test]
fn long_refusals_are_cut_by_characters() {
    let body = "\u{e9}".repeat(201);
    let expected = format!("SEC EDGAR returned 503 Service Unavailable for u: {}", "\u{e9}".repeat(200));
    assert_eq!(check_status(503, "u", &body).unwrap(), expected);
}

#[test]
fn failures_name_their_cause() {
    assert_eq!(request_failed("u", "timeout"), "HTTP request failed: u: timeout");
    assert_eq!(parse_failed("u", "EOF"), "failed to parse JSON response from u: EOF");
    assert_eq!(read_failed("u", "reset"), "failed to read response from u: reset");
    assert_eq!(client_failed("no TLS"), "failed to build HTTP client: no TLS");
}

#[test]
fn failures_are_results_marked_as_errors() {
    let good = tool_result(Ok("{}".to_string()));
    assert!(!good.is_error);
    assert_eq!(good.text, "{}");
    let bad = tool_result(Err("ticker required".to_string()));
    assert!(bad.is_error);
    assert_eq!(bad.text, "Error: ticker required");
}

fn tools() -> Vec<ToolEntry> {
    ["sec_company_facts", "sec_configure", "sec_lookup_cik", "sec_configure"]
        .iter()
        .map(|name| ToolEntry {
            name: name.to_string(),
            description: Some("Update the contact email".to_string()),
        })
        .collect()
}

#[test]
fn the_first_run_asks_for_an_address() {
    let listed = list_tools(tools(), false);
    let names: Vec<&str> = listed.iter().map(|t| t.name.as_str()).collect();
    assert_eq!(names, vec!["sec_company_facts", "sec_configure", "sec_lookup_cik", "sec_configure"]);
    assert_eq!(listed[1].description.as_deref(), Some(CONFIGURE_DESC_UNCONFIGURED));
    assert!(CONFIGURE_DESC_UNCONFIGURED.starts_with("REQUIRED SETUP"));
    for i in [0usize, 2, 3] {
        assert_eq!(listed[i].description.as_deref(), Some("Update the contact email"));
    }
}

#[test]
fn later_runs_list_the_tools_as_they_are() {
    let listed = list_tools(tools(), true);
    assert_eq!(listed.len(), 4);
    assert!(listed.iter().all(|t| t.description.as_deref() == Some("Update the contact email")));
    assert_eq!(TOOL_LIST_TTL_MS, 5 * 60 * 1000);
}

fn entry(ticker: Json, cik: Json) -> Json {
    Json::Object(vec![("ticker".to_string(), ticker), ("cik_str".to_string(), cik)])
}

fn number(n: u64) -> Json {
    Json::Number(sec_mcp::json::Number::PosInt(n))
}

fn ticker_file() -> Json {
    Json::Object(vec![
        ("0".to_string(), entry(Json::Str("aapl".to_string()), number(320193))),
        ("1".to_string(), entry(Json::Str("MSFT".to_string()), Json::Null)),
        ("2".to_string(), entry(Json::Null, number(5))),
        ("3".to_string(), entry(Json::Str("stra\u{df}e".to_string()), number(7))),
    ])
}

#[test]
fn tickers_are_resolved_in_any_case() {
    let map = TickerMap::from_file(&ticker_file()).ok().unwrap();
    for ticker in ["AAPL", "aapl", "Aapl"] {
        assert_eq!(map.cik_for_ticker(ticker), Ok("0000320193".to_string()));
    }
    assert_eq!(map.cik_for_ticker("STRASSE"), Ok("0000000007".to_string()));
    assert_eq!(
        map.cik_for_ticker("msft"),
        Err("ticker 'msft' not found in EDGAR".to_string())
    );
    assert_eq!(map.cik_of("Aapl", "AAPL"), Ok("0000320193".to_string()));
    assert_eq!(map.cik_of("Aapl", "aapl"), Err("ticker 'Aapl' not found in EDGAR".to_string()));
}

#[test]
fn a_ticker_file_is_an_object() {
    let error = TickerMap::from_file(&Json::Array(Vec::new())).err().unwrap();
    assert_eq!(error, "ticker file was not a JSON object");
    let mut map = TickerMap::new();
    assert!(map.cik_for_ticker("AAPL").is_err());
    map.add("AAPL".to_string(), 1);
    map.add("AAPL".to_string(), 2);
    assert_eq!(map.cik_for_ticker("AAPL"), Ok("0000000002".to_string()));
}

#[test]
fn ciks_are_padded_to_ten_digits() {
    assert_eq!(pad_cik(320193), "0000320193");
    assert_eq!(pad_cik(0), "0000000000");
    assert_eq!(pad_cik(12345678901), "12345678901");
    assert_eq!(cik_num("0000320193"), "320193");
    assert_eq!(cik_num(&pad_cik(12345678901)), "12345678901");
    assert_eq!(cik_num("0000000000"), "");
}

#[test]
fn tickers_are_cached_for_an_hour() {
    let mut cache = TickerCache::new();
    assert!(cache.fresh(5).is_none());
    cache.store(5, TickerMap::from_file(&ticker_file()).ok().unwrap());
    for now in [5, 6, HOUR + 4, 0] {
        assert!(cache.fresh(now).is_some());
    }
    assert_eq!(cache.fresh(6).unwrap().cik_for_ticker("AAPL"), Ok("0000320193".to_string()));
    assert!(cache.fresh(HOUR + 5).is_none());
    cache.store(HOUR + 5, TickerMap::new());
    assert!(cache.fresh(2 * HOUR).unwrap().cik_for_ticker("AAPL").is_err());
}

#[test]
fn different_ciks_stay_different() {
    let ciks = [0u64, 1, 10, 100, 1000000000, 9999999999, 10000000000, u64::MAX];
    for a in ciks {
        for b in ciks {
            assert_eq!(pad_cik(a) == pad_cik(b), a == b);
        }
    }
}

#[test]
fn only_a_built_client_leads_to_a_write() {
    let mut state: State<u8> = State::new(Config::default(), None);
    let refused = state.to_write("a@example.com".to_string(), Err("no TLS".to_string()));
    assert_eq!(refused.err(), Some("no TLS".to_string()));
    assert!(!state.is_configured());
    let written = state.to_write("a@example.com".to_string(), Ok(7)).ok().cloned();
    assert_eq!(written.unwrap().contact_email.as_deref(), Some("a@example.com"));
    assert_eq!(state.client(), Ok(&7));
}

#[test]
fn setup_changes_one_description() {
    let (before, after) = (listed_tools(false), listed_tools(true));
    let names: Vec<&str> = before.iter().map(|t| t.name.as_str()).collect();
    assert_eq!(
        names,
        vec![
            "sec_company_facts",
            "sec_company_info",
            "sec_configure",
            "sec_financial_concept",
            "sec_insider_transactions",
            "sec_list_tickers",
            "sec_lookup_cik",
            "sec_recent_filings",
            "sec_xbrl_frames",
        ]
    );
    for (old, new) in before.iter().zip(after.iter()) {
        assert_eq!(old.name, new.name);
        let (old_text, new_text) =
            (old.description.clone().unwrap(), new.description.clone().unwrap());
        if old.name == "sec_configure" {
            assert!(old_text.starts_with("REQUIRED SETUP"));
            assert!(new_text.starts_with("Update the contact email"));
        } else {
            assert_eq!(old_text, new_text);
        }
    }
}
