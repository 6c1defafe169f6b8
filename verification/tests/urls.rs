use sec_mcp::urls::{
    archive_url, browse_url, company_concept_url, company_facts_url, submissions_file_url,
    submissions_url, xbrl_frames_url, EXCHANGE_TICKERS_URL, TICKERS_URL,
};

#[test]
fn fixed_addresses() {
    assert_eq!(TICKERS_URL, "https://www.sec.gov/files/company_tickers.json");
    assert_eq!(EXCHANGE_TICKERS_URL, "https://www.sec.gov/files/company_tickers_exchange.json");
}

#[test]
fn addresses_of_a_company() {
    assert_eq!(
        submissions_url("0000320193"),
        "https://data.sec.gov/submissions/CIK0000320193.json"
    );
    assert_eq!(
        submissions_file_url("CIK0000320193-submissions-001.json"),
        "https://data.sec.gov/submissions/CIK0000320193-submissions-001.json"
    );
    assert_eq!(
        company_facts_url("0000320193"),
        "https://data.sec.gov/api/xbrl/companyfacts/CIK0000320193.json"
    );
    assert_eq!(browse_url("0000320193"), "https://www.sec.gov/edgar/browse/?CIK=0000320193");
}

#[test]
fn concept_addresses_are_encoded() {
    assert_eq!(
        company_concept_url("0000320193", "us-gaap", "NetIncomeLoss"),
        "https://data.sec.gov/api/xbrl/companyconcept/CIK0000320193/us-gaap/NetIncomeLoss.json"
    );
    assert_eq!(
        company_concept_url("1", "../x", "a b?c#d"),
        "https://data.sec.gov/api/xbrl/companyconcept/CIK1/..%2Fx/a%20b%3Fc%23d.json"
    );
    assert_eq!(
        company_concept_url("1", "\u{e9}", "~_-.%"),
        "https://data.sec.gov/api/xbrl/companyconcept/CIK1/%C3%A9/~_-.%25.json"
    );
}

#[test]
fn encoded_segments_hold_no_syntax() {
    let mut n: u32 = 0;
    while n <= 0x10ffff {
        if let Some(c) = char::from_u32(n) {
            let url = company_concept_url("", "", &c.to_string());
            let segment = url
                .strip_prefix("https://data.sec.gov/api/xbrl/companyconcept/CIK//")
                .and_then(|rest| rest.strip_suffix(".json"))
                .unwrap();
            assert!(
                segment.chars().all(|x| x.is_ascii_alphanumeric() || "-._~%".contains(x)),
                "U+{n:04X}: {segment}"
            );
            let plain = c.is_ascii_alphanumeric() || "-._~".contains(c);
            assert_eq!(segment == c.to_string(), plain, "U+{n:04X}");
        }
        n += 97;
    }
}

#[test]
fn every_ascii_character_is_encoded_as_documented() {
    let mut byte: u8 = 0;
    while byte < 128 {
        let c = byte as char;
        let expected = if c.is_ascii_alphanumeric() || "-._~".contains(c) {
            c.to_string()
        } else {
            format!("%{byte:02X}")
        };
        assert_eq!(
            company_concept_url("", "", &c.to_string()),
            format!("https://data.sec.gov/api/xbrl/companyconcept/CIK//{expected}.json")
        );
        byte += 1;
    }
}

#[test]
fn compound_units_use_per() {
    assert_eq!(
        xbrl_frames_url("us-gaap", "EarningsPerShareBasic", "USD/shares", "2019"),
        "https://data.sec.gov/api/xbrl/frames/us-gaap/EarningsPerShareBasic/USD-per-shares/CY2019.json"
    );
}

#[test]
fn frames_addresses() {
    assert_eq!(
        xbrl_frames_url("us-gaap", "Assets", "USD", "2019Q1I"),
        "https://data.sec.gov/api/xbrl/frames/us-gaap/Assets/USD/CY2019Q1I.json"
    );
    assert_eq!(
        xbrl_frames_url("a/b", "c?", "d e", "2024/../1"),
        "https://data.sec.gov/api/xbrl/frames/a%2Fb/c%3F/d%20e/CY2024%2F..%2F1.json"
    );
}

#[test]
fn archive_addresses_drop_the_dashes() {
    assert_eq!(
        archive_url("320193", "0000320193-24-000123", "aapl-20240928.htm"),
        "https://www.sec.gov/Archives/edgar/data/320193/000032019324000123/aapl-20240928.htm"
    );
    assert_eq!(archive_url("1", "", ""), "https://www.sec.gov/Archives/edgar/data/1//");
}

#[test]
fn different_concepts_have_different_addresses() {
    let texts = ["a", "A", "a ", "a%20", "a/b", "a%2Fb", "", "\u{e9}", "%C3%A9", "e\u{301}"];
    for a in texts {
        for b in texts {
            let same = company_concept_url("1", "us-gaap", a) == company_concept_url("1", "us-gaap", b);
            assert_eq!(same, a == b, "{a:?} {b:?}");
        }
    }
}
