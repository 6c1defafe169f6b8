//! One call of a tool, from its arguments to its reply.
//!
//! A call goes in steps. Each step either ends it, or names what has to be done
//! outside before it can go on: saving the contact address, resolving a ticker,
//! fetching a document.

use vstd::prelude::*;
use crate::company::{
    company_facts_outcome, company_facts_reply, company_info_outcome, company_info_reply,
    lookup_cik_outcome, lookup_cik_reply,
};
use crate::concept::{financial_concept_outcome, financial_concept_reply, str_field_or};
use crate::config::{not_configured, not_configured_text};
use crate::filings::{collect_filings, filing_rows};
use crate::frames::{period_code, period_code_of, xbrl_frames_outcome, xbrl_frames_reply};
use crate::insiders::{
    OwnershipFiling, OwnershipFilingView, document_nodes, document_row, filings_view,
    nodes_of_document, ownership_filings, read_nodes, select_ownership_filings,
};
use crate::json::{
    Json, JsonView, Number, items_view, lookup_finds, outcome_view, put, string_view, text_or,
    text_view,
};
use crate::lists::{at_most, filter_map_grows};
use crate::server::{identity, tool_names, user_agent};
use crate::text::{
    is_white_space, lower_case, lowercase, owned, same, texts, trim, trimmed, trimmed_is_stable,
    trimming_leaves_the_core, upper_case, uppercase,
};
use crate::tickers::{
    TickerCache, TickerMap, cik_in, cik_num, cik_number, fresh_tickers, list_tickers_outcome,
    list_tickers_reply, tickers_of,
};
use crate::urls::{
    EXCHANGE_TICKERS_URL, TICKERS_URL, company_concept_address, company_concept_url, company_facts_address,
    company_facts_url, submissions_address, submissions_file_address, submissions_file_url,
    submissions_url, xbrl_frames_address, xbrl_frames_url,
};
use crate::xml::{XmlNode, XmlNodeView, parse_view};

verus! {

/// How many filings a reply holds where the caller does not say.
pub const DEFAULT_FILINGS: u64 = 10;

/// How many filings a reply holds at most.
pub const MAX_FILINGS: u64 = 40;

/// How many ownership forms a reply holds where the caller does not say.
pub const DEFAULT_INSIDER_FILINGS: u64 = 5;

/// How many ownership forms a reply holds at most.
pub const MAX_INSIDER_FILINGS: u64 = 20;

/// How many entries of a frame a reply holds where the caller does not say.
pub const DEFAULT_ENTRIES: u64 = 20;

/// A call that waits for its ticker to be resolved.
pub enum Lookup {
    Cik { ticker: String },
    Filings { ticker: String, form: Option<String>, limit: usize },
    Concept { ticker: String, concept: String, taxonomy: String, period: Option<String> },
    Info { ticker: String },
    Facts { ticker: String, filter: Option<String> },
    Insiders { ticker: String, form: Option<String>, limit: usize },
}

/// What a [`Lookup`] holds.
#[verifier::ext_equal]
pub enum LookupView {
    Cik { ticker: Seq<char> },
    Filings { ticker: Seq<char>, form: Option<Seq<char>>, limit: usize },
    Concept {
        ticker: Seq<char>,
        concept: Seq<char>,
        taxonomy: Seq<char>,
        period: Option<Seq<char>>,
    },
    Info { ticker: Seq<char> },
    Facts { ticker: Seq<char>, filter: Option<Seq<char>> },
    Insiders { ticker: Seq<char>, form: Option<Seq<char>>, limit: usize },
}

impl View for Lookup {
    type V = LookupView;

    open spec fn view(&self) -> LookupView {
        match self {
            Lookup::Cik { ticker } => LookupView::Cik { ticker: ticker@ },
            Lookup::Filings { ticker, form, limit } => LookupView::Filings {
                ticker: ticker@,
                form: string_view(*form),
                limit: *limit,
            },
            Lookup::Concept { ticker, concept, taxonomy, period } => LookupView::Concept {
                ticker: ticker@,
                concept: concept@,
                taxonomy: taxonomy@,
                period: string_view(*period),
            },
            Lookup::Info { ticker } => LookupView::Info { ticker: ticker@ },
            Lookup::Facts { ticker, filter } => LookupView::Facts {
                ticker: ticker@,
                filter: string_view(*filter),
            },
            Lookup::Insiders { ticker, form, limit } => LookupView::Insiders {
                ticker: ticker@,
                form: string_view(*form),
                limit: *limit,
            },
        }
    }
}

impl LookupView {
    /// The ticker to resolve.
    pub open spec fn ticker(self) -> Seq<char> {
        match self {
            LookupView::Cik { ticker } => ticker,
            LookupView::Filings { ticker, .. } => ticker,
            LookupView::Concept { ticker, .. } => ticker,
            LookupView::Info { ticker } => ticker,
            LookupView::Facts { ticker, .. } => ticker,
            LookupView::Insiders { ticker, .. } => ticker,
        }
    }
}

/// A call that waits for a document. A `symbol` is a ticker in upper case.
pub enum Query {
    Filings { symbol: String, cik: String, form: Option<String>, limit: usize },
    OlderFilings {
        symbol: String,
        cik: String,
        form: Option<String>,
        limit: usize,
        company: String,
        found: Vec<Json>,
        names: Vec<String>,
    },
    Concept {
        symbol: String,
        cik: String,
        concept: String,
        taxonomy: String,
        period: Option<String>,
    },
    Info { symbol: String, cik: String },
    Listing { query: Option<String> },
    Facts { symbol: String, cik: String, filter: Option<String> },
    Insiders { symbol: String, cik: String, form: Option<String>, limit: usize },
    Frames {
        concept: String,
        taxonomy: String,
        unit: String,
        period_code: String,
        instant: bool,
        top: u64,
    },
}

/// What a [`Query`] holds.
#[verifier::ext_equal]
pub enum QueryView {
    Filings { symbol: Seq<char>, cik: Seq<char>, form: Option<Seq<char>>, limit: usize },
    OlderFilings {
        symbol: Seq<char>,
        cik: Seq<char>,
        form: Option<Seq<char>>,
        limit: usize,
        company: Seq<char>,
        found: Seq<JsonView>,
        names: Seq<Seq<char>>,
    },
    Concept {
        symbol: Seq<char>,
        cik: Seq<char>,
        concept: Seq<char>,
        taxonomy: Seq<char>,
        period: Option<Seq<char>>,
    },
    Info { symbol: Seq<char>, cik: Seq<char> },
    Listing { query: Option<Seq<char>> },
    Facts { symbol: Seq<char>, cik: Seq<char>, filter: Option<Seq<char>> },
    Insiders { symbol: Seq<char>, cik: Seq<char>, form: Option<Seq<char>>, limit: usize },
    Frames {
        concept: Seq<char>,
        taxonomy: Seq<char>,
        unit: Seq<char>,
        period_code: Seq<char>,
        instant: bool,
        top: u64,
    },
}

impl View for Query {
    type V = QueryView;

    open spec fn view(&self) -> QueryView {
        match self {
            Query::Filings { symbol, cik, form, limit } => QueryView::Filings {
                symbol: symbol@,
                cik: cik@,
                form: string_view(*form),
                limit: *limit,
            },
            Query::OlderFilings { symbol, cik, form, limit, company, found, names } =>
            QueryView::OlderFilings {
                symbol: symbol@,
                cik: cik@,
                form: string_view(*form),
                limit: *limit,
                company: company@,
                found: items_view(found@),
                names: texts(names@),
            },
            Query::Concept { symbol, cik, concept, taxonomy, period } => QueryView::Concept {
                symbol: symbol@,
                cik: cik@,
                concept: concept@,
                taxonomy: taxonomy@,
                period: string_view(*period),
            },
            Query::Info { symbol, cik } => QueryView::Info { symbol: symbol@, cik: cik@ },
            Query::Listing { query } => QueryView::Listing { query: string_view(*query) },
            Query::Facts { symbol, cik, filter } => QueryView::Facts {
                symbol: symbol@,
                cik: cik@,
                filter: string_view(*filter),
            },
            Query::Insiders { symbol, cik, form, limit } => QueryView::Insiders {
                symbol: symbol@,
                cik: cik@,
                form: string_view(*form),
                limit: *limit,
            },
            Query::Frames { concept, taxonomy, unit, period_code, instant, top } =>
            QueryView::Frames {
                concept: concept@,
                taxonomy: taxonomy@,
                unit: unit@,
                period_code: period_code@,
                instant: *instant,
                top: *top,
            },
        }
    }
}

/// A call that reads ownership forms one by one: the rows that it has, the form
/// that it waits for and those that follow.
pub struct Reading {
    pub symbol: String,
    pub cik: String,
    pub company: String,
    pub rows: Vec<Json>,
    pub filing: OwnershipFiling,
    pub rest: Vec<OwnershipFiling>,
}

/// What a [`Reading`] holds.
#[verifier::ext_equal]
pub struct ReadingView {
    pub symbol: Seq<char>,
    pub cik: Seq<char>,
    pub company: Seq<char>,
    pub rows: Seq<JsonView>,
    pub filing: OwnershipFilingView,
    pub rest: Seq<OwnershipFilingView>,
}

impl View for Reading {
    type V = ReadingView;

    open spec fn view(&self) -> ReadingView {
        ReadingView {
            symbol: self.symbol@,
            cik: self.cik@,
            company: self.company@,
            rows: items_view(self.rows@),
            filing: self.filing@,
            rest: filings_view(self.rest@),
        }
    }
}

/// How far a call has come.
pub enum Step {
    /// It ends with this reply.
    Reply(Json),
    /// It ends with this error.
    Fail(String),
    /// The contact address has to be saved; then [`saved`] goes on.
    Save(String),
    /// A ticker has to be resolved; [`look_up`] goes on with the cache.
    Resolve(Lookup),
    /// The ticker file at this address has to be fetched; then
    /// [`tickers_fetched`] goes on.
    Tickers(String, Lookup),
    /// The document at this address has to be fetched; then [`fetched`] goes on.
    Fetch(String, Query),
    /// The text at this address has to be fetched; then [`read_document`] goes
    /// on.
    Read(String, Reading),
}

/// What a [`Step`] holds.
#[verifier::ext_equal]
pub enum StepView {
    Reply(JsonView),
    Fail(Seq<char>),
    Save(Seq<char>),
    Resolve(LookupView),
    Tickers(Seq<char>, LookupView),
    Fetch(Seq<char>, QueryView),
    Read(Seq<char>, ReadingView),
}

impl View for Step {
    type V = StepView;

    open spec fn view(&self) -> StepView {
        match self {
            Step::Reply(reply) => StepView::Reply(reply@),
            Step::Fail(why) => StepView::Fail(why@),
            Step::Save(email) => StepView::Save(email@),
            Step::Resolve(lookup) => StepView::Resolve(lookup@),
            Step::Tickers(url, lookup) => StepView::Tickers(url@, lookup@),
            Step::Fetch(url, query) => StepView::Fetch(url@, query@),
            Step::Read(url, reading) => StepView::Read(url@, reading@),
        }
    }
}

/// The first step of `sec_configure`: the address, trimmed, unless there is
/// none.
pub open spec fn start_configure(args: JsonView) -> StepView {
    match args.field("contact_email"@).as_str() {
        Some(email) => if trimmed(email).len() == 0 {
            StepView::Fail("contact_email cannot be empty"@)
        } else {
            StepView::Save(trimmed(email))
        },
        None => StepView::Fail("contact_email required"@),
    }
}

/// How many filings are asked for.
pub open spec fn filings_limit(args: JsonView) -> usize {
    let asked = match args.field("limit"@).as_u64() {
        Some(n) => n,
        None => DEFAULT_FILINGS,
    };
    (if asked < MAX_FILINGS {
        asked
    } else {
        MAX_FILINGS
    }) as usize
}

/// How many ownership forms are asked for.
pub open spec fn insiders_limit(args: JsonView) -> usize {
    let asked = match args.field("limit"@).as_u64() {
        Some(n) => n,
        None => DEFAULT_INSIDER_FILINGS,
    };
    (if asked < MAX_INSIDER_FILINGS {
        asked
    } else {
        MAX_INSIDER_FILINGS
    }) as usize
}

/// The first step of a tool that takes a ticker and optional texts.
pub open spec fn start_lookup(name: Seq<char>, args: JsonView) -> StepView {
    match args.field("ticker"@).as_str() {
        Some(ticker) => if name == "sec_lookup_cik"@ {
            StepView::Resolve(LookupView::Cik { ticker })
        } else if name == "sec_recent_filings"@ {
            StepView::Resolve(
                LookupView::Filings {
                    ticker,
                    form: args.field("form_type"@).as_str(),
                    limit: filings_limit(args),
                },
            )
        } else if name == "sec_financial_concept"@ {
            match args.field("concept"@).as_str() {
                Some(concept) => StepView::Resolve(
                    LookupView::Concept {
                        ticker,
                        concept,
                        taxonomy: text_or(args.field("taxonomy"@).as_str(), "us-gaap"@),
                        period: args.field("period"@).as_str(),
                    },
                ),
                None => StepView::Fail("concept required"@),
            }
        } else if name == "sec_company_info"@ {
            StepView::Resolve(LookupView::Info { ticker })
        } else if name == "sec_insider_transactions"@ {
            StepView::Resolve(
                LookupView::Insiders {
                    ticker,
                    form: args.field("form_type"@).as_str(),
                    limit: insiders_limit(args),
                },
            )
        } else {
            StepView::Resolve(
                LookupView::Facts { ticker, filter: args.field("taxonomy"@).as_str() },
            )
        },
        None => StepView::Fail("ticker required"@),
    }
}

/// The first step of `sec_list_tickers`. What is looked for is put in lower
/// case.
pub open spec fn start_listing(args: JsonView) -> StepView {
    StepView::Fetch(
        EXCHANGE_TICKERS_URL@,
        QueryView::Listing {
            query: match args.field("query"@).as_str() {
                Some(query) => Some(lower_case(query)),
                None => None,
            },
        },
    )
}

/// The first step of `sec_xbrl_frames`.
pub open spec fn start_frames(args: JsonView) -> StepView {
    let instant = args.field("instant"@).as_bool() == Some(true);
    let taxonomy = text_or(args.field("taxonomy"@).as_str(), "us-gaap"@);
    let unit = text_or(args.field("unit"@).as_str(), "USD"@);
    let top = match args.field("limit"@).as_u64() {
        Some(n) => n,
        None => DEFAULT_ENTRIES,
    };
    match args.field("concept"@).as_str() {
        Some(concept) => match args.field("period"@).as_str() {
            Some(period) => match period_code_of(period, instant) {
                Ok(period_code) => StepView::Fetch(
                    xbrl_frames_address(taxonomy, concept, unit, period_code),
                    QueryView::Frames { concept, taxonomy, unit, period_code, instant, top },
                ),
                Err(why) => StepView::Fail(why),
            },
            None => StepView::Fail("period required"@),
        },
        None => StepView::Fail("concept required"@),
    }
}

/// Whether a tool takes a ticker.
pub open spec fn takes_ticker(name: Seq<char>) -> bool {
    ||| name == "sec_lookup_cik"@
    ||| name == "sec_recent_filings"@
    ||| name == "sec_financial_concept"@
    ||| name == "sec_company_info"@
    ||| name == "sec_company_facts"@
    ||| name == "sec_insider_transactions"@
}

/// Whether a tool reads data from EDGAR.
pub open spec fn is_data_tool(name: Seq<char>) -> bool {
    ||| takes_ticker(name)
    ||| name == "sec_list_tickers"@
    ||| name == "sec_xbrl_frames"@
}

/// The first step of a call. Every tool but `sec_configure` needs a client.
pub open spec fn start(connected: bool, name: Seq<char>, args: JsonView) -> StepView {
    if name == "sec_configure"@ {
        start_configure(args)
    } else if !is_data_tool(name) {
        StepView::Fail("unknown tool: "@ + name)
    } else if !connected {
        StepView::Fail(not_configured())
    } else if takes_ticker(name) {
        start_lookup(name, args)
    } else if name == "sec_list_tickers"@ {
        start_listing(args)
    } else {
        start_frames(args)
    }
}

fn owned_option(text: Option<&str>) -> (r: Option<String>)
    ensures
        string_view(r) == text_view(text),
{
    match text {
        Some(s) => Some(owned(s)),
        None => None,
    }
}

fn begin_configure(args: &Json) -> (r: Step)
    ensures
        r@ == start_configure(args@),
{
    match args.str_field("contact_email") {
        Some(email) => {
            let email = trim(email);
            if email.as_str().is_empty() {
                Step::Fail(owned("contact_email cannot be empty"))
            } else {
                Step::Save(email)
            }
        },
        None => Step::Fail(owned("contact_email required")),
    }
}

fn begin_lookup(name: &str, args: &Json) -> (r: Step)
    ensures
        r@ == start_lookup(name@, args@),
{
    let ticker = match args.str_field("ticker") {
        Some(t) => owned(t),
        None => return Step::Fail(owned("ticker required")),
    };
    if same(name, "sec_lookup_cik") {
        Step::Resolve(Lookup::Cik { ticker })
    } else if same(name, "sec_recent_filings") {
        let asked: u64 = match args.u64_field("limit") {
            Some(n) => n,
            None => DEFAULT_FILINGS,
        };
        let limit: usize = if asked < MAX_FILINGS {
            asked as usize
        } else {
            MAX_FILINGS as usize
        };
        Step::Resolve(
            Lookup::Filings { ticker, form: owned_option(args.str_field("form_type")), limit },
        )
    } else if same(name, "sec_financial_concept") {
        match args.str_field("concept") {
            Some(concept) => Step::Resolve(
                Lookup::Concept {
                    ticker,
                    concept: owned(concept),
                    taxonomy: owned(str_field_or(args, "taxonomy", "us-gaap")),
                    period: owned_option(args.str_field("period")),
                },
            ),
            None => Step::Fail(owned("concept required")),
        }
    } else if same(name, "sec_company_info") {
        Step::Resolve(Lookup::Info { ticker })
    } else if same(name, "sec_insider_transactions") {
        let asked: u64 = match args.u64_field("limit") {
            Some(n) => n,
            None => DEFAULT_INSIDER_FILINGS,
        };
        let limit: usize = if asked < MAX_INSIDER_FILINGS {
            asked as usize
        } else {
            MAX_INSIDER_FILINGS as usize
        };
        Step::Resolve(
            Lookup::Insiders { ticker, form: owned_option(args.str_field("form_type")), limit },
        )
    } else {
        Step::Resolve(
            Lookup::Facts { ticker, filter: owned_option(args.str_field("taxonomy")) },
        )
    }
}

fn begin_listing(args: &Json) -> (r: Step)
    ensures
        r@ == start_listing(args@),
{
    let query = match args.str_field("query") {
        Some(q) => Some(lowercase(q)),
        None => None,
    };
    Step::Fetch(owned(EXCHANGE_TICKERS_URL), Query::Listing { query })
}

fn begin_frames(args: &Json) -> (r: Step)
    ensures
        r@ == start_frames(args@),
{
    let concept = match args.str_field("concept") {
        Some(c) => c,
        None => return Step::Fail(owned("concept required")),
    };
    let period = match args.str_field("period") {
        Some(p) => p,
        None => return Step::Fail(owned("period required")),
    };
    let instant: bool = match args.bool_field("instant") {
        Some(b) => b,
        None => false,
    };
    let taxonomy = str_field_or(args, "taxonomy", "us-gaap");
    let unit = str_field_or(args, "unit", "USD");
    let top: u64 = match args.u64_field("limit") {
        Some(n) => n,
        None => DEFAULT_ENTRIES,
    };
    match period_code(period, instant) {
        Ok(period_code) => Step::Fetch(
            xbrl_frames_url(taxonomy, concept, unit, period_code.as_str()),
            Query::Frames {
                concept: owned(concept),
                taxonomy: owned(taxonomy),
                unit: owned(unit),
                period_code,
                instant,
                top,
            },
        ),
        Err(why) => Step::Fail(why),
    }
}

/// Starts a call of the tool `name`. `connected` says whether there is a client
/// to reach EDGAR with.
pub fn handle_tool(connected: bool, name: &str, args: &Json) -> (r: Step)
    ensures
        r@ == start(connected, name@, args@),
{
    if same(name, "sec_configure") {
        return begin_configure(args);
    }
    let by_ticker: bool = same(name, "sec_lookup_cik") || same(name, "sec_recent_filings") || same(
        name,
        "sec_financial_concept",
    ) || same(name, "sec_company_info") || same(name, "sec_company_facts") || same(
        name,
        "sec_insider_transactions",
    );
    let listing: bool = same(name, "sec_list_tickers");
    if !by_ticker && !listing && !same(name, "sec_xbrl_frames") {
        return Step::Fail(owned("unknown tool: ").concat(name));
    }
    if !connected {
        return Step::Fail(not_configured_text());
    }
    if by_ticker {
        begin_lookup(name, args)
    } else if listing {
        begin_listing(args)
    } else {
        begin_frames(args)
    }
}

/// What `sec_configure` replies with once the address is saved.
pub open spec fn configure_outcome(email: Seq<char>, path: Option<Seq<char>>) -> JsonView {
    JsonView::Object(
        seq![
            ("status"@, JsonView::Str("configured"@)),
            ("contact_email"@, JsonView::Str(email)),
            ("config_path"@, JsonView::Str(text_or(path, "unknown"@))),
            (
                "message"@,
                JsonView::Str(
                    "SEC EDGAR contact email saved. All requests will now identify as: "@
                        + identity(email),
                ),
            ),
        ],
    )
}

/// Goes on once the address was to be saved. `path` is where the configuration
/// lies, where that is known.
pub fn saved(email: &str, path: Option<&str>, outcome: Result<(), String>) -> (r: Step)
    ensures
        r@ == match outcome {
            Ok(_) => StepView::Reply(configure_outcome(email@, text_view(path))),
            Err(why) => StepView::Fail("failed to save configuration: "@ + why@),
        },
{
    match outcome {
        Ok(_) => {
            let place = match path {
                Some(p) => p,
                None => "unknown",
            };
            let message = owned(
                "SEC EDGAR contact email saved. All requests will now identify as: ",
            ).concat(user_agent(email).as_str());
            let mut fields: Vec<(String, Json)> = Vec::new();
            put(&mut fields, "status", Json::string("configured"));
            put(&mut fields, "contact_email", Json::string(email));
            put(&mut fields, "config_path", Json::string(place));
            put(&mut fields, "message", Json::Str(message));
            let reply = Json::object(fields);
            assert(reply@->Object_0 =~= configure_outcome(email@, text_view(path))->Object_0);
            Step::Reply(reply)
        },
        Err(why) => Step::Fail(owned("failed to save configuration: ").concat(why.as_str())),
    }
}

/// The step that follows when a ticker has its CIK.
pub open spec fn with_cik(lookup: LookupView, symbol: Seq<char>, cik: Seq<char>) -> StepView {
    match lookup {
        LookupView::Cik { .. } => StepView::Reply(lookup_cik_outcome(symbol, cik)),
        LookupView::Filings { form, limit, .. } => StepView::Fetch(
            submissions_address(cik),
            QueryView::Filings { symbol, cik, form, limit },
        ),
        LookupView::Concept { concept, taxonomy, period, .. } => StepView::Fetch(
            company_concept_address(cik, taxonomy, concept),
            QueryView::Concept { symbol, cik, concept, taxonomy, period },
        ),
        LookupView::Info { .. } => StepView::Fetch(
            submissions_address(cik),
            QueryView::Info { symbol, cik },
        ),
        LookupView::Facts { filter, .. } => StepView::Fetch(
            company_facts_address(cik),
            QueryView::Facts { symbol, cik, filter },
        ),
        LookupView::Insiders { form, limit, .. } => StepView::Fetch(
            submissions_address(cik),
            QueryView::Insiders { symbol, cik, form, limit },
        ),
    }
}

/// The step that follows the attempt to get the tickers. `symbol` is the ticker
/// in upper case.
pub open spec fn after_tickers(
    lookup: LookupView,
    symbol: Seq<char>,
    tickers: Result<Map<Seq<char>, Seq<char>>, Seq<char>>,
) -> StepView {
    match tickers {
        Ok(map) => match cik_in(map, lookup.ticker(), symbol) {
            Ok(cik) => with_cik(lookup, symbol, cik),
            Err(why) => StepView::Fail(why),
        },
        Err(why) => StepView::Fail(why),
    }
}

/// What the attempt to get the tickers gave.
pub open spec fn tickers_view(
    tickers: Result<&TickerMap, String>,
) -> Result<Map<Seq<char>, Seq<char>>, Seq<char>> {
    match tickers {
        Ok(map) => Ok(map@),
        Err(why) => Err(why@),
    }
}

impl Lookup {
    /// The ticker to resolve.
    pub fn ticker(&self) -> (r: &str)
        ensures
            r@ == self@.ticker(),
    {
        match self {
            Lookup::Cik { ticker } => ticker.as_str(),
            Lookup::Filings { ticker, .. } => ticker.as_str(),
            Lookup::Concept { ticker, .. } => ticker.as_str(),
            Lookup::Info { ticker } => ticker.as_str(),
            Lookup::Facts { ticker, .. } => ticker.as_str(),
            Lookup::Insiders { ticker, .. } => ticker.as_str(),
        }
    }
}

/// Goes on once the tickers were to be had. `symbol` is the ticker in upper
/// case.
pub fn resolved_as(lookup: Lookup, symbol: String, tickers: Result<&TickerMap, String>) -> (r: Step)
    ensures
        r@ == after_tickers(lookup@, symbol@, tickers_view(tickers)),
{
    let map = match tickers {
        Ok(map) => map,
        Err(why) => return Step::Fail(why),
    };
    let cik = match map.cik_of(lookup.ticker(), symbol.as_str()) {
        Ok(cik) => cik,
        Err(why) => return Step::Fail(why),
    };
    match lookup {
        Lookup::Cik { .. } => Step::Reply(lookup_cik_reply(symbol.as_str(), cik.as_str())),
        Lookup::Filings { form, limit, .. } => Step::Fetch(
            submissions_url(cik.as_str()),
            Query::Filings { symbol, cik, form, limit },
        ),
        Lookup::Concept { concept, taxonomy, period, .. } => Step::Fetch(
            company_concept_url(cik.as_str(), taxonomy.as_str(), concept.as_str()),
            Query::Concept { symbol, cik, concept, taxonomy, period },
        ),
        Lookup::Info { .. } => Step::Fetch(
            submissions_url(cik.as_str()),
            Query::Info { symbol, cik },
        ),
        Lookup::Facts { filter, .. } => Step::Fetch(
            company_facts_url(cik.as_str()),
            Query::Facts { symbol, cik, filter },
        ),
        Lookup::Insiders { form, limit, .. } => Step::Fetch(
            submissions_url(cik.as_str()),
            Query::Insiders { symbol, cik, form, limit },
        ),
    }
}

/// Goes on once the tickers were to be had.
pub fn resolved(lookup: Lookup, tickers: Result<&TickerMap, String>) -> (r: Step)
    ensures
        r@ == after_tickers(lookup@, upper_case(lookup@.ticker()), tickers_view(tickers)),
{
    let symbol = uppercase(lookup.ticker());
    resolved_as(lookup, symbol, tickers)
}

/// The step that follows with the tickers of the cache: they resolve the ticker
/// while they are fresh; otherwise the ticker file has to be fetched.
pub open spec fn from_cache(
    lookup: LookupView,
    symbol: Seq<char>,
    held: Option<(u64, Map<Seq<char>, Seq<char>>)>,
    now: u64,
) -> StepView {
    match fresh_tickers(held, now) {
        Some(map) => after_tickers(lookup, symbol, Ok(map)),
        None => StepView::Tickers(TICKERS_URL@, lookup),
    }
}

/// Goes on with the tickers of the cache.
pub fn look_up(lookup: Lookup, cache: &TickerCache, now: u64) -> (r: Step)
    ensures
        r@ == from_cache(lookup@, upper_case(lookup@.ticker()), cache@, now),
{
    match cache.fresh(now) {
        Some(map) => resolved(lookup, Ok(map)),
        None => Step::Tickers(owned(TICKERS_URL), lookup),
    }
}

/// The tickers of a ticker file that was to be fetched, or why there are none.
pub open spec fn fetched_tickers(
    file: Result<JsonView, Seq<char>>,
) -> Result<Map<Seq<char>, Seq<char>>, Seq<char>> {
    match file {
        Ok(document) => tickers_of(document),
        Err(why) => Err(why),
    }
}

/// What the cache holds once the ticker file was to be fetched: its tickers, or
/// what it held before where there are none.
pub open spec fn refreshed(
    held: Option<(u64, Map<Seq<char>, Seq<char>>)>,
    now: u64,
    file: Result<JsonView, Seq<char>>,
) -> Option<(u64, Map<Seq<char>, Seq<char>>)> {
    match fetched_tickers(file) {
        Ok(map) => Some((now, map)),
        Err(_) => held,
    }
}

/// Goes on once the ticker file was to be fetched, and keeps its tickers. A
/// request that failed and a file that is no use leave the cache as it was.
pub fn tickers_fetched(
    lookup: Lookup,
    cache: &mut TickerCache,
    now: u64,
    file: Result<Json, String>,
) -> (r: Step)
    ensures
        r@ == after_tickers(
            lookup@,
            upper_case(lookup@.ticker()),
            fetched_tickers(document_view(file)),
        ),
        final(cache)@ == refreshed(old(cache)@, now, document_view(file)),
        fetched_tickers(document_view(file)) is Err ==> *final(cache) == *old(cache),
{
    let tickers = match file {
        Ok(document) => TickerMap::from_file(&document),
        Err(why) => Err(why),
    };
    match tickers {
        Ok(map) => {
            let step = resolved(lookup, Ok(&map));
            cache.store(now, map);
            step
        },
        Err(why) => resolved(lookup, Err(why)),
    }
}

/// What a request for filings replies with.
pub open spec fn recent_filings_outcome(
    symbol: Seq<char>,
    cik: Seq<char>,
    company: Seq<char>,
    filings: Seq<JsonView>,
) -> JsonView {
    JsonView::Object(
        seq![
            ("company"@, JsonView::Str(company)),
            ("ticker"@, JsonView::Str(symbol)),
            ("cik"@, JsonView::Str(cik)),
            ("filings"@, JsonView::Array(filings)),
        ],
    )
}

/// The names of the files of older filings, newest first.
pub open spec fn older_files(data: JsonView) -> Seq<Seq<char>> {
    match data.field("filings"@).field("files"@).as_array() {
        Some(files) => files.filter_map(|file: JsonView| file.field("name"@).as_str()),
        None => Seq::empty(),
    }
}

/// The step that follows when filings were found: the reply where there are
/// enough or no file of older ones is left, otherwise the next such file.
pub open spec fn more_filings(
    symbol: Seq<char>,
    cik: Seq<char>,
    form: Option<Seq<char>>,
    limit: usize,
    company: Seq<char>,
    found: Seq<JsonView>,
    names: Seq<Seq<char>>,
) -> StepView {
    if found.len() >= limit || names.len() == 0 {
        StepView::Reply(recent_filings_outcome(symbol, cik, company, found))
    } else {
        StepView::Fetch(
            submissions_file_address(names[0]),
            QueryView::OlderFilings {
                symbol,
                cik,
                form,
                limit,
                company,
                found,
                names: names.drop_first(),
            },
        )
    }
}

/// The step that follows when rows of ownership forms are there: the reply where
/// no form is left to be read, otherwise the document of the next.
pub open spec fn more_readings(
    symbol: Seq<char>,
    cik: Seq<char>,
    company: Seq<char>,
    rows: Seq<JsonView>,
    filings: Seq<OwnershipFilingView>,
) -> StepView {
    if filings.len() == 0 {
        StepView::Reply(recent_filings_outcome(symbol, cik, company, rows))
    } else {
        StepView::Read(
            filings[0].url,
            ReadingView {
                symbol,
                cik,
                company,
                rows,
                filing: filings[0],
                rest: filings.drop_first(),
            },
        )
    }
}

/// The step that follows when a document has come.
pub open spec fn with_document(query: QueryView, data: JsonView) -> StepView {
    match query {
        QueryView::Filings { symbol, cik, form, limit } => more_filings(
            symbol,
            cik,
            form,
            limit,
            text_or(data.field("name"@).as_str(), "Unknown"@),
            at_most(
                filing_rows(data.field("filings"@).field("recent"@), cik_number(cik), form),
                limit as int,
            ),
            older_files(data),
        ),
        QueryView::OlderFilings { symbol, cik, form, limit, company, found, names } => more_filings(
            symbol,
            cik,
            form,
            limit,
            company,
            found + at_most(filing_rows(data, cik_number(cik), form), limit - found.len()),
            names,
        ),
        QueryView::Concept { symbol, cik, concept, taxonomy, period } => StepView::Reply(
            financial_concept_outcome(symbol, cik, concept, taxonomy, period, data),
        ),
        QueryView::Info { symbol, cik } => StepView::Reply(
            company_info_outcome(symbol, cik, data),
        ),
        QueryView::Listing { query } => StepView::Reply(list_tickers_outcome(query, data)),
        QueryView::Facts { symbol, cik, filter } => StepView::Reply(
            company_facts_outcome(symbol, cik, filter, data),
        ),
        QueryView::Insiders { symbol, cik, form, limit } => more_readings(
            symbol,
            cik,
            text_or(data.field("name"@).as_str(), "Unknown"@),
            Seq::empty(),
            at_most(
                ownership_filings(data.field("filings"@).field("recent"@), cik_number(cik), form),
                limit as int,
            ),
        ),
        QueryView::Frames { concept, taxonomy, unit, period_code, instant, top } =>
        StepView::Reply(
            xbrl_frames_outcome(concept, taxonomy, unit, period_code, instant, top, data),
        ),
    }
}

/// The step that follows the attempt to fetch a document.
pub open spec fn after_fetch(query: QueryView, document: Result<JsonView, Seq<char>>) -> StepView {
    match document {
        Ok(data) => with_document(query, data),
        Err(why) => StepView::Fail(why),
    }
}

/// What the attempt to fetch a document gave.
pub open spec fn document_view(document: Result<Json, String>) -> Result<JsonView, Seq<char>> {
    match document {
        Ok(data) => Ok(data@),
        Err(why) => Err(why@),
    }
}

fn name_files(data: &Json) -> (r: Vec<String>)
    ensures
        texts(r@) == older_files(data@),
{
    let mut r: Vec<String> = Vec::new();
    assert(texts(r@) =~= Seq::<Seq<char>>::empty());
    let files = match data.get("filings") {
        Some(filings) => match filings.array_field("files") {
            Some(files) => files,
            None => return r,
        },
        None => return r,
    };
    let ghost all = items_view(files@);
    let ghost name_of = |file: JsonView| file.field("name"@).as_str();
    let mut i: usize = 0;
    assert(texts(r@) =~= all.take(0).filter_map(name_of));
    while i < files.len()
        invariant
            i <= files@.len(),
            all == items_view(files@),
            name_of == (|file: JsonView| file.field("name"@).as_str()),
            texts(r@) == all.take(i as int).filter_map(name_of),
        decreases files@.len() - i,
    {
        proof {
            filter_map_grows(all, i as int, name_of);
        }
        match files[i].str_field("name") {
            Some(name) => {
                let ghost before = texts(r@);
                r.push(owned(name));
                assert(texts(r@) =~= before.push(name@));
            },
            None => {},
        }
        i += 1;
    }
    assert(all.take(i as int) =~= all);
    r
}

fn option_str(text: &Option<String>) -> (r: Option<&str>)
    ensures
        text_view(r) == string_view(*text),
{
    match text {
        Some(s) => Some(s.as_str()),
        None => None,
    }
}

fn filings_reply(symbol: String, cik: String, company: String, filings: Vec<Json>) -> (r: Json)
    ensures
        r@ == recent_filings_outcome(symbol@, cik@, company@, items_view(filings@)),
{
    let ghost expected = recent_filings_outcome(symbol@, cik@, company@, items_view(filings@));
    let mut fields: Vec<(String, Json)> = Vec::new();
    put(&mut fields, "company", Json::Str(company));
    put(&mut fields, "ticker", Json::Str(symbol));
    put(&mut fields, "cik", Json::Str(cik));
    put(&mut fields, "filings", Json::array(filings));
    let reply = Json::object(fields);
    assert(reply@->Object_0 =~= expected->Object_0);
    reply
}

fn go_on_with_readings(
    symbol: String,
    cik: String,
    company: String,
    rows: Vec<Json>,
    filings: Vec<OwnershipFiling>,
) -> (r: Step)
    ensures
        r@ == more_readings(
            symbol@,
            cik@,
            company@,
            items_view(rows@),
            filings_view(filings@),
        ),
{
    assert(filings_view(filings@).len() == filings@.len());
    if filings.len() == 0 {
        return Step::Reply(filings_reply(symbol, cik, company, rows));
    }
    let ghost all = filings_view(filings@);
    let mut rest = filings;
    let filing = rest.remove(0);
    assert(filing@ == all[0]);
    assert(filings_view(rest@) =~= all.drop_first());
    Step::Read(
        owned(filing.url.as_str()),
        Reading { symbol, cik, company, rows, filing, rest },
    )
}

fn first_reading(
    symbol: String,
    cik: String,
    form: Option<String>,
    limit: usize,
    data: &Json,
) -> (r: Step)
    ensures
        r@ == with_document(
            QueryView::Insiders { symbol: symbol@, cik: cik@, form: string_view(form), limit },
            data@,
        ),
{
    let company = owned(str_field_or(data, "name", "Unknown"));
    let number = cik_num(cik.as_str());
    let recent = match data.get("filings") {
        Some(filings) => filings.get("recent"),
        None => None,
    };
    let filings = match recent {
        Some(block) => select_ownership_filings(
            block,
            number.as_str(),
            option_str(&form),
            limit,
        ),
        None => select_ownership_filings(
            &Json::Null,
            number.as_str(),
            option_str(&form),
            limit,
        ),
    };
    let rows: Vec<Json> = Vec::new();
    assert(items_view(rows@) =~= Seq::<JsonView>::empty());
    go_on_with_readings(symbol, cik, company, rows, filings)
}

fn go_on_with_filings(
    symbol: String,
    cik: String,
    form: Option<String>,
    limit: usize,
    company: String,
    found: Vec<Json>,
    names: Vec<String>,
) -> (r: Step)
    ensures
        r@ == more_filings(
            symbol@,
            cik@,
            string_view(form),
            limit,
            company@,
            items_view(found@),
            texts(names@),
        ),
{
    assert(items_view(found@).len() == found@.len());
    assert(texts(names@).len() == names@.len());
    if found.len() >= limit || names.len() == 0 {
        Step::Reply(filings_reply(symbol, cik, company, found))
    } else {
        let ghost all = texts(names@);
        let mut names = names;
        let name = names.remove(0);
        assert(texts(names@) =~= all.drop_first());
        Step::Fetch(
            submissions_file_url(name.as_str()),
            Query::OlderFilings { symbol, cik, form, limit, company, found, names },
        )
    }
}

fn first_filings(
    symbol: String,
    cik: String,
    form: Option<String>,
    limit: usize,
    data: &Json,
) -> (r: Step)
    ensures
        r@ == with_document(
            QueryView::Filings { symbol: symbol@, cik: cik@, form: string_view(form), limit },
            data@,
        ),
{
    let company = owned(str_field_or(data, "name", "Unknown"));
    let number = cik_num(cik.as_str());
    let mut found: Vec<Json> = Vec::new();
    let ghost none = items_view(found@);
    let recent = match data.get("filings") {
        Some(filings) => filings.get("recent"),
        None => None,
    };
    match recent {
        Some(block) => collect_filings(
            block,
            number.as_str(),
            option_str(&form),
            limit,
            &mut found,
        ),
        None => collect_filings(
            &Json::Null,
            number.as_str(),
            option_str(&form),
            limit,
            &mut found,
        ),
    }
    proof {
        let block = data@.field("filings"@).field("recent"@);
        let rows = at_most(
            filing_rows(block, cik_number(cik@), string_view(form)),
            limit as int,
        );
        assert(none + rows =~= rows);
    }
    let names = name_files(data);
    go_on_with_filings(symbol, cik, form, limit, company, found, names)
}

/// Goes on once a document was to be fetched.
pub fn fetched(query: Query, document: Result<Json, String>) -> (r: Step)
    ensures
        r@ == after_fetch(query@, document_view(document)),
{
    let data = match document {
        Ok(data) => data,
        Err(why) => return Step::Fail(why),
    };
    match query {
        Query::Filings { symbol, cik, form, limit } => first_filings(
            symbol,
            cik,
            form,
            limit,
            &data,
        ),
        Query::OlderFilings { symbol, cik, form, limit, company, found, names } => {
            let mut found = found;
            assert(items_view(found@).len() == found@.len());
            let number = cik_num(cik.as_str());
            collect_filings(&data, number.as_str(), option_str(&form), limit, &mut found);
            go_on_with_filings(symbol, cik, form, limit, company, found, names)
        },
        Query::Concept { symbol, cik, concept, taxonomy, period } => Step::Reply(
            financial_concept_reply(
                symbol.as_str(),
                cik.as_str(),
                concept.as_str(),
                taxonomy.as_str(),
                option_str(&period),
                &data,
            ),
        ),
        Query::Info { symbol, cik } => Step::Reply(
            company_info_reply(symbol.as_str(), cik.as_str(), &data),
        ),
        Query::Listing { query } => Step::Reply(list_tickers_reply(option_str(&query), &data)),
        Query::Facts { symbol, cik, filter } => Step::Reply(
            company_facts_reply(symbol.as_str(), cik.as_str(), option_str(&filter), &data),
        ),
        Query::Insiders { symbol, cik, form, limit } => first_reading(
            symbol,
            cik,
            form,
            limit,
            &data,
        ),
        Query::Frames { concept, taxonomy, unit, period_code, instant, top } => Step::Reply(
            xbrl_frames_reply(
                concept.as_str(),
                taxonomy.as_str(),
                unit.as_str(),
                period_code.as_str(),
                instant,
                top,
                &data,
            ),
        ),
    }
}

/// The step that follows the attempt to read the nodes of an ownership form. A
/// form that cannot be read has its row too, and the call goes on.
pub open spec fn after_nodes(
    reading: ReadingView,
    nodes: Result<Seq<XmlNodeView>, Seq<char>>,
) -> StepView {
    more_readings(
        reading.symbol,
        reading.cik,
        reading.company,
        reading.rows.push(document_row(reading.filing, nodes)),
        reading.rest,
    )
}

/// The step that follows the attempt to fetch the document of an ownership form.
pub open spec fn after_document(
    reading: ReadingView,
    text: Result<Seq<char>, Seq<char>>,
) -> StepView {
    after_nodes(reading, document_nodes(text))
}

/// Goes on with the nodes of an ownership form, or with why there are none.
pub fn nodes_read(reading: Reading, nodes: Result<Vec<XmlNode>, String>) -> (r: Step)
    ensures
        r@ == after_nodes(reading@, parse_view(nodes)),
{
    let Reading { symbol, cik, company, rows, filing, rest } = reading;
    let ghost before = items_view(rows@);
    let mut rows = rows;
    let row = read_nodes(filing, nodes);
    rows.push(row);
    assert(items_view(rows@) =~= before.push(row@));
    go_on_with_readings(symbol, cik, company, rows, rest)
}

/// Goes on once the document of an ownership form was to be fetched.
pub fn read_document(reading: Reading, text: Result<String, String>) -> (r: Step)
    ensures
        r@ == after_document(reading@, outcome_view(text)),
{
    nodes_read(reading, nodes_of_document(text))
}

/// Until there is a client every tool but `sec_configure` is refused, whatever
/// its arguments, and told how to go on.
pub proof fn unconfigured_calls_are_refused(name: Seq<char>, args: JsonView)
    requires
        is_data_tool(name),
    ensures
        start(false, name, args) == StepView::Fail(not_configured()),
{
    data_tools_do_not_configure(name);
}

proof fn data_tools_do_not_configure(name: Seq<char>)
    requires
        is_data_tool(name),
    ensures
        name != "sec_configure"@,
{
    reveal_strlit("sec_configure");
    reveal_strlit("sec_lookup_cik");
    reveal_strlit("sec_recent_filings");
    reveal_strlit("sec_financial_concept");
    reveal_strlit("sec_company_info");
    reveal_strlit("sec_company_facts");
    reveal_strlit("sec_insider_transactions");
    reveal_strlit("sec_list_tickers");
    reveal_strlit("sec_insider_transactions");
    reveal_strlit("sec_xbrl_frames");
    assert(name.len() > "sec_configure"@.len());
}

/// Only `sec_configure` changes the contact address, and what it takes is
/// neither empty nor surrounded by white space.
pub proof fn saved_addresses_are_trimmed(connected: bool, name: Seq<char>, args: JsonView)
    requires
        start(connected, name, args) is Save,
    ensures
        name == "sec_configure"@,
        start(connected, name, args)->Save_0.len() > 0,
        trimmed(start(connected, name, args)->Save_0) == start(connected, name, args)->Save_0,
{
    match args.field("contact_email"@).as_str() {
        Some(email) => trimmed_is_stable(email),
        None => {},
    }
}

/// The rows of all files of older filings, in the order of the files. `site`
/// is what stands at each address.
pub open spec fn rows_of_files(
    names: Seq<Seq<char>>,
    cik_num: Seq<char>,
    form: Option<Seq<char>>,
    site: spec_fn(Seq<char>) -> JsonView,
) -> Seq<JsonView>
    decreases names.len(),
{
    if names.len() == 0 {
        Seq::empty()
    } else {
        filing_rows(site(submissions_file_address(names[0])), cik_num, form) + rows_of_files(
            names.drop_first(),
            cik_num,
            form,
            site,
        )
    }
}

/// How many documents a call may still have to fetch.
pub open spec fn documents_left(step: StepView) -> nat {
    match step {
        StepView::Fetch(_, QueryView::OlderFilings { names, .. }) => names.len() + 1,
        StepView::Fetch(_, _) => 1,
        _ => 0,
    }
}

/// Whether a call still waits for the document that names the files of older
/// filings.
pub open spec fn waits_for_index(step: StepView) -> nat {
    match step {
        StepView::Fetch(_, QueryView::Filings { .. }) => 1,
        _ => 0,
    }
}

/// Where a call comes to when every document is fetched that it asks for.
/// `site` is what stands at each address.
pub open spec fn run(step: StepView, site: spec_fn(Seq<char>) -> JsonView) -> StepView
    decreases waits_for_index(step), documents_left(step),
{
    match step {
        StepView::Fetch(url, query) => run(with_document(query, site(url)), site),
        _ => step,
    }
}

/// A call asks for no document any more once it has all that it asked for.
pub proof fn fetching_ends(step: StepView, site: spec_fn(Seq<char>) -> JsonView)
    ensures
        run(step, site) !is Fetch,
        step is Fetch ==> run(step, site) is Reply || run(step, site) is Read,
    decreases waits_for_index(step), documents_left(step),
{
    match step {
        StepView::Fetch(url, query) => {
            fetching_ends(with_document(query, site(url)), site);
        },
        _ => {},
    }
}

/// A file of older filings is asked for only while filings are missing.
pub proof fn older_files_are_fetched_when_needed(
    query: QueryView,
    document: Result<JsonView, Seq<char>>,
)
    ensures
        after_fetch(query, document) matches StepView::Fetch(
            _,
            QueryView::OlderFilings { found, limit, .. },
        ) ==> found.len() < limit,
{
}

proof fn paging_collects(
    symbol: Seq<char>,
    cik: Seq<char>,
    form: Option<Seq<char>>,
    limit: usize,
    company: Seq<char>,
    found: Seq<JsonView>,
    names: Seq<Seq<char>>,
    site: spec_fn(Seq<char>) -> JsonView,
)
    requires
        found.len() <= limit,
    ensures
        run(more_filings(symbol, cik, form, limit, company, found, names), site)
            == StepView::Reply(
            recent_filings_outcome(
                symbol,
                cik,
                company,
                at_most(found + rows_of_files(names, cik_number(cik), form, site), limit as int),
            ),
        ),
    decreases names.len(),
{
    let number = cik_number(cik);
    let older = rows_of_files(names, number, form, site);
    if found.len() >= limit || names.len() == 0 {
        assert(at_most(found + older, limit as int) =~= found);
    } else {
        let rows = filing_rows(site(submissions_file_address(names[0])), number, form);
        let more = found + at_most(rows, limit - found.len());
        let rest = rows_of_files(names.drop_first(), number, form, site);
        paging_collects(symbol, cik, form, limit, company, more, names.drop_first(), site);
        assert(at_most(more + rest, limit as int) =~= at_most(
            found + (rows + rest),
            limit as int,
        ));
    }
}

/// Paging loses and repeats nothing: a reply holds the first filings, as many
/// as were asked for, of the recent ones and then of all older files in their
/// order.
pub proof fn filings_are_paged(
    symbol: Seq<char>,
    cik: Seq<char>,
    form: Option<Seq<char>>,
    limit: usize,
    site: spec_fn(Seq<char>) -> JsonView,
)
    ensures
        ({
            let url = submissions_address(cik);
            let data = site(url);
            let recent = filing_rows(
                data.field("filings"@).field("recent"@),
                cik_number(cik),
                form,
            );
            let older = rows_of_files(older_files(data), cik_number(cik), form, site);
            run(StepView::Fetch(url, QueryView::Filings { symbol, cik, form, limit }), site)
                == StepView::Reply(
                recent_filings_outcome(
                    symbol,
                    cik,
                    text_or(data.field("name"@).as_str(), "Unknown"@),
                    at_most(recent + older, limit as int),
                ),
            )
        }),
{
    let data = site(submissions_address(cik));
    let company = text_or(data.field("name"@).as_str(), "Unknown"@);
    let recent = filing_rows(data.field("filings"@).field("recent"@), cik_number(cik), form);
    let found = at_most(recent, limit as int);
    let names = older_files(data);
    let older = rows_of_files(names, cik_number(cik), form, site);
    paging_collects(symbol, cik, form, limit, company, found, names, site);
    assert(at_most(found + older, limit as int) =~= at_most(recent + older, limit as int));
}

/// A call of `sec_recent_filings` for a known ticker replies with the first
/// filings of that company, ten where nothing else is asked for and never more
/// than forty.
pub proof fn recent_filings_reply_in_full(
    args: JsonView,
    map: Map<Seq<char>, Seq<char>>,
    site: spec_fn(Seq<char>) -> JsonView,
)
    requires
        args.field("ticker"@) is Str,
        map.contains_key(upper_case(args.field("ticker"@)->Str_0)),
    ensures
        ({
            let symbol = upper_case(args.field("ticker"@)->Str_0);
            let cik = map[symbol];
            let form = args.field("form_type"@).as_str();
            let limit = filings_limit(args);
            let data = site(submissions_address(cik));
            let recent = filing_rows(
                data.field("filings"@).field("recent"@),
                cik_number(cik),
                form,
            );
            let older = rows_of_files(older_files(data), cik_number(cik), form, site);
            let first = start(true, "sec_recent_filings"@, args);
            &&& limit <= 40
            &&& args.field("limit"@).as_u64() is None ==> limit == 10
            &&& first is Resolve
            &&& first->Resolve_0.ticker() == args.field("ticker"@)->Str_0
            &&& run(after_tickers(first->Resolve_0, symbol, Ok(map)), site) == StepView::Reply(
                recent_filings_outcome(
                    symbol,
                    cik,
                    text_or(data.field("name"@).as_str(), "Unknown"@),
                    at_most(recent + older, limit as int),
                ),
            )
        }),
{
    data_tools_do_not_configure("sec_recent_filings"@);
    reveal_strlit("sec_recent_filings");
    reveal_strlit("sec_lookup_cik");
    assert("sec_recent_filings"@.len() != "sec_lookup_cik"@.len());
    let symbol = upper_case(args.field("ticker"@)->Str_0);
    filings_are_paged(
        symbol,
        map[symbol],
        args.field("form_type"@).as_str(),
        filings_limit(args),
        site,
    );
}

/// What a call replies with whose ticker has its CIK and that needs at most one
/// document: which document it reads, and what it makes of it.
pub open spec fn short_reply(
    lookup: LookupView,
    symbol: Seq<char>,
    cik: Seq<char>,
    site: spec_fn(Seq<char>) -> JsonView,
) -> JsonView {
    match lookup {
        LookupView::Concept { concept, taxonomy, period, .. } => financial_concept_outcome(
            symbol,
            cik,
            concept,
            taxonomy,
            period,
            site(company_concept_address(cik, taxonomy, concept)),
        ),
        LookupView::Info { .. } => company_info_outcome(
            symbol,
            cik,
            site(submissions_address(cik)),
        ),
        LookupView::Facts { filter, .. } => company_facts_outcome(
            symbol,
            cik,
            filter,
            site(company_facts_address(cik)),
        ),
        _ => lookup_cik_outcome(symbol, cik),
    }
}

/// A call with a known ticker, other than for filings or insiders, reads at most
/// one document and then replies.
pub proof fn one_document_suffices(
    lookup: LookupView,
    map: Map<Seq<char>, Seq<char>>,
    site: spec_fn(Seq<char>) -> JsonView,
)
    requires
        lookup !is Filings,
        lookup !is Insiders,
        map.contains_key(upper_case(lookup.ticker())),
    ensures
        ({
            let symbol = upper_case(lookup.ticker());
            let step = after_tickers(lookup, symbol, Ok(map));
            &&& documents_left(step) <= 1
            &&& run(step, site) == StepView::Reply(short_reply(lookup, symbol, map[symbol], site))
        }),
{
    let symbol = upper_case(lookup.ticker());
    let step = after_tickers(lookup, symbol, Ok(map));
    match step {
        StepView::Fetch(url, query) => {
            let last = with_document(query, site(url));
            assert(run(last, site) == last);
        },
        _ => {},
    }
}

/// A ticker that the map does not hold ends every call that takes one, with an
/// error that quotes the ticker as it was written.
pub proof fn unknown_tickers_are_refused(lookup: LookupView, map: Map<Seq<char>, Seq<char>>)
    requires
        !map.contains_key(upper_case(lookup.ticker())),
    ensures
        after_tickers(lookup, upper_case(lookup.ticker()), Ok(map)) == StepView::Fail(
            "ticker '"@ + lookup.ticker() + "' not found in EDGAR"@,
        ),
{
}

/// A call of `sec_list_tickers` always replies once it has the list, and the
/// case of its query makes no difference.
pub proof fn listing_reply_in_full(args: JsonView, site: spec_fn(Seq<char>) -> JsonView)
    ensures
        ({
            let query = match args.field("query"@).as_str() {
                Some(text) => Some(lower_case(text)),
                None => None,
            };
            run(start(true, "sec_list_tickers"@, args), site) == StepView::Reply(
                list_tickers_outcome(query, site(EXCHANGE_TICKERS_URL@)),
            )
        }),
{
    data_tools_do_not_configure("sec_list_tickers"@);
    reveal_strlit("sec_lookup_cik");
    reveal_strlit("sec_recent_filings");
    reveal_strlit("sec_financial_concept");
    reveal_strlit("sec_company_info");
    reveal_strlit("sec_company_facts");
    reveal_strlit("sec_insider_transactions");
    reveal_strlit("sec_list_tickers");
    assert("sec_list_tickers"@[4] == 'l' && "sec_company_info"@[4] == 'c');
    assert("sec_list_tickers"@.len() == 16);
    assert("sec_list_tickers"@ != "sec_company_info"@);
    assert(!takes_ticker("sec_list_tickers"@));
    let step = start(true, "sec_list_tickers"@, args);
    let last = with_document(step->Fetch_1, site(step->Fetch_0));
    assert(run(last, site) == last);
}

/// A call of `sec_xbrl_frames` with a concept and a period that has a code reads
/// the frame of that code, in dollars of `us-gaap` where nothing else is asked
/// for, and replies with its largest entries, twenty where no number is given.
pub proof fn frames_reply_in_full(args: JsonView, site: spec_fn(Seq<char>) -> JsonView)
    requires
        args.field("concept"@) is Str,
        args.field("period"@) is Str,
        period_code_of(
            args.field("period"@)->Str_0,
            args.field("instant"@) == JsonView::Bool(true),
        ) is Ok,
    ensures
        ({
            let concept = args.field("concept"@)->Str_0;
            let instant = args.field("instant"@) == JsonView::Bool(true);
            let code = period_code_of(args.field("period"@)->Str_0, instant)->Ok_0;
            let taxonomy = text_or(args.field("taxonomy"@).as_str(), "us-gaap"@);
            let unit = text_or(args.field("unit"@).as_str(), "USD"@);
            let limit = match args.field("limit"@).as_u64() {
                Some(n) => n,
                None => 20,
            };
            run(start(true, "sec_xbrl_frames"@, args), site) == StepView::Reply(
                xbrl_frames_outcome(
                    concept,
                    taxonomy,
                    unit,
                    code,
                    instant,
                    limit,
                    site(xbrl_frames_address(taxonomy, concept, unit, code)),
                ),
            )
        }),
{
    data_tools_do_not_configure("sec_xbrl_frames"@);
    reveal_strlit("sec_lookup_cik");
    reveal_strlit("sec_recent_filings");
    reveal_strlit("sec_financial_concept");
    reveal_strlit("sec_company_info");
    reveal_strlit("sec_company_facts");
    reveal_strlit("sec_insider_transactions");
    reveal_strlit("sec_list_tickers");
    reveal_strlit("sec_xbrl_frames");
    assert("sec_xbrl_frames"@.len() == 15);
    assert(!takes_ticker("sec_xbrl_frames"@));
    let step = start(true, "sec_xbrl_frames"@, args);
    let last = with_document(step->Fetch_1, site(step->Fetch_0));
    assert(run(last, site) == last);
}

/// Where a call comes to when every ownership form is read that it asks for.
/// `texts` is what the attempt to fetch each address gives.
pub open spec fn read_all(
    step: StepView,
    texts: spec_fn(Seq<char>) -> Result<Seq<char>, Seq<char>>,
) -> StepView
    decreases (if step is Read {
        step->Read_1.rest.len() + 1
    } else {
        0
    }),
{
    match step {
        StepView::Read(url, reading) => read_all(after_document(reading, texts(url)), texts),
        _ => step,
    }
}

/// The rows of ownership forms, one for each, in their order.
pub open spec fn rows_of_readings(
    filings: Seq<OwnershipFilingView>,
    texts: spec_fn(Seq<char>) -> Result<Seq<char>, Seq<char>>,
) -> Seq<JsonView> {
    filings.map_values(
        |filing: OwnershipFilingView| document_row(filing, document_nodes(texts(filing.url))),
    )
}

proof fn readings_collect(
    symbol: Seq<char>,
    cik: Seq<char>,
    company: Seq<char>,
    rows: Seq<JsonView>,
    filings: Seq<OwnershipFilingView>,
    texts: spec_fn(Seq<char>) -> Result<Seq<char>, Seq<char>>,
)
    ensures
        read_all(more_readings(symbol, cik, company, rows, filings), texts) == StepView::Reply(
            recent_filings_outcome(symbol, cik, company, rows + rows_of_readings(filings, texts)),
        ),
    decreases filings.len(),
{
    if filings.len() == 0 {
        assert(rows + rows_of_readings(filings, texts) =~= rows);
    } else {
        let row = document_row(filings[0], document_nodes(texts(filings[0].url)));
        let rest = filings.drop_first();
        readings_collect(symbol, cik, company, rows.push(row), rest, texts);
        assert(rows.push(row) + rows_of_readings(rest, texts) =~= rows + rows_of_readings(
            filings,
            texts,
        ));
    }
}

/// A call of `sec_insider_transactions` for a known ticker replies with one row
/// for each of the first ownership forms that are asked for, in their order,
/// whether its document can be fetched and read or not: five where nothing else
/// is asked for and never more than twenty.
pub proof fn insiders_reply_in_full(
    args: JsonView,
    map: Map<Seq<char>, Seq<char>>,
    site: spec_fn(Seq<char>) -> JsonView,
    texts: spec_fn(Seq<char>) -> Result<Seq<char>, Seq<char>>,
)
    requires
        args.field("ticker"@) is Str,
        map.contains_key(upper_case(args.field("ticker"@)->Str_0)),
    ensures
        ({
            let symbol = upper_case(args.field("ticker"@)->Str_0);
            let cik = map[symbol];
            let limit = insiders_limit(args);
            let data = site(submissions_address(cik));
            let listed = ownership_filings(
                data.field("filings"@).field("recent"@),
                cik_number(cik),
                args.field("form_type"@).as_str(),
            );
            let rows = rows_of_readings(at_most(listed, limit as int), texts);
            let first = start(true, "sec_insider_transactions"@, args);
            &&& limit <= 20
            &&& args.field("limit"@).as_u64() is None ==> limit == 5
            &&& rows.len() == if listed.len() < limit {
                listed.len()
            } else {
                limit as nat
            }
            &&& first is Resolve
            &&& first->Resolve_0.ticker() == args.field("ticker"@)->Str_0
            &&& read_all(run(after_tickers(first->Resolve_0, symbol, Ok(map)), site), texts)
                == StepView::Reply(
                recent_filings_outcome(
                    symbol,
                    cik,
                    text_or(data.field("name"@).as_str(), "Unknown"@),
                    rows,
                ),
            )
        }),
{
    data_tools_do_not_configure("sec_insider_transactions"@);
    reveal_strlit("sec_insider_transactions");
    reveal_strlit("sec_lookup_cik");
    reveal_strlit("sec_recent_filings");
    reveal_strlit("sec_financial_concept");
    reveal_strlit("sec_company_info");
    assert("sec_insider_transactions"@.len() == 24);
    let symbol = upper_case(args.field("ticker"@)->Str_0);
    let cik = map[symbol];
    let limit = insiders_limit(args);
    let data = site(submissions_address(cik));
    let company = text_or(data.field("name"@).as_str(), "Unknown"@);
    let listed = ownership_filings(
        data.field("filings"@).field("recent"@),
        cik_number(cik),
        args.field("form_type"@).as_str(),
    );
    let taken = at_most(listed, limit as int);
    let rows = rows_of_readings(taken, texts);
    let next = more_readings(symbol, cik, company, Seq::empty(), taken);
    assert(run(next, site) == next);
    readings_collect(symbol, cik, company, Seq::empty(), taken, texts);
    assert(Seq::<JsonView>::empty() + rows =~= rows);
}

/// Which requests a ticker costs: none within an hour after the ticker file was
/// fetched, one for the file after that and at first. A request that fails leaves the cache
/// as it was, so that the next call asks again.
pub proof fn tickers_are_requested_once_an_hour(
    lookup: LookupView,
    fetched: u64,
    map: Map<Seq<char>, Seq<char>>,
    now: u64,
    later: u64,
    file: Result<JsonView, Seq<char>>,
)
    requires
        now <= later,
    ensures
        ({
            let symbol = upper_case(lookup.ticker());
            let held = Some((fetched, map));
            let answer = after_tickers(lookup, symbol, fetched_tickers(file));
            let kept = refreshed(held, later, file);
            &&& from_cache(lookup, symbol, None, now) == StepView::Tickers(TICKERS_URL@, lookup)
            &&& now - fetched < 3_600_000_000_000 ==> from_cache(lookup, symbol, held, now)
                == after_tickers(lookup, symbol, Ok(map))
            &&& now - fetched >= 3_600_000_000_000 ==> {
                &&& from_cache(lookup, symbol, held, now) == StepView::Tickers(TICKERS_URL@, lookup)
                &&& answer !is Tickers && answer !is Resolve
                &&& fetched_tickers(file) matches Ok(new) ==> kept == Some((later, new))
                    && from_cache(lookup, symbol, kept, later) == after_tickers(
                    lookup,
                    symbol,
                    Ok(new),
                )
                &&& fetched_tickers(file) matches Err(why) ==> answer == StepView::Fail(why)
                    && kept == held && from_cache(lookup, symbol, kept, later)
                    == StepView::Tickers(TICKERS_URL@, lookup)
            }
        }),
{
}

/// The tools that are listed are the tools that can be called.
pub proof fn listed_tools_can_be_called(name: Seq<char>)
    ensures
        tool_names().contains(name) <==> (name == "sec_configure"@ || is_data_tool(name)),
{
    let names = tool_names();
    assert(names[0] == "sec_company_facts"@ && names[1] == "sec_company_info"@);
    assert(names[2] == "sec_configure"@ && names[3] == "sec_financial_concept"@);
    assert(names[4] == "sec_insider_transactions"@ && names[5] == "sec_list_tickers"@);
    assert(names[6] == "sec_lookup_cik"@ && names[7] == "sec_recent_filings"@);
    assert(names[8] == "sec_xbrl_frames"@);
    if names.contains(name) {
        let i = choose|i: int| 0 <= i < names.len() && names[i] == name;
        assert(0 <= i < 9);
    }
}

/// The text of an argument; none where it is no string.
pub open spec fn text_given(v: JsonView) -> Option<Seq<char>> {
    match v {
        JsonView::Str(s) => Some(s),
        _ => None,
    }
}

/// The number of an argument, cut at the largest that is allowed; the usual one
/// where it is no unsigned integer.
pub open spec fn number_given(v: JsonView, usual: int, largest: int) -> int {
    match v {
        JsonView::Number(Number::PosInt(n)) => if n < largest {
            n as int
        } else {
            largest
        },
        _ => usual,
    }
}

proof fn tool_names_differ()
    ensures
        "sec_configure"@.len() == 13,
        "sec_lookup_cik"@.len() == 14,
        "sec_recent_filings"@.len() == 18,
        "sec_financial_concept"@.len() == 21,
        "sec_company_info"@.len() == 16,
        "sec_company_facts"@.len() == 17,
        "sec_insider_transactions"@.len() == 24,
        "sec_list_tickers"@.len() == 16,
        "sec_xbrl_frames"@.len() == 15,
        "sec_list_tickers"@ != "sec_company_info"@,
{
    reveal_strlit("sec_configure");
    reveal_strlit("sec_lookup_cik");
    reveal_strlit("sec_recent_filings");
    reveal_strlit("sec_financial_concept");
    reveal_strlit("sec_company_info");
    reveal_strlit("sec_company_facts");
    reveal_strlit("sec_insider_transactions");
    reveal_strlit("sec_list_tickers");
    reveal_strlit("sec_xbrl_frames");
    assert("sec_list_tickers"@[4] == 'l' && "sec_company_info"@[4] == 'c');
}

/// A tool that takes a ticker starts with what it was given: the ticker as it
/// was written, every argument in its own place, and the usual values for those
/// that are missing.
pub proof fn calls_start_with_what_they_were_given(args: JsonView, ticker: Seq<char>)
    requires
        args.field("ticker"@) == JsonView::Str(ticker),
    ensures
        start(true, "sec_lookup_cik"@, args) == StepView::Resolve(LookupView::Cik { ticker }),
        start(true, "sec_company_info"@, args) == StepView::Resolve(LookupView::Info { ticker }),
        start(true, "sec_company_facts"@, args) == StepView::Resolve(
            LookupView::Facts { ticker, filter: text_given(args.field("taxonomy"@)) },
        ),
        start(true, "sec_recent_filings"@, args) == StepView::Resolve(
            LookupView::Filings {
                ticker,
                form: text_given(args.field("form_type"@)),
                limit: number_given(args.field("limit"@), 10, 40) as usize,
            },
        ),
        start(true, "sec_insider_transactions"@, args) == StepView::Resolve(
            LookupView::Insiders {
                ticker,
                form: text_given(args.field("form_type"@)),
                limit: number_given(args.field("limit"@), 5, 20) as usize,
            },
        ),
        args.field("concept"@) matches JsonView::Str(concept) ==> start(
            true,
            "sec_financial_concept"@,
            args,
        ) == StepView::Resolve(
            LookupView::Concept {
                ticker,
                concept,
                taxonomy: match args.field("taxonomy"@) {
                    JsonView::Str(taxonomy) => taxonomy,
                    _ => "us-gaap"@,
                },
                period: text_given(args.field("period"@)),
            },
        ),
        args.field("concept"@) !is Str ==> start(true, "sec_financial_concept"@, args)
            == StepView::Fail("concept required"@),
{
    tool_names_differ();
}

/// Whether a name is that of a tool that takes a ticker.
pub open spec fn is_ticker_tool(name: Seq<char>) -> bool {
    name == "sec_lookup_cik"@ || name == "sec_recent_filings"@ || name == "sec_financial_concept"@
        || name == "sec_company_info"@ || name == "sec_company_facts"@ || name
        == "sec_insider_transactions"@
}

/// A missing argument ends a call with an error that names it, and a missing
/// client ends a call of every tool but `sec_configure`; a name that is no
/// tool's ends it whether there is a client or not.
pub proof fn missing_arguments_are_named(connected: bool, name: Seq<char>, args: JsonView)
    ensures
        is_ticker_tool(name) && args.field("ticker"@) !is Str ==> start(true, name, args)
            == StepView::Fail("ticker required"@),
        args.field("concept"@) !is Str ==> start(true, "sec_xbrl_frames"@, args) == StepView::Fail(
            "concept required"@,
        ),
        args.field("concept"@) is Str && args.field("period"@) !is Str ==> start(
            true,
            "sec_xbrl_frames"@,
            args,
        ) == StepView::Fail("period required"@),
        args.field("concept"@) is Str && args.field("period"@) is Str ==> (period_code_of(
            args.field("period"@)->Str_0,
            args.field("instant"@) == JsonView::Bool(true),
        ) matches Err(why) ==> start(true, "sec_xbrl_frames"@, args) == StepView::Fail(why)),
        !is_ticker_tool(name) && name != "sec_configure"@ && name != "sec_list_tickers"@ && name
            != "sec_xbrl_frames"@ ==> start(connected, name, args) == StepView::Fail(
            "unknown tool: "@ + name,
        ),
        is_ticker_tool(name) || name == "sec_list_tickers"@ || name == "sec_xbrl_frames"@ ==> start(
            false,
            name,
            args,
        ) == StepView::Fail(
            "SEC EDGAR contact email not configured. Please call the sec_configure tool first."@,
        ),
{
    tool_names_differ();
}

/// `sec_configure` takes the address that stands between white space, with a
/// client or without, and nothing else.
pub proof fn configuring_takes_the_address(
    connected: bool,
    args: JsonView,
    front: Seq<char>,
    email: Seq<char>,
    back: Seq<char>,
)
    requires
        forall|k: int| 0 <= k < front.len() ==> is_white_space(#[trigger] front[k]),
        forall|k: int| 0 <= k < back.len() ==> is_white_space(#[trigger] back[k]),
        email.len() > 0 ==> !is_white_space(email[0]) && !is_white_space(email.last()),
    ensures
        args.field("contact_email"@) == JsonView::Str(front + email + back) ==> start(
            connected,
            "sec_configure"@,
            args,
        ) == if email.len() > 0 {
            StepView::Save(email)
        } else {
            StepView::Fail("contact_email cannot be empty"@)
        },
        args.field("contact_email"@) !is Str ==> start(connected, "sec_configure"@, args)
            == StepView::Fail("contact_email required"@),
{
    trimming_leaves_the_core(front, email, back);
}

/// The reply of `sec_configure` names the address, where it lies and how every
/// request identifies itself.
pub proof fn configure_reply_fields(email: Seq<char>, path: Option<Seq<char>>)
    ensures
        ({
            let reply = configure_outcome(email, path);
            &&& reply.field("status"@) == JsonView::Str("configured"@)
            &&& reply.field("contact_email"@) == JsonView::Str(email)
            &&& reply.field("config_path"@) == JsonView::Str(
                if path is Some {
                    path->0
                } else {
                    "unknown"@
                },
            )
            &&& reply.field("message"@) == JsonView::Str(
                "SEC EDGAR contact email saved. All requests will now identify as: "@ + identity(
                    email,
                ),
            )
        }),
{
    reveal_strlit("status");
    reveal_strlit("contact_email");
    reveal_strlit("config_path");
    reveal_strlit("message");
    assert("status"@.len() == 6 && "contact_email"@.len() == 13 && "config_path"@.len() == 11);
    assert("message"@.len() == 7);
    let fields = configure_outcome(email, path)->Object_0;
    assert(fields[0].0 == "status"@ && fields[1].0 == "contact_email"@);
    assert(fields[2].0 == "config_path"@ && fields[3].0 == "message"@);
    lookup_finds(fields, "status"@, 0);
    lookup_finds(fields, "contact_email"@, 1);
    lookup_finds(fields, "config_path"@, 2);
    lookup_finds(fields, "message"@, 3);
}

/// A reply of filings names the company and holds the filings.
pub proof fn filings_reply_fields(
    symbol: Seq<char>,
    cik: Seq<char>,
    company: Seq<char>,
    filings: Seq<JsonView>,
)
    ensures
        ({
            let reply = recent_filings_outcome(symbol, cik, company, filings);
            &&& reply.field("company"@) == JsonView::Str(company)
            &&& reply.field("ticker"@) == JsonView::Str(symbol)
            &&& reply.field("cik"@) == JsonView::Str(cik)
            &&& reply.field("filings"@) == JsonView::Array(filings)
        }),
{
    reveal_strlit("company");
    reveal_strlit("ticker");
    reveal_strlit("cik");
    reveal_strlit("filings");
    assert("company"@.len() == 7 && "ticker"@.len() == 6 && "cik"@.len() == 3);
    assert("company"@[0] == 'c' && "filings"@[0] == 'f' && "filings"@.len() == 7);
    let fields = recent_filings_outcome(symbol, cik, company, filings)->Object_0;
    assert(fields[0].0 == "company"@ && fields[1].0 == "ticker"@ && fields[2].0 == "cik"@);
    assert(fields[3].0 == "filings"@);
    lookup_finds(fields, "company"@, 0);
    lookup_finds(fields, "ticker"@, 1);
    lookup_finds(fields, "cik"@, 2);
    lookup_finds(fields, "filings"@, 3);
}

/// The files of older filings are all that the submissions name, in their
/// order; an entry without a name is passed over.
pub proof fn every_named_file_is_paged(data: JsonView, files: Seq<JsonView>)
    ensures
        data.field("filings"@).field("files"@) == JsonView::Array(files) ==> older_files(data)
            == files.filter(|file: JsonView| file.field("name"@) is Str).map_values(
            |file: JsonView| file.field("name"@)->Str_0,
        ),
        data.field("filings"@).field("files"@) !is Array ==> older_files(data).len() == 0,
{
    named_files(files);
}

proof fn named_files(files: Seq<JsonView>)
    ensures
        files.filter_map(|file: JsonView| file.field("name"@).as_str()) == files.filter(
            |file: JsonView| file.field("name"@) is Str,
        ).map_values(|file: JsonView| file.field("name"@)->Str_0),
    decreases files.len(),
{
    let name_of = |file: JsonView| file.field("name"@).as_str();
    let named = |file: JsonView| file.field("name"@) is Str;
    let name = |file: JsonView| file.field("name"@)->Str_0;
    reveal(Seq::filter);
    if files.len() > 0 {
        let rest = files.drop_last();
        named_files(rest);
        let kept = rest.filter(named);
        if named(files.last()) {
            assert(name_of(files.last()) == Some(name(files.last())));
            assert(kept.push(files.last()).map_values(name) =~= kept.map_values(name).push(
                name(files.last()),
            ));
            assert(rest.filter_map(name_of) + seq![name(files.last())] =~= kept.map_values(
                name,
            ).push(name(files.last())));
        }
    } else {
        assert(files.filter_map(name_of) =~= files.filter(named).map_values(name));
    }
}

/// A document that cannot be fetched ends a call with the reason, whatever was
/// asked for, and so do tickers that cannot be had.
pub proof fn failures_end_a_call(
    query: QueryView,
    lookup: LookupView,
    symbol: Seq<char>,
    why: Seq<char>,
)
    ensures
        after_fetch(query, Err(why)) == StepView::Fail(why),
        after_tickers(lookup, symbol, Err(why)) == StepView::Fail(why),
        fetched_tickers(Err(why)) == Err::<Map<Seq<char>, Seq<char>>, _>(why),
{
}

/// A ticker file that was fetched gives all tickers that it lists.
pub proof fn fetched_tickers_are_used(file: JsonView)
    ensures
        fetched_tickers(Ok(file)) == tickers_of(file),
{
}

} // verus!
