# sec-mcp

A [Model Context Protocol](https://modelcontextprotocol.io/) server that gives
an MCP client access to SEC EDGAR: company filings, XBRL facts and company
information. No API key is needed; the SEC's fair-access policy asks for a
contact email, which `sec_configure` stores once.

The logic of the server is a library whose contracts are proved by
[Verus](https://github.com/verus-lang/verus). The program around it reads the
configuration, sends the requests and speaks the protocol.

## Layout

| Path | What is there |
|------|---------------|
| `src/session.rs` | A call of a tool, step by step, from its arguments to its reply |
| `src/config.rs` | The configuration, and the state between two calls |
| `src/tickers.rs` | Ticker to CIK, its cache, and the list of tickers |
| `src/filings.rs` | Rows out of column-major blocks of filings |
| `src/concept.rs`, `src/forms.rs` | The history of a concept and the forms that carry it |
| `src/company.rs` | Company information and the concepts that a company reports |
| `src/frames.rs`, `src/doubles.rs` | Cross-company frames, ranked by value |
| `src/insiders.rs`, `src/xml.rs` | Insider transactions out of the ownership forms 3, 4 and 5 |
| `src/urls.rs` | The addresses of EDGAR's endpoints |
| `src/responses.rs`, `src/server.rs` | What a refused request is answered; the face of the server |
| `src/json.rs`, `src/text.rs`, `src/lists.rs` | JSON documents, text and sequences |
| `tests/` | Tests of the library |
| `app/` | The program: configuration file, HTTP client, MCP server |

## Tools

| Tool | Description |
|------|-------------|
| `sec_configure` | First-run setup: saves the contact email |
| `sec_lookup_cik` | Resolves a ticker symbol to its SEC CIK number |
| `sec_company_info` | SIC code, industry, state of incorporation, fiscal year end, addresses |
| `sec_recent_filings` | Recent filings with direct URLs; pages into older history when needed |
| `sec_financial_concept` | Historical values of one XBRL concept |
| `sec_insider_transactions` | Insider transactions and holdings from Forms 3, 4 and 5 |
| `sec_list_tickers` | Searches or lists all SEC-registered tickers |
| `sec_company_facts` | All XBRL concepts that a company reports |
| `sec_xbrl_frames` | One metric of all companies for a given period |

## What is proved

Every function of the library says exactly what it returns. Beyond that the
library states, among others, that

- no data tool goes on before a contact address is on file,
- text from outside cannot add syntax to an address, and different texts never
  share one,
- a compound unit reaches the frames endpoint without a slash, raw or encoded,
- paging through older filings loses and repeats nothing, and asks for a file
  only while filings are missing,
- a ticker costs no request within an hour after the ticker file was fetched,
- every ownership form that is asked for has its row, readable or not, and a
  readable Form 3 lists at least one holding,
- a period filter that leaves no fact names the forms that the facts are filed
  on,
- a frame comes out with its largest values first, equal values in their order.

What the library believes of code outside it stands in a handful of items, each
with a comment that says so: `String::push`, `str::to_uppercase` and
`str::to_lowercase` of std, `urlencoding::encode`, `roxmltree::Document::parse`,
and how `reqwest` prints a status code.
