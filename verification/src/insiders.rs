//! Insiders: what the ownership forms 3, 4 and 5 of a company say.

use vstd::prelude::*;
use crate::filings::{cell_text, column, listed_forms};
use crate::json::{
    Json, JsonView, cell_at, cell_copy, fields_view, item_of, items_view, lookup_finds,
    lookup_misses, outcome_view, put, string_view, text_in, text_or, text_view,
};
use crate::lists::{at_most, filter_grows};
use crate::text::{
    characters, empty_literal, join, joined, owned, replacing_by_nothing_filters, same, stands_at,
    text_of, texts,
};
use crate::urls::{archive_address, archive_url};
use crate::xml::{
    XmlNode, XmlNodeView, attribute, attribute_of, child_of, child_text, children_are_found,
    find_child, is_first_child, is_set, is_under, nested_text, nested_value, node_text, nodes_view,
    parse_view, parse_xml, parsed_xml, says_yes, stands_under, text_of_child, text_of_nested,
    text_of_node, value_of_nested,
};

verus! {

/// Whether a filing is one of the ownership forms that are asked for: the one
/// that is named, or else any of `3`, `4` and `5`.
pub open spec fn is_ownership_form(form: JsonView, wanted: Option<Seq<char>>) -> bool {
    match (form.as_str(), wanted) {
        (Some(f), Some(w)) => f == w,
        (Some(f), None) => f == "3"@ || f == "4"@ || f == "5"@,
        (None, _) => false,
    }
}

/// The document behind a rendered form: its path without a leading segment
/// that names a style sheet (`xslF345X06/form4.xml` renders `form4.xml`).
pub open spec fn raw_document(document: Seq<char>) -> Seq<char> {
    if stands_at(document, "xsl"@, 0) && document.contains('/') {
        document.skip(document.index_of_first('/')->0 + 1)
    } else {
        document
    }
}

/// An ownership form that is to be read.
pub struct OwnershipFiling {
    pub form: String,
    pub date: Json,
    pub accession: String,
    pub url: String,
}

/// What an [`OwnershipFiling`] holds.
#[verifier::ext_equal]
pub struct OwnershipFilingView {
    pub form: Seq<char>,
    pub date: JsonView,
    pub accession: Seq<char>,
    pub url: Seq<char>,
}

impl View for OwnershipFiling {
    type V = OwnershipFilingView;

    open spec fn view(&self) -> OwnershipFilingView {
        OwnershipFilingView {
            form: self.form@,
            date: self.date@,
            accession: self.accession@,
            url: self.url@,
        }
    }
}

/// What a sequence of ownership forms holds.
pub open spec fn filings_view(filings: Seq<OwnershipFiling>) -> Seq<OwnershipFilingView> {
    filings.map_values(|filing: OwnershipFiling| filing@)
}

/// The ownership form at one position of a block of filings.
pub open spec fn ownership_filing(
    block: JsonView,
    cik_num: Seq<char>,
    i: int,
) -> OwnershipFilingView {
    let accession = text_or(cell_at(column(block, "accessionNumber"@), i).as_str(), Seq::empty());
    let document = text_or(cell_at(column(block, "primaryDocument"@), i).as_str(), Seq::empty());
    OwnershipFilingView {
        form: text_or(listed_forms(block)[i].as_str(), Seq::empty()),
        date: cell_at(column(block, "filingDate"@), i),
        accession,
        url: archive_address(cik_num, accession, raw_document(document)),
    }
}

/// The ownership forms that are asked for among the first `n` filings of a
/// block.
pub open spec fn ownership_filings_before(
    block: JsonView,
    cik_num: Seq<char>,
    wanted: Option<Seq<char>>,
    n: nat,
) -> Seq<OwnershipFilingView>
    decreases n,
{
    if n == 0 {
        Seq::empty()
    } else {
        let filings = ownership_filings_before(block, cik_num, wanted, (n - 1) as nat);
        if is_ownership_form(listed_forms(block)[n - 1], wanted) {
            filings.push(ownership_filing(block, cik_num, n - 1))
        } else {
            filings
        }
    }
}

/// The ownership forms of a block that are asked for, in the order of the
/// block.
pub open spec fn ownership_filings(
    block: JsonView,
    cik_num: Seq<char>,
    wanted: Option<Seq<char>>,
) -> Seq<OwnershipFilingView> {
    ownership_filings_before(block, cik_num, wanted, listed_forms(block).len())
}

/// The document behind a rendered form.
pub fn strip_style_sheet(document: &str) -> (r: String)
    ensures
        r@ == raw_document(document@),
{
    let chars = characters(document);
    proof {
        reveal_strlit("xsl");
    }
    if chars.len() < 3 || chars[0] != 'x' || chars[1] != 's' || chars[2] != 'l' {
        proof {
            if stands_at(document@, "xsl"@, 0) {
                let head = document@.subrange(0, 3);
                assert(head[0] == 'x' && head[1] == 's' && head[2] == 'l');
            }
        }
        return owned(document);
    }
    assert(document@.subrange(0, 3) =~= "xsl"@);
    let mut i: usize = 0;
    while i < chars.len()
        invariant
            i <= chars@.len(),
            chars@ == document@,
            stands_at(document@, "xsl"@, 0),
            forall|k: int| 0 <= k < i ==> chars@[k] != '/',
        decreases chars@.len() - i,
    {
        if chars[i] == '/' {
            proof {
                document@.index_of_first_ensures('/');
                assert(document@[i as int] == '/');
                assert(document@.index_of_first('/')->0 == i);
                assert(chars@.subrange(i + 1, chars@.len() as int) =~= document@.skip(i + 1));
            }
            return text_of(&chars, i + 1, chars.len());
        }
        i += 1;
    }
    owned(document)
}

fn is_wanted(form: &Json, wanted: Option<&str>) -> (r: bool)
    ensures
        r == is_ownership_form(form@, text_view(wanted)),
{
    match (form.as_str(), wanted) {
        (Some(f), Some(w)) => same(f, w),
        (Some(f), None) => same(f, "3") || same(f, "4") || same(f, "5"),
        (None, _) => false,
    }
}

/// The first ownership forms of a block that are asked for, at most `limit` of
/// them.
pub fn select_ownership_filings(
    block: &Json,
    cik_num: &str,
    wanted: Option<&str>,
    limit: usize,
) -> (r: Vec<OwnershipFiling>)
    ensures
        filings_view(r@) == at_most(
            ownership_filings(block@, cik_num@, text_view(wanted)),
            limit as int,
        ),
{
    let ghost all = ownership_filings(block@, cik_num@, text_view(wanted));
    let mut r: Vec<OwnershipFiling> = Vec::new();
    assert(filings_view(r@) =~= Seq::<OwnershipFilingView>::empty());
    let forms = match block.array_field("form") {
        Some(f) => f,
        None => {
            assert(at_most(all, limit as int) =~= Seq::<OwnershipFilingView>::empty());
            return r;
        },
    };
    let dates = block.array_field("filingDate");
    let accs = block.array_field("accessionNumber");
    let docs = block.array_field("primaryDocument");
    let mut i: usize = 0;
    while i < forms.len()
        invariant
            i <= forms@.len(),
            items_view(forms@) == listed_forms(block@),
            dates is Some <==> column(block@, "filingDate"@) is Some,
            dates is Some ==> items_view(dates->0@) == column(block@, "filingDate"@)->0,
            accs is Some <==> column(block@, "accessionNumber"@) is Some,
            accs is Some ==> items_view(accs->0@) == column(block@, "accessionNumber"@)->0,
            docs is Some <==> column(block@, "primaryDocument"@) is Some,
            docs is Some ==> items_view(docs->0@) == column(block@, "primaryDocument"@)->0,
            filings_view(r@) == ownership_filings_before(
                block@,
                cik_num@,
                text_view(wanted),
                i as nat,
            ),
        decreases forms@.len() - i,
    {
        assert(listed_forms(block@)[i as int] == forms@[i as int]@);
        if is_wanted(&forms[i], wanted) {
            let accession = cell_text(accs, i);
            let document = strip_style_sheet(cell_text(docs, i));
            let filing = OwnershipFiling {
                form: owned(cell_text(Some(forms), i)),
                date: cell_copy(dates, i),
                accession: owned(accession),
                url: archive_url(cik_num, accession, document.as_str()),
            };
            assert(filing@ == ownership_filing(block@, cik_num@, i as int));
            let ghost before = filings_view(r@);
            r.push(filing);
            assert(filings_view(r@) =~= before.push(filing@));
        }
        i += 1;
    }
    assert(filings_view(r@).len() == r@.len());
    r.truncate(limit);
    assert(filings_view(r@) =~= at_most(all, limit as int));
    r
}

/// The nodes of a document that was to be fetched, or why there are none.
pub open spec fn document_nodes(
    text: Result<Seq<char>, Seq<char>>,
) -> Result<Seq<XmlNodeView>, Seq<char>> {
    match text {
        Ok(t) => match parsed_xml(t) {
            Ok(nodes) => Ok(nodes),
            Err(why) => Err("failed to parse the document: "@ + why),
        },
        Err(why) => Err(why),
    }
}

/// The nodes of a document that was to be fetched, or why there are none.
pub fn nodes_of_document(text: Result<String, String>) -> (r: Result<Vec<XmlNode>, String>)
    ensures
        parse_view(r) == document_nodes(outcome_view(text)),
{
    match text {
        Ok(t) => match parse_xml(t.as_str()) {
            Ok(nodes) => Ok(nodes),
            Err(why) => Err(owned("failed to parse the document: ").concat(why.as_str())),
        },
        Err(why) => Err(why),
    }
}

/// Rows for those among the first `n` positions that are wanted.
pub open spec fn rows_where(
    n: nat,
    wanted: spec_fn(int) -> bool,
    row: spec_fn(int) -> JsonView,
) -> Seq<JsonView>
    decreases n,
{
    if n == 0 {
        Seq::empty()
    } else {
        let rows = rows_where((n - 1) as nat, wanted, row);
        if wanted(n - 1) {
            rows.push(row(n - 1))
        } else {
            rows
        }
    }
}

/// An optional text as a JSON value.
pub open spec fn optional_text(text: Option<Seq<char>>) -> JsonView {
    match text {
        Some(s) => JsonView::Str(s),
        None => JsonView::Null,
    }
}

fn optional_string(text: Option<String>) -> (r: Json)
    ensures
        r@ == optional_text(string_view(text)),
{
    match text {
        Some(s) => Json::Str(s),
        None => Json::Null,
    }
}

/// The company that a form is filed for.
pub open spec fn issuer_row(nodes: Seq<XmlNodeView>, root: int) -> JsonView {
    JsonView::Object(
        seq![
            ("cik"@, optional_text(nested_text(nodes, root, "issuer"@, "issuerCik"@))),
            ("name"@, optional_text(nested_text(nodes, root, "issuer"@, "issuerName"@))),
            ("symbol"@, optional_text(nested_text(nodes, root, "issuer"@, "issuerTradingSymbol"@))),
        ],
    )
}

/// The role that one flag of a relationship stands for, where it is set.
pub open spec fn role_of(
    nodes: Seq<XmlNodeView>,
    relation: int,
    flag: Seq<char>,
    role: Seq<char>,
) -> Seq<Seq<char>> {
    if is_set(nodes, relation, flag) {
        seq![role]
    } else {
        Seq::empty()
    }
}

/// The roles of an insider: director, officer by title, ten-percent owner, and
/// whatever else the form says.
pub open spec fn roles(nodes: Seq<XmlNodeView>, relation: int) -> Seq<Seq<char>> {
    role_of(nodes, relation, "isDirector"@, "Director"@) + role_of(
        nodes,
        relation,
        "isOfficer"@,
        text_or(child_text(nodes, relation, "officerTitle"@), "Officer"@),
    ) + role_of(nodes, relation, "isTenPercentOwner"@, "10% owner"@) + role_of(
        nodes,
        relation,
        "isOther"@,
        text_or(child_text(nodes, relation, "otherText"@), "Other"@),
    )
}

/// What an insider is to the company.
pub open spec fn role_text(nodes: Seq<XmlNodeView>, owner: int) -> Seq<char> {
    match child_of(nodes, owner, "reportingOwnerRelationship"@) {
        Some(relation) => joined(roles(nodes, relation), ", "@),
        None => Seq::empty(),
    }
}

/// One insider: name, CIK and role.
pub open spec fn insider_row(nodes: Seq<XmlNodeView>, owner: int) -> JsonView {
    JsonView::Object(
        seq![
            ("name"@, optional_text(nested_text(nodes, owner, "reportingOwnerId"@, "rptOwnerName"@))),
            ("cik"@, optional_text(nested_text(nodes, owner, "reportingOwnerId"@, "rptOwnerCik"@))),
            ("role"@, JsonView::Str(role_text(nodes, owner))),
        ],
    )
}

/// The insiders of a form.
pub open spec fn insider_rows(nodes: Seq<XmlNodeView>) -> Seq<JsonView> {
    rows_where(
        nodes.len(),
        |i: int| nodes[i].name == "reportingOwner"@,
        |i: int| insider_row(nodes, i),
    )
}

/// What a transaction code means.
pub open spec fn code_meaning(code: Seq<char>) -> Seq<char> {
    if code == "P"@ {
        "Open market or private purchase"@
    } else if code == "S"@ {
        "Open market or private sale"@
    } else if code == "V"@ {
        "Transaction voluntarily reported earlier than required"@
    } else if code == "A"@ {
        "Grant, award or other acquisition from the issuer"@
    } else if code == "D"@ {
        "Disposition to the issuer"@
    } else if code == "F"@ {
        "Shares withheld or delivered to cover tax or an exercise price, not a sale"@
    } else if code == "I"@ {
        "Discretionary transaction in an employee benefit plan"@
    } else if code == "M"@ {
        "Exercise or conversion of an exempt derivative security"@
    } else if code == "C"@ {
        "Conversion of a derivative security"@
    } else if code == "E"@ {
        "Expiration of a short derivative position"@
    } else if code == "H"@ {
        "Expiration or cancellation of a long derivative position with value received"@
    } else if code == "O"@ {
        "Exercise of an out-of-the-money derivative security"@
    } else if code == "X"@ {
        "Exercise of an in-the-money or at-the-money derivative security"@
    } else if code == "G"@ {
        "Bona fide gift"@
    } else if code == "L"@ {
        "Small acquisition"@
    } else if code == "W"@ {
        "Acquisition or disposition by will or the laws of descent and distribution"@
    } else if code == "Z"@ {
        "Deposit into or withdrawal from a voting trust"@
    } else if code == "J"@ {
        "Other acquisition or disposition, described in the footnotes"@
    } else if code == "K"@ {
        "Equity swap or similar transaction"@
    } else if code == "U"@ {
        "Disposition in a tender of shares in a change of control"@
    } else {
        "Unknown transaction code"@
    }
}

/// What a transaction code means.
pub fn describe_code(code: &str) -> (r: String)
    ensures
        r@ == code_meaning(code@),
{
    let meaning = if same(code, "P") {
        "Open market or private purchase"
    } else if same(code, "S") {
        "Open market or private sale"
    } else if same(code, "V") {
        "Transaction voluntarily reported earlier than required"
    } else if same(code, "A") {
        "Grant, award or other acquisition from the issuer"
    } else if same(code, "D") {
        "Disposition to the issuer"
    } else if same(code, "F") {
        "Shares withheld or delivered to cover tax or an exercise price, not a sale"
    } else if same(code, "I") {
        "Discretionary transaction in an employee benefit plan"
    } else if same(code, "M") {
        "Exercise or conversion of an exempt derivative security"
    } else if same(code, "C") {
        "Conversion of a derivative security"
    } else if same(code, "E") {
        "Expiration of a short derivative position"
    } else if same(code, "H") {
        "Expiration or cancellation of a long derivative position with value received"
    } else if same(code, "O") {
        "Exercise of an out-of-the-money derivative security"
    } else if same(code, "X") {
        "Exercise of an in-the-money or at-the-money derivative security"
    } else if same(code, "G") {
        "Bona fide gift"
    } else if same(code, "L") {
        "Small acquisition"
    } else if same(code, "W") {
        "Acquisition or disposition by will or the laws of descent and distribution"
    } else if same(code, "Z") {
        "Deposit into or withdrawal from a voting trust"
    } else if same(code, "J") {
        "Other acquisition or disposition, described in the footnotes"
    } else if same(code, "K") {
        "Equity swap or similar transaction"
    } else if same(code, "U") {
        "Disposition in a tender of shares in a change of control"
    } else {
        "Unknown transaction code"
    };
    owned(meaning)
}

/// Whether the node at `i` refers to a footnote for what stands under `top`.
pub open spec fn refers_to(nodes: Seq<XmlNodeView>, i: int, top: int, id: Seq<char>) -> bool {
    &&& nodes[i].name == "footnoteId"@
    &&& attribute_of(nodes[i].attributes, "id"@) == Some(id)
    &&& stands_under(nodes, i, top)
}

/// Whether something under `top` refers to the footnote `id`.
pub open spec fn is_referenced(nodes: Seq<XmlNodeView>, top: int, id: Seq<char>) -> bool {
    exists|i: int| 0 <= i < nodes.len() && #[trigger] refers_to(nodes, i, top, id)
}

/// Whether the node at `i` is a footnote that something under `top` refers to.
pub open spec fn is_footnote_of(nodes: Seq<XmlNodeView>, top: int, i: int) -> bool {
    &&& nodes[i].name == "footnote"@
    &&& attribute_of(nodes[i].attributes, "id"@) matches Some(id) && is_referenced(nodes, top, id)
}

/// The footnotes that something under `top` refers to, in the order of the
/// document, each once.
pub open spec fn footnote_rows(nodes: Seq<XmlNodeView>, top: int) -> Seq<JsonView> {
    rows_where(
        nodes.len(),
        |i: int| is_footnote_of(nodes, top, i),
        |i: int| JsonView::Str(text_or(node_text(nodes[i]), Seq::empty())),
    )
}

/// The code of a transaction; empty where the form gives none.
pub open spec fn transaction_code(nodes: Seq<XmlNodeView>, p: int) -> Seq<char> {
    text_or(nested_text(nodes, p, "transactionCoding"@, "transactionCode"@), Seq::empty())
}

/// One transaction.
pub open spec fn transaction_row(nodes: Seq<XmlNodeView>, p: int) -> JsonView {
    let code = transaction_code(nodes, p);
    JsonView::Object(
        seq![
            ("security"@, optional_text(nested_text(nodes, p, "securityTitle"@, "value"@))),
            ("derivative"@, JsonView::Bool(nodes[p].name == "derivativeTransaction"@)),
            ("date"@, optional_text(nested_text(nodes, p, "transactionDate"@, "value"@))),
            ("code"@, JsonView::Str(code)),
            ("code_description"@, JsonView::Str(code_meaning(code))),
            (
                "shares"@,
                optional_text(nested_value(nodes, p, "transactionAmounts"@, "transactionShares"@)),
            ),
            (
                "price_per_share"@,
                optional_text(
                    nested_value(nodes, p, "transactionAmounts"@, "transactionPricePerShare"@),
                ),
            ),
            (
                "acquired_disposed_code"@,
                optional_text(
                    nested_value(nodes, p, "transactionAmounts"@, "transactionAcquiredDisposedCode"@),
                ),
            ),
            (
                "shares_owned_following"@,
                optional_text(
                    nested_value(
                        nodes,
                        p,
                        "postTransactionAmounts"@,
                        "sharesOwnedFollowingTransaction"@,
                    ),
                ),
            ),
            (
                "ownership"@,
                optional_text(
                    nested_value(nodes, p, "ownershipNature"@, "directOrIndirectOwnership"@),
                ),
            ),
            ("footnotes"@, JsonView::Array(footnote_rows(nodes, p))),
        ],
    )
}

/// The transactions of a form, in the order of the document.
pub open spec fn transaction_rows(nodes: Seq<XmlNodeView>) -> Seq<JsonView> {
    rows_where(
        nodes.len(),
        |i: int|
            nodes[i].name == "nonDerivativeTransaction"@ || nodes[i].name
                == "derivativeTransaction"@,
        |i: int| transaction_row(nodes, i),
    )
}

/// One holding.
pub open spec fn holding_row(nodes: Seq<XmlNodeView>, p: int) -> JsonView {
    JsonView::Object(
        seq![
            ("security"@, optional_text(nested_text(nodes, p, "securityTitle"@, "value"@))),
            ("derivative"@, JsonView::Bool(nodes[p].name == "derivativeHolding"@)),
            (
                "shares_owned"@,
                optional_text(
                    nested_value(
                        nodes,
                        p,
                        "postTransactionAmounts"@,
                        "sharesOwnedFollowingTransaction"@,
                    ),
                ),
            ),
            (
                "underlying_security"@,
                optional_text(
                    nested_value(nodes, p, "underlyingSecurity"@, "underlyingSecurityTitle"@),
                ),
            ),
            (
                "underlying_shares"@,
                optional_text(
                    nested_value(nodes, p, "underlyingSecurity"@, "underlyingSecurityShares"@),
                ),
            ),
            (
                "ownership"@,
                optional_text(
                    nested_value(nodes, p, "ownershipNature"@, "directOrIndirectOwnership"@),
                ),
            ),
            ("footnotes"@, JsonView::Array(footnote_rows(nodes, p))),
        ],
    )
}

/// The holdings of a form, in the order of the document.
pub open spec fn holding_rows(nodes: Seq<XmlNodeView>) -> Seq<JsonView> {
    rows_where(
        nodes.len(),
        |i: int|
            nodes[i].name == "nonDerivativeHolding"@ || nodes[i].name == "derivativeHolding"@,
        |i: int| holding_row(nodes, i),
    )
}

/// What stands in place of holdings where a form says that there are none.
pub open spec fn nothing_owned() -> JsonView {
    JsonView::Object(
        seq![
            ("security"@, JsonView::Str("No securities are beneficially owned"@)),
            ("derivative"@, JsonView::Bool(false)),
            ("shares_owned"@, JsonView::Str("0"@)),
            ("underlying_security"@, JsonView::Null),
            ("underlying_shares"@, JsonView::Null),
            ("ownership"@, JsonView::Null),
            ("footnotes"@, JsonView::Array(Seq::empty())),
        ],
    )
}

/// The holdings that a form reports, or why it cannot be read: a form 3 reports
/// its holdings or says that there are none.
pub open spec fn reported_holdings(
    form: Seq<char>,
    nodes: Seq<XmlNodeView>,
    root: int,
) -> Result<Seq<JsonView>, Seq<char>> {
    let rows = holding_rows(nodes);
    if form != "3"@ || rows.len() > 0 {
        Ok(rows)
    } else if is_set(nodes, root, "noSecuritiesOwned"@) {
        Ok(seq![nothing_owned()])
    } else {
        Err("the form reports neither holdings nor that there are none"@)
    }
}

/// The start of every row: which filing it is of.
pub open spec fn filing_fields(filing: OwnershipFilingView) -> Seq<(Seq<char>, JsonView)> {
    seq![
        ("form"@, JsonView::Str(filing.form)),
        ("date"@, filing.date),
        ("accession_number"@, JsonView::Str(filing.accession)),
        ("url"@, JsonView::Str(filing.url)),
    ]
}

/// The row of a filing that cannot be read.
pub open spec fn error_row(filing: OwnershipFilingView, why: Seq<char>) -> JsonView {
    JsonView::Object(filing_fields(filing) + seq![("error"@, JsonView::Str(why))])
}

/// The row of a filing that says what it is to say.
pub open spec fn report_row(
    filing: OwnershipFilingView,
    nodes: Seq<XmlNodeView>,
    root: int,
    holdings: Seq<JsonView>,
) -> JsonView {
    JsonView::Object(
        filing_fields(filing) + seq![
            ("issuer"@, issuer_row(nodes, root)),
            ("insiders"@, JsonView::Array(insider_rows(nodes))),
            ("transactions"@, JsonView::Array(transaction_rows(nodes))),
            ("holdings"@, JsonView::Array(holdings)),
        ],
    )
}

/// The row of a filing, from the nodes of its document. One that cannot be read
/// is reported in its place.
pub open spec fn document_row(
    filing: OwnershipFilingView,
    nodes: Result<Seq<XmlNodeView>, Seq<char>>,
) -> JsonView {
    match nodes {
        Ok(list) => match child_of(list, 0, "ownershipDocument"@) {
            Some(root) => match reported_holdings(filing.form, list, root) {
                Ok(holdings) => report_row(filing, list, root, holdings),
                Err(why) => error_row(filing, why),
            },
            None => error_row(filing, "the document is no ownership form"@),
        },
        Err(why) => error_row(filing, why),
    }
}

fn show_issuer(nodes: &Vec<XmlNode>, root: usize) -> (r: Json)
    ensures
        r@ == issuer_row(nodes_view(nodes@), root as int),
{
    let mut fields: Vec<(String, Json)> = Vec::new();
    put(&mut fields, "cik", optional_string(text_of_nested(nodes, root, "issuer", "issuerCik")));
    put(&mut fields, "name", optional_string(text_of_nested(nodes, root, "issuer", "issuerName")));
    put(
        &mut fields,
        "symbol",
        optional_string(text_of_nested(nodes, root, "issuer", "issuerTradingSymbol")),
    );
    let r = Json::object(fields);
    assert(r@->Object_0 =~= issuer_row(nodes_view(nodes@), root as int)->Object_0);
    r
}

fn add_role(list: &mut Vec<String>, nodes: &Vec<XmlNode>, relation: usize, flag: &str, role: String)
    ensures
        texts(final(list)@) == texts(old(list)@) + role_of(
            nodes_view(nodes@),
            relation as int,
            flag@,
            role@,
        ),
{
    let ghost before = texts(list@);
    if says_yes(nodes, relation, flag) {
        list.push(role);
        assert(texts(list@) =~= before + seq![role@]);
    } else {
        assert(texts(list@) =~= before + Seq::<Seq<char>>::empty());
    }
}

fn string_or(text: Option<String>, other: &str) -> (r: String)
    ensures
        r@ == text_or(string_view(text), other@),
{
    match text {
        Some(s) => s,
        None => owned(other),
    }
}

fn describe_role(nodes: &Vec<XmlNode>, owner: usize) -> (r: String)
    ensures
        r@ == role_text(nodes_view(nodes@), owner as int),
{
    proof {
        empty_literal();
    }
    let relation: usize = match find_child(nodes, owner, "reportingOwnerRelationship") {
        Some(i) => i,
        None => return owned(""),
    };
    let mut list: Vec<String> = Vec::new();
    add_role(&mut list, nodes, relation, "isDirector", owned("Director"));
    let title = string_or(text_of_child(nodes, relation, "officerTitle"), "Officer");
    add_role(&mut list, nodes, relation, "isOfficer", title);
    add_role(&mut list, nodes, relation, "isTenPercentOwner", owned("10% owner"));
    let other = string_or(text_of_child(nodes, relation, "otherText"), "Other");
    add_role(&mut list, nodes, relation, "isOther", other);
    assert(texts(list@) =~= roles(nodes_view(nodes@), relation as int));
    join(&list, ", ")
}

fn show_insider(nodes: &Vec<XmlNode>, owner: usize) -> (r: Json)
    ensures
        r@ == insider_row(nodes_view(nodes@), owner as int),
{
    let mut fields: Vec<(String, Json)> = Vec::new();
    put(
        &mut fields,
        "name",
        optional_string(text_of_nested(nodes, owner, "reportingOwnerId", "rptOwnerName")),
    );
    put(
        &mut fields,
        "cik",
        optional_string(text_of_nested(nodes, owner, "reportingOwnerId", "rptOwnerCik")),
    );
    put(&mut fields, "role", Json::Str(describe_role(nodes, owner)));
    let r = Json::object(fields);
    assert(r@->Object_0 =~= insider_row(nodes_view(nodes@), owner as int)->Object_0);
    r
}

fn list_insiders(nodes: &Vec<XmlNode>) -> (r: Json)
    ensures
        r@ == JsonView::Array(insider_rows(nodes_view(nodes@))),
{
    let ghost all = nodes_view(nodes@);
    let ghost wanted = |i: int| all[i].name == "reportingOwner"@;
    let ghost row = |i: int| insider_row(all, i);
    let mut rows: Vec<Json> = Vec::new();
    let mut i: usize = 0;
    assert(items_view(rows@) =~= rows_where(0, wanted, row));
    while i < nodes.len()
        invariant
            i <= nodes@.len(),
            all == nodes_view(nodes@),
            wanted == (|i: int| all[i].name == "reportingOwner"@),
            row == (|i: int| insider_row(all, i)),
            items_view(rows@) == rows_where(i as nat, wanted, row),
        decreases nodes@.len() - i,
    {
        assert(all[i as int] == nodes@[i as int]@);
        let ghost before = items_view(rows@);
        if same(nodes[i].name.as_str(), "reportingOwner") {
            rows.push(show_insider(nodes, i));
            assert(items_view(rows@) =~= before.push(row(i as int)));
        }
        i += 1;
    }
    assert(all.len() == nodes@.len());
    Json::array(rows)
}

fn has_reference(nodes: &Vec<XmlNode>, top: usize, id: &str) -> (r: bool)
    ensures
        r == is_referenced(nodes_view(nodes@), top as int, id@),
{
    let ghost all = nodes_view(nodes@);
    let mut i: usize = 0;
    while i < nodes.len()
        invariant
            i <= nodes@.len(),
            all == nodes_view(nodes@),
            forall|k: int| 0 <= k < i ==> !#[trigger] refers_to(all, k, top as int, id@),
        decreases nodes@.len() - i,
    {
        assert(all[i as int] == nodes@[i as int]@);
        if same(nodes[i].name.as_str(), "footnoteId") {
            let found: bool = match attribute(&nodes[i], "id") {
                Some(value) => same(value, id),
                None => false,
            };
            if found && is_under(nodes, i, top) {
                assert(refers_to(all, i as int, top as int, id@));
                return true;
            }
        }
        i += 1;
    }
    false
}

fn list_footnotes(nodes: &Vec<XmlNode>, top: usize) -> (r: Json)
    ensures
        r@ == JsonView::Array(footnote_rows(nodes_view(nodes@), top as int)),
{
    let ghost all = nodes_view(nodes@);
    let ghost wanted = |i: int| is_footnote_of(all, top as int, i);
    let ghost row = |i: int| JsonView::Str(text_or(node_text(all[i]), Seq::empty()));
    let mut rows: Vec<Json> = Vec::new();
    let mut i: usize = 0;
    proof {
        empty_literal();
    }
    assert(items_view(rows@) =~= rows_where(0, wanted, row));
    while i < nodes.len()
        invariant
            i <= nodes@.len(),
            all == nodes_view(nodes@),
            ""@ == Seq::<char>::empty(),
            wanted == (|i: int| is_footnote_of(all, top as int, i)),
            row == (|i: int| JsonView::Str(text_or(node_text(all[i]), Seq::empty()))),
            items_view(rows@) == rows_where(i as nat, wanted, row),
        decreases nodes@.len() - i,
    {
        assert(all[i as int] == nodes@[i as int]@);
        let ghost before = items_view(rows@);
        let listed: bool = same(nodes[i].name.as_str(), "footnote") && match attribute(
            &nodes[i],
            "id",
        ) {
            Some(id) => has_reference(nodes, top, id),
            None => false,
        };
        assert(listed == wanted(i as int));
        if listed {
            rows.push(Json::Str(string_or(text_of_node(&nodes[i]), "")));
            assert(items_view(rows@) =~= before.push(row(i as int)));
        }
        i += 1;
    }
    assert(all.len() == nodes@.len());
    Json::array(rows)
}

fn show_transaction(nodes: &Vec<XmlNode>, p: usize) -> (r: Json)
    requires
        p < nodes@.len(),
    ensures
        r@ == transaction_row(nodes_view(nodes@), p as int),
{
    assert(nodes_view(nodes@)[p as int] == nodes@[p as int]@);
    let code = string_or(text_of_nested(nodes, p, "transactionCoding", "transactionCode"), "");
    let meaning = describe_code(code.as_str());
    let amounts = "transactionAmounts";
    let mut fields: Vec<(String, Json)> = Vec::new();
    proof {
        empty_literal();
    }
    put(
        &mut fields,
        "security",
        optional_string(text_of_nested(nodes, p, "securityTitle", "value")),
    );
    put(
        &mut fields,
        "derivative",
        Json::Bool(same(nodes[p].name.as_str(), "derivativeTransaction")),
    );
    put(
        &mut fields,
        "date",
        optional_string(text_of_nested(nodes, p, "transactionDate", "value")),
    );
    put(&mut fields, "code", Json::Str(code));
    put(&mut fields, "code_description", Json::Str(meaning));
    put(
        &mut fields,
        "shares",
        optional_string(value_of_nested(nodes, p, amounts, "transactionShares")),
    );
    put(
        &mut fields,
        "price_per_share",
        optional_string(value_of_nested(nodes, p, amounts, "transactionPricePerShare")),
    );
    put(
        &mut fields,
        "acquired_disposed_code",
        optional_string(value_of_nested(nodes, p, amounts, "transactionAcquiredDisposedCode")),
    );
    put(
        &mut fields,
        "shares_owned_following",
        optional_string(
            value_of_nested(nodes, p, "postTransactionAmounts", "sharesOwnedFollowingTransaction"),
        ),
    );
    put(
        &mut fields,
        "ownership",
        optional_string(
            value_of_nested(nodes, p, "ownershipNature", "directOrIndirectOwnership"),
        ),
    );
    put(&mut fields, "footnotes", list_footnotes(nodes, p));
    let r = Json::object(fields);
    assert(r@->Object_0 =~= transaction_row(nodes_view(nodes@), p as int)->Object_0);
    r
}

fn list_transactions(nodes: &Vec<XmlNode>) -> (r: Json)
    ensures
        r@ == JsonView::Array(transaction_rows(nodes_view(nodes@))),
{
    let ghost all = nodes_view(nodes@);
    let ghost wanted = |i: int|
        all[i].name == "nonDerivativeTransaction"@ || all[i].name == "derivativeTransaction"@;
    let ghost row = |i: int| transaction_row(all, i);
    let mut rows: Vec<Json> = Vec::new();
    let mut i: usize = 0;
    assert(items_view(rows@) =~= rows_where(0, wanted, row));
    while i < nodes.len()
        invariant
            i <= nodes@.len(),
            all == nodes_view(nodes@),
            wanted == (|i: int|
                all[i].name == "nonDerivativeTransaction"@ || all[i].name
                    == "derivativeTransaction"@),
            row == (|i: int| transaction_row(all, i)),
            items_view(rows@) == rows_where(i as nat, wanted, row),
        decreases nodes@.len() - i,
    {
        assert(all[i as int] == nodes@[i as int]@);
        let ghost before = items_view(rows@);
        let name = nodes[i].name.as_str();
        if same(name, "nonDerivativeTransaction") || same(name, "derivativeTransaction") {
            rows.push(show_transaction(nodes, i));
            assert(items_view(rows@) =~= before.push(row(i as int)));
        }
        i += 1;
    }
    assert(all.len() == nodes@.len());
    Json::array(rows)
}

fn show_holding(nodes: &Vec<XmlNode>, p: usize) -> (r: Json)
    requires
        p < nodes@.len(),
    ensures
        r@ == holding_row(nodes_view(nodes@), p as int),
{
    assert(nodes_view(nodes@)[p as int] == nodes@[p as int]@);
    let underlying = "underlyingSecurity";
    let mut fields: Vec<(String, Json)> = Vec::new();
    put(
        &mut fields,
        "security",
        optional_string(text_of_nested(nodes, p, "securityTitle", "value")),
    );
    put(
        &mut fields,
        "derivative",
        Json::Bool(same(nodes[p].name.as_str(), "derivativeHolding")),
    );
    put(
        &mut fields,
        "shares_owned",
        optional_string(
            value_of_nested(nodes, p, "postTransactionAmounts", "sharesOwnedFollowingTransaction"),
        ),
    );
    put(
        &mut fields,
        "underlying_security",
        optional_string(value_of_nested(nodes, p, underlying, "underlyingSecurityTitle")),
    );
    put(
        &mut fields,
        "underlying_shares",
        optional_string(value_of_nested(nodes, p, underlying, "underlyingSecurityShares")),
    );
    put(
        &mut fields,
        "ownership",
        optional_string(
            value_of_nested(nodes, p, "ownershipNature", "directOrIndirectOwnership"),
        ),
    );
    put(&mut fields, "footnotes", list_footnotes(nodes, p));
    let r = Json::object(fields);
    assert(r@->Object_0 =~= holding_row(nodes_view(nodes@), p as int)->Object_0);
    r
}

fn list_holdings(nodes: &Vec<XmlNode>) -> (r: Vec<Json>)
    ensures
        items_view(r@) == holding_rows(nodes_view(nodes@)),
{
    let ghost all = nodes_view(nodes@);
    let ghost wanted = |i: int|
        all[i].name == "nonDerivativeHolding"@ || all[i].name == "derivativeHolding"@;
    let ghost row = |i: int| holding_row(all, i);
    let mut rows: Vec<Json> = Vec::new();
    let mut i: usize = 0;
    assert(items_view(rows@) =~= rows_where(0, wanted, row));
    while i < nodes.len()
        invariant
            i <= nodes@.len(),
            all == nodes_view(nodes@),
            wanted == (|i: int|
                all[i].name == "nonDerivativeHolding"@ || all[i].name == "derivativeHolding"@),
            row == (|i: int| holding_row(all, i)),
            items_view(rows@) == rows_where(i as nat, wanted, row),
        decreases nodes@.len() - i,
    {
        assert(all[i as int] == nodes@[i as int]@);
        let ghost before = items_view(rows@);
        let name = nodes[i].name.as_str();
        if same(name, "nonDerivativeHolding") || same(name, "derivativeHolding") {
            rows.push(show_holding(nodes, i));
            assert(items_view(rows@) =~= before.push(row(i as int)));
        }
        i += 1;
    }
    assert(all.len() == nodes@.len());
    rows
}

fn show_nothing_owned() -> (r: Json)
    ensures
        r@ == nothing_owned(),
{
    let none: Vec<Json> = Vec::new();
    assert(items_view(none@) =~= Seq::<JsonView>::empty());
    let mut fields: Vec<(String, Json)> = Vec::new();
    put(&mut fields, "security", Json::string("No securities are beneficially owned"));
    put(&mut fields, "derivative", Json::Bool(false));
    put(&mut fields, "shares_owned", Json::string("0"));
    put(&mut fields, "underlying_security", Json::Null);
    put(&mut fields, "underlying_shares", Json::Null);
    put(&mut fields, "ownership", Json::Null);
    put(&mut fields, "footnotes", Json::array(none));
    let r = Json::object(fields);
    assert(r@->Object_0 =~= nothing_owned()->Object_0);
    r
}

fn show_filing(filing: OwnershipFiling) -> (r: Vec<(String, Json)>)
    ensures
        fields_view(r@) == filing_fields(filing@),
{
    let mut fields: Vec<(String, Json)> = Vec::new();
    let ghost shown = filing@;
    put(&mut fields, "form", Json::Str(filing.form));
    put(&mut fields, "date", filing.date);
    put(&mut fields, "accession_number", Json::Str(filing.accession));
    put(&mut fields, "url", Json::Str(filing.url));
    assert(fields_view(fields@) =~= filing_fields(shown));
    fields
}

fn show_error(filing: OwnershipFiling, why: String) -> (r: Json)
    ensures
        r@ == error_row(filing@, why@),
{
    let ghost expected = error_row(filing@, why@);
    let mut fields = show_filing(filing);
    put(&mut fields, "error", Json::Str(why));
    let r = Json::object(fields);
    assert(r@->Object_0 =~= expected->Object_0);
    r
}

/// The row of a filing, from the nodes of its document or from why there are
/// none.
pub fn read_nodes(filing: OwnershipFiling, nodes: Result<Vec<XmlNode>, String>) -> (r: Json)
    ensures
        r@ == document_row(filing@, parse_view(nodes)),
{
    let nodes = match nodes {
        Ok(list) => list,
        Err(why) => return show_error(filing, why),
    };
    let root: usize = match find_child(&nodes, 0, "ownershipDocument") {
        Some(i) => i,
        None => return show_error(filing, owned("the document is no ownership form")),
    };
    let mut holdings = list_holdings(&nodes);
    assert(items_view(holdings@).len() == holdings@.len());
    if same(filing.form.as_str(), "3") && holdings.len() == 0 {
        if !says_yes(&nodes, root, "noSecuritiesOwned") {
            return show_error(
                filing,
                owned("the form reports neither holdings nor that there are none"),
            );
        }
        holdings.push(show_nothing_owned());
        assert(items_view(holdings@) =~= seq![nothing_owned()]);
    }
    let ghost expected = report_row(
        filing@,
        nodes_view(nodes@),
        root as int,
        items_view(holdings@),
    );
    let mut fields = show_filing(filing);
    put(&mut fields, "issuer", show_issuer(&nodes, root));
    put(&mut fields, "insiders", list_insiders(&nodes));
    put(&mut fields, "transactions", list_transactions(&nodes));
    put(&mut fields, "holdings", Json::array(holdings));
    let r = Json::object(fields);
    assert(r@->Object_0 =~= expected->Object_0);
    r
}

/// The document behind a rendered form is the same path without the segment of
/// the style sheet; a path without segments is its own document.
pub proof fn style_sheets_are_stripped(sheet: Seq<char>, document: Seq<char>)
    requires
        !sheet.contains('/'),
    ensures
        raw_document("xsl"@ + sheet + "/"@ + document) == document,
        !document.contains('/') ==> raw_document(document) == document,
{
    reveal_strlit("xsl");
    reveal_strlit("/");
    let path = "xsl"@ + sheet + "/"@ + document;
    let n = 3 + sheet.len() as int;
    assert(path.subrange(0, 3) =~= "xsl"@);
    assert(path[n] == '/');
    assert forall|k: int| 0 <= k < n implies path[k] != '/' by {
        if k >= 3 {
            assert(path[k] == sheet[k - 3]);
        }
    }
    path.index_of_first_ensures('/');
    assert(path.index_of_first('/')->0 == n);
    assert(path.skip(n + 1) =~= document);
}

proof fn row_stands_somewhere(
    n: nat,
    wanted: spec_fn(int) -> bool,
    row: spec_fn(int) -> JsonView,
    k: int,
) -> (i: int)
    requires
        0 <= k < rows_where(n, wanted, row).len(),
    ensures
        0 <= i < n,
        wanted(i),
        rows_where(n, wanted, row)[k] == row(i),
    decreases n,
{
    let rows = rows_where((n - 1) as nat, wanted, row);
    if k < rows.len() {
        row_stands_somewhere((n - 1) as nat, wanted, row, k)
    } else {
        n - 1
    }
}

/// Every transaction has a code and says in words what it means.
pub proof fn transactions_have_codes(nodes: Seq<XmlNodeView>, k: int)
    requires
        0 <= k < transaction_rows(nodes).len(),
    ensures
        transaction_rows(nodes)[k].field("code"@) is Str,
        transaction_rows(nodes)[k].field("code_description"@) == JsonView::Str(
            code_meaning(transaction_rows(nodes)[k].field("code"@)->Str_0),
        ),
{
    let i = row_stands_somewhere(
        nodes.len(),
        |i: int|
            nodes[i].name == "nonDerivativeTransaction"@ || nodes[i].name
                == "derivativeTransaction"@,
        |i: int| transaction_row(nodes, i),
        k,
    );
    reveal_strlit("security");
    reveal_strlit("derivative");
    reveal_strlit("date");
    reveal_strlit("code");
    reveal_strlit("code_description");
    let fields = transaction_row(nodes, i)->Object_0;
    assert(fields[0].0 == "security"@ && fields[1].0 == "derivative"@ && fields[2].0 == "date"@);
    assert(fields[3].0 == "code"@ && fields[4].0 == "code_description"@);
    assert("date"@[0] != "code"@[0]);
    lookup_finds(fields, "code"@, 3);
    lookup_finds(fields, "code_description"@, 4);
}

/// Whether a row tells why its filing could not be read.
pub open spec fn tells_error(row: JsonView) -> bool {
    row.field("error"@) is Str
}

/// Whether a row lists insiders, transactions and holdings.
pub open spec fn tells_ownership(row: JsonView) -> bool {
    &&& row.field("insiders"@) is Array
    &&& row.field("transactions"@) is Array
    &&& row.field("holdings"@) is Array
}

/// A filing is never passed over in silence: its row tells an error or lists
/// insiders, transactions and holdings, and never both. A form 3 that can be
/// read lists at least one holding.
pub proof fn rows_tell_ownership_or_error(
    filing: OwnershipFilingView,
    nodes: Result<Seq<XmlNodeView>, Seq<char>>,
)
    ensures
        ({
            let row = document_row(filing, nodes);
            &&& tells_error(row) || tells_ownership(row)
            &&& tells_ownership(row) ==> row.field("error"@) == JsonView::Null
            &&& tells_ownership(row) && filing.form == "3"@ ==> row.field(
                "holdings"@,
            )->Array_0.len() > 0
            &&& nodes is Err ==> row.field("error"@) == JsonView::Str(nodes->Err_0)
        }),
{
    reveal_strlit("form");
    reveal_strlit("date");
    reveal_strlit("accession_number");
    reveal_strlit("url");
    reveal_strlit("error");
    reveal_strlit("issuer");
    reveal_strlit("insiders");
    reveal_strlit("transactions");
    reveal_strlit("holdings");
    let row = document_row(filing, nodes);
    let fields = row->Object_0;
    assert(fields[0].0 == "form"@ && fields[1].0 == "date"@ && fields[2].0 == "accession_number"@);
    assert(fields[3].0 == "url"@);
    assert("insiders"@[0] != "holdings"@[0]);
    assert("form"@.len() == 4 && "date"@.len() == 4 && "accession_number"@.len() == 16);
    assert("url"@.len() == 3 && "error"@.len() == 5 && "issuer"@.len() == 6);
    assert("insiders"@.len() == 8 && "transactions"@.len() == 12 && "holdings"@.len() == 8);
    if fields.len() == 5 {
        assert(fields[4].0 == "error"@);
        lookup_finds(fields, "error"@, 4);
        lookup_misses(fields, "insiders"@);
    } else {
        assert(fields.len() == 8);
        assert(fields[4].0 == "issuer"@ && fields[5].0 == "insiders"@);
        assert(fields[6].0 == "transactions"@ && fields[7].0 == "holdings"@);
        lookup_misses(fields, "error"@);
        lookup_finds(fields, "insiders"@, 5);
        lookup_finds(fields, "transactions"@, 6);
        lookup_finds(fields, "holdings"@, 7);
    }
}

/// Only the forms that are asked for are read.
pub proof fn filings_are_of_the_form(
    block: JsonView,
    cik_num: Seq<char>,
    wanted: Option<Seq<char>>,
    k: int,
)
    requires
        0 <= k < ownership_filings(block, cik_num, wanted).len(),
    ensures
        is_ownership_form(
            JsonView::Str(ownership_filings(block, cik_num, wanted)[k].form),
            wanted,
        ),
{
    form_before(block, cik_num, wanted, listed_forms(block).len(), k);
}

proof fn form_before(
    block: JsonView,
    cik_num: Seq<char>,
    wanted: Option<Seq<char>>,
    n: nat,
    k: int,
)
    requires
        0 <= k < ownership_filings_before(block, cik_num, wanted, n).len(),
    ensures
        is_ownership_form(
            JsonView::Str(ownership_filings_before(block, cik_num, wanted, n)[k].form),
            wanted,
        ),
    decreases n,
{
    if k < ownership_filings_before(block, cik_num, wanted, (n - 1) as nat).len() {
        form_before(block, cik_num, wanted, (n - 1) as nat, k);
    }
}

/// The wanted positions all have their row, each once and in their order.
pub proof fn every_wanted_position_has_its_row(
    n: nat,
    wanted: spec_fn(int) -> bool,
    row: spec_fn(int) -> JsonView,
)
    ensures
        rows_where(n, wanted, row) == Seq::new(n, |i: int| i).filter(wanted).map_values(row),
{
    rows_before_are_wanted(n, n, wanted, row);
    assert(Seq::new(n, |i: int| i).take(n as int) =~= Seq::new(n, |i: int| i));
}

proof fn rows_before_are_wanted(
    n: nat,
    total: nat,
    wanted: spec_fn(int) -> bool,
    row: spec_fn(int) -> JsonView,
)
    requires
        n <= total,
    ensures
        rows_where(n, wanted, row) == Seq::new(total, |i: int| i).take(n as int).filter(
            wanted,
        ).map_values(row),
    decreases n,
{
    let positions = Seq::new(total, |i: int| i);
    if n == 0 {
        reveal(Seq::filter);
        assert(positions.take(0).filter(wanted).map_values(row) =~= Seq::<JsonView>::empty());
    } else {
        rows_before_are_wanted((n - 1) as nat, total, wanted, row);
        filter_grows(positions, n - 1, wanted);
        let kept = positions.take(n - 1).filter(wanted);
        assert(positions[n - 1] == n - 1);
        assert(kept.push(n - 1).map_values(row) =~= kept.map_values(row).push(row(n - 1)));
    }
}

/// Whether a form is to be read: it is the one that is named, or where none is
/// named a `3`, a `4` or a `5`.
pub open spec fn is_to_be_read(form: JsonView, wanted: Option<Seq<char>>) -> bool {
    match wanted {
        Some(name) => form == JsonView::Str(name),
        None => form == JsonView::Str("3"@) || form == JsonView::Str("4"@) || form == JsonView::Str(
            "5"@,
        ),
    }
}

proof fn filings_before_are_to_be_read(
    block: JsonView,
    forms: Seq<JsonView>,
    cik_num: Seq<char>,
    wanted: Option<Seq<char>>,
    n: nat,
)
    requires
        block.field("form"@) == JsonView::Array(forms),
        n <= forms.len(),
    ensures
        ownership_filings_before(block, cik_num, wanted, n) == Seq::new(
            forms.len(),
            |i: int| i,
        ).take(n as int).filter(|i: int| is_to_be_read(forms[i], wanted)).map_values(
            |i: int| ownership_filing(block, cik_num, i),
        ),
    decreases n,
{
    let positions = Seq::new(forms.len(), |i: int| i);
    let hit = |i: int| is_to_be_read(forms[i], wanted);
    let row = |i: int| ownership_filing(block, cik_num, i);
    if n == 0 {
        reveal(Seq::filter);
        assert(positions.take(0).filter(hit).map_values(row)
            =~= Seq::<OwnershipFilingView>::empty());
    } else {
        filings_before_are_to_be_read(block, forms, cik_num, wanted, (n - 1) as nat);
        filter_grows(positions, n - 1, hit);
        let kept = positions.take(n - 1).filter(hit);
        assert(positions[n - 1] == n - 1);
        assert(kept.push(n - 1).map_values(row) =~= kept.map_values(row).push(row(n - 1)));
    }
}

/// Of the positions of the form column exactly those whose form is to be read
/// are taken, each once and in their order. A block without that column has
/// none.
pub proof fn every_ownership_form_is_taken(
    block: JsonView,
    forms: Seq<JsonView>,
    cik_num: Seq<char>,
    wanted: Option<Seq<char>>,
)
    ensures
        block.field("form"@) == JsonView::Array(forms) ==> ownership_filings(block, cik_num, wanted)
            == Seq::new(forms.len(), |i: int| i).filter(
            |i: int| is_to_be_read(forms[i], wanted),
        ).map_values(|i: int| ownership_filing(block, cik_num, i)),
        block.field("form"@) !is Array ==> ownership_filings(block, cik_num, wanted).len() == 0,
{
    if block.field("form"@) == JsonView::Array(forms) {
        let positions = Seq::new(forms.len(), |i: int| i);
        filings_before_are_to_be_read(block, forms, cik_num, wanted, forms.len());
        assert(positions.take(forms.len() as int) =~= positions);
    }
}

/// A form that is to be read holds what the columns hold at its position, and
/// the address of its document: the CIK, the accession number without dashes
/// and the document without its style sheet.
pub proof fn ownership_filings_hold_the_columns(
    block: JsonView,
    forms: Seq<JsonView>,
    cik_num: Seq<char>,
    i: int,
)
    requires
        block.field("form"@) == JsonView::Array(forms),
        0 <= i < forms.len(),
    ensures
        ({
            let filing = ownership_filing(block, cik_num, i);
            let accession = text_in(item_of(block.field("accessionNumber"@), i));
            let document = text_in(item_of(block.field("primaryDocument"@), i));
            &&& filing.form == text_in(forms[i])
            &&& filing.date == item_of(block.field("filingDate"@), i)
            &&& filing.accession == accession
            &&& filing.url == "https://www.sec.gov/Archives/edgar/data/"@ + cik_num + "/"@
                + accession.filter(|c: char| c != '-') + "/"@ + raw_document(document)
        }),
{
    replacing_by_nothing_filters(text_in(item_of(block.field("accessionNumber"@), i)), '-');
}

/// Only what begins like a style sheet is stripped of its first segment.
pub proof fn other_documents_stay(document: Seq<char>)
    requires
        document.len() < 3 || document.take(3) != seq!['x', 's', 'l'],
    ensures
        raw_document(document) == document,
{
    reveal_strlit("xsl");
    assert("xsl"@ =~= seq!['x', 's', 'l']);
    if stands_at(document, "xsl"@, 0) {
        assert(document.subrange(0, 3) =~= document.take(3));
    }
}

/// Every owner, every transaction and every holding that a form names has its
/// row, each once and in the order of the document.
pub proof fn every_element_has_its_row(nodes: Seq<XmlNodeView>)
    ensures
        insider_rows(nodes) == Seq::new(nodes.len(), |i: int| i).filter(
            |i: int| nodes[i].name == "reportingOwner"@,
        ).map_values(|i: int| insider_row(nodes, i)),
        transaction_rows(nodes) == Seq::new(nodes.len(), |i: int| i).filter(
            |i: int|
                nodes[i].name == "nonDerivativeTransaction"@ || nodes[i].name
                    == "derivativeTransaction"@,
        ).map_values(|i: int| transaction_row(nodes, i)),
        holding_rows(nodes) == Seq::new(nodes.len(), |i: int| i).filter(
            |i: int|
                nodes[i].name == "nonDerivativeHolding"@ || nodes[i].name == "derivativeHolding"@,
        ).map_values(|i: int| holding_row(nodes, i)),
{
    every_wanted_position_has_its_row(
        nodes.len(),
        |i: int| nodes[i].name == "reportingOwner"@,
        |i: int| insider_row(nodes, i),
    );
    every_wanted_position_has_its_row(
        nodes.len(),
        |i: int|
            nodes[i].name == "nonDerivativeTransaction"@ || nodes[i].name
                == "derivativeTransaction"@,
        |i: int| transaction_row(nodes, i),
    );
    every_wanted_position_has_its_row(
        nodes.len(),
        |i: int|
            nodes[i].name == "nonDerivativeHolding"@ || nodes[i].name == "derivativeHolding"@,
        |i: int| holding_row(nodes, i),
    );
}

/// Whether the node at `i` is a footnote and some node under `top` carries its
/// id.
pub open spec fn is_cited(nodes: Seq<XmlNodeView>, top: int, i: int) -> bool {
    &&& nodes[i].name == "footnote"@
    &&& exists|k: int| #[trigger] cites(nodes, top, i, k)
}

/// Whether the node at `k` stands under `top` and carries the id of the node at
/// `i`.
pub open spec fn cites(nodes: Seq<XmlNodeView>, top: int, i: int, k: int) -> bool {
    &&& 0 <= k < nodes.len()
    &&& nodes[k].name == "footnoteId"@
    &&& stands_under(nodes, k, top)
    &&& attribute_of(nodes[k].attributes, "id"@) is Some
    &&& attribute_of(nodes[k].attributes, "id"@) == attribute_of(nodes[i].attributes, "id"@)
}

/// The footnotes of something are all that it cites, each once and in the order
/// of the document, with their texts.
pub proof fn every_cited_footnote_is_resolved(nodes: Seq<XmlNodeView>, top: int)
    ensures
        footnote_rows(nodes, top) == Seq::new(nodes.len(), |i: int| i).filter(
            |i: int| is_cited(nodes, top, i),
        ).map_values(
            |i: int|
                match node_text(nodes[i]) {
                    Some(text) => JsonView::Str(text),
                    None => JsonView::Str(Seq::empty()),
                },
        ),
{
    let wanted = |i: int| is_footnote_of(nodes, top, i);
    let row = |i: int| JsonView::Str(text_or(node_text(nodes[i]), Seq::empty()));
    every_wanted_position_has_its_row(nodes.len(), wanted, row);
    let cited = |i: int| is_cited(nodes, top, i);
    assert forall|i: int| #[trigger] wanted(i) == cited(i) by {
        if is_footnote_of(nodes, top, i) {
            let id = attribute_of(nodes[i].attributes, "id"@)->0;
            let k = choose|k: int| 0 <= k < nodes.len() && #[trigger] refers_to(nodes, k, top, id);
            assert(cites(nodes, top, i, k));
        }
        if is_cited(nodes, top, i) {
            let k = choose|k: int| #[trigger] cites(nodes, top, i, k);
            let id = attribute_of(nodes[i].attributes, "id"@)->0;
            assert(refers_to(nodes, k, top, id));
        }
    }
    assert(wanted =~= cited);
    let shown = |i: int|
        match node_text(nodes[i]) {
            Some(text) => JsonView::Str(text),
            None => JsonView::Str(Seq::empty()),
        };
    assert(row =~= shown);
}

/// A text as a value; null where there is none.
pub open spec fn text_or_null(text: Option<Seq<char>>) -> JsonView {
    if text is Some {
        JsonView::Str(text->0)
    } else {
        JsonView::Null
    }
}

/// A transaction is shown with all that the form says of it, each under its own
/// name; its code is shown as it stands.
pub proof fn transactions_are_shown_in_full(nodes: Seq<XmlNodeView>, p: int)
    ensures
        ({
            let row = transaction_row(nodes, p);
            let code = match nested_text(nodes, p, "transactionCoding"@, "transactionCode"@) {
                Some(text) => text,
                None => Seq::empty(),
            };
            &&& row.field("security"@) == text_or_null(nested_text(nodes, p, "securityTitle"@, "value"@))
            &&& row.field("derivative"@) == JsonView::Bool(
                nodes[p].name == "derivativeTransaction"@,
            )
            &&& row.field("date"@) == text_or_null(nested_text(nodes, p, "transactionDate"@, "value"@))
            &&& row.field("code"@) == JsonView::Str(code)
            &&& row.field("code_description"@) == JsonView::Str(code_meaning(code))
            &&& row.field("shares"@) == text_or_null(nested_value(nodes, p, "transactionAmounts"@, "transactionShares"@))
            &&& row.field("price_per_share"@) == text_or_null(nested_value(nodes, p, "transactionAmounts"@, "transactionPricePerShare"@))
            &&& row.field("acquired_disposed_code"@) == text_or_null(nested_value(nodes, p, "transactionAmounts"@, "transactionAcquiredDisposedCode"@))
            &&& row.field("shares_owned_following"@) == text_or_null(nested_value(nodes, p, "postTransactionAmounts"@, "sharesOwnedFollowingTransaction"@))
            &&& row.field("ownership"@) == text_or_null(nested_value(nodes, p, "ownershipNature"@, "directOrIndirectOwnership"@))
            &&& row.field("footnotes"@) == JsonView::Array(footnote_rows(nodes, p))
        }),
{
    reveal_strlit("security");
    reveal_strlit("derivative");
    reveal_strlit("date");
    reveal_strlit("code");
    reveal_strlit("code_description");
    reveal_strlit("shares");
    reveal_strlit("price_per_share");
    reveal_strlit("acquired_disposed_code");
    reveal_strlit("shares_owned_following");
    reveal_strlit("ownership");
    reveal_strlit("footnotes");
    assert("security"@.len() == 8);
    assert("derivative"@.len() == 10);
    assert("date"@.len() == 4);
    assert("code"@.len() == 4);
    assert("code_description"@.len() == 16);
    assert("shares"@.len() == 6);
    assert("price_per_share"@.len() == 15);
    assert("acquired_disposed_code"@.len() == 22);
    assert("shares_owned_following"@.len() == 22);
    assert("ownership"@.len() == 9);
    assert("footnotes"@.len() == 9);
    assert("date"@[0] == 'd' && "code"@[0] == 'c');
    assert("acquired_disposed_code"@[0] == 'a' && "shares_owned_following"@[0] == 's');
    assert("ownership"@[0] == 'o' && "footnotes"@[0] == 'f');
    let fields = transaction_row(nodes, p)->Object_0;
    assert(fields[0].0 == "security"@);
    assert(fields[1].0 == "derivative"@);
    assert(fields[2].0 == "date"@);
    assert(fields[3].0 == "code"@);
    assert(fields[4].0 == "code_description"@);
    assert(fields[5].0 == "shares"@);
    assert(fields[6].0 == "price_per_share"@);
    assert(fields[7].0 == "acquired_disposed_code"@);
    assert(fields[8].0 == "shares_owned_following"@);
    assert(fields[9].0 == "ownership"@);
    assert(fields[10].0 == "footnotes"@);
    lookup_finds(fields, "security"@, 0);
    lookup_finds(fields, "derivative"@, 1);
    lookup_finds(fields, "date"@, 2);
    lookup_finds(fields, "code"@, 3);
    lookup_finds(fields, "code_description"@, 4);
    lookup_finds(fields, "shares"@, 5);
    lookup_finds(fields, "price_per_share"@, 6);
    lookup_finds(fields, "acquired_disposed_code"@, 7);
    lookup_finds(fields, "shares_owned_following"@, 8);
    lookup_finds(fields, "ownership"@, 9);
    lookup_finds(fields, "footnotes"@, 10);
}

/// A holding is shown with all that the form says of it, each under its own
/// name.
pub proof fn holdings_are_shown_in_full(nodes: Seq<XmlNodeView>, p: int)
    ensures
        ({
            let row = holding_row(nodes, p);
            &&& row.field("security"@) == text_or_null(nested_text(nodes, p, "securityTitle"@, "value"@))
            &&& row.field("derivative"@) == JsonView::Bool(
                nodes[p].name == "derivativeHolding"@,
            )
            &&& row.field("shares_owned"@) == text_or_null(nested_value(nodes, p, "postTransactionAmounts"@, "sharesOwnedFollowingTransaction"@))
            &&& row.field("underlying_security"@) == text_or_null(nested_value(nodes, p, "underlyingSecurity"@, "underlyingSecurityTitle"@))
            &&& row.field("underlying_shares"@) == text_or_null(nested_value(nodes, p, "underlyingSecurity"@, "underlyingSecurityShares"@))
            &&& row.field("ownership"@) == text_or_null(nested_value(nodes, p, "ownershipNature"@, "directOrIndirectOwnership"@))
            &&& row.field("footnotes"@) == JsonView::Array(footnote_rows(nodes, p))
        }),
{
    reveal_strlit("security");
    reveal_strlit("derivative");
    reveal_strlit("shares_owned");
    reveal_strlit("underlying_security");
    reveal_strlit("underlying_shares");
    reveal_strlit("ownership");
    reveal_strlit("footnotes");
    assert("security"@.len() == 8);
    assert("derivative"@.len() == 10);
    assert("shares_owned"@.len() == 12);
    assert("underlying_security"@.len() == 19);
    assert("underlying_shares"@.len() == 17);
    assert("ownership"@.len() == 9);
    assert("footnotes"@.len() == 9);
    assert("ownership"@[0] == 'o' && "footnotes"@[0] == 'f');
    let fields = holding_row(nodes, p)->Object_0;
    assert(fields[0].0 == "security"@);
    assert(fields[1].0 == "derivative"@);
    assert(fields[2].0 == "shares_owned"@);
    assert(fields[3].0 == "underlying_security"@);
    assert(fields[4].0 == "underlying_shares"@);
    assert(fields[5].0 == "ownership"@);
    assert(fields[6].0 == "footnotes"@);
    lookup_finds(fields, "security"@, 0);
    lookup_finds(fields, "derivative"@, 1);
    lookup_finds(fields, "shares_owned"@, 2);
    lookup_finds(fields, "underlying_security"@, 3);
    lookup_finds(fields, "underlying_shares"@, 4);
    lookup_finds(fields, "ownership"@, 5);
    lookup_finds(fields, "footnotes"@, 6);
}

/// An insider is shown by name, CIK and role. The role names everything that
/// the form says the insider is: director, officer by title, ten-percent owner
/// and other.
pub proof fn insiders_are_shown_in_full(nodes: Seq<XmlNodeView>, owner: usize, relation: int)
    ensures
        ({
            let row = insider_row(nodes, owner as int);
            let director = if is_set(nodes, relation, "isDirector"@) {
                seq!["Director"@]
            } else {
                Seq::empty()
            };
            let officer = if !is_set(nodes, relation, "isOfficer"@) {
                Seq::empty()
            } else {
                match child_text(nodes, relation, "officerTitle"@) {
                    Some(title) => seq![title],
                    None => seq!["Officer"@],
                }
            };
            let large = if is_set(nodes, relation, "isTenPercentOwner"@) {
                seq!["10% owner"@]
            } else {
                Seq::empty()
            };
            let other = if !is_set(nodes, relation, "isOther"@) {
                Seq::empty()
            } else {
                match child_text(nodes, relation, "otherText"@) {
                    Some(text) => seq![text],
                    None => seq!["Other"@],
                }
            };
            &&& row.field("name"@) == text_or_null(
                nested_text(nodes, owner as int, "reportingOwnerId"@, "rptOwnerName"@),
            )
            &&& row.field("cik"@) == text_or_null(
                nested_text(nodes, owner as int, "reportingOwnerId"@, "rptOwnerCik"@),
            )
            &&& is_first_child(nodes, relation, owner, "reportingOwnerRelationship"@) ==> row.field(
                "role"@,
            ) == JsonView::Str(joined(director + officer + large + other, ", "@))
        }),
{
    reveal_strlit("name");
    reveal_strlit("cik");
    reveal_strlit("role");
    assert("name"@.len() == 4);
    assert("cik"@.len() == 3);
    assert("role"@.len() == 4);
    assert("name"@[0] == 'n' && "role"@[0] == 'r');
    let fields = insider_row(nodes, owner as int)->Object_0;
    assert(fields[0].0 == "name"@);
    assert(fields[1].0 == "cik"@);
    assert(fields[2].0 == "role"@);
    lookup_finds(fields, "name"@, 0);
    lookup_finds(fields, "cik"@, 1);
    lookup_finds(fields, "role"@, 2);
    children_are_found(nodes, relation, owner, "reportingOwnerRelationship"@);
}

/// The company that a form is filed for is shown by CIK, name and symbol.
pub proof fn issuers_are_shown_in_full(nodes: Seq<XmlNodeView>, root: int)
    ensures
        ({
            let row = issuer_row(nodes, root);
            &&& row.field("cik"@) == text_or_null(
                nested_text(nodes, root, "issuer"@, "issuerCik"@),
            )
            &&& row.field("name"@) == text_or_null(
                nested_text(nodes, root, "issuer"@, "issuerName"@),
            )
            &&& row.field("symbol"@) == text_or_null(
                nested_text(nodes, root, "issuer"@, "issuerTradingSymbol"@),
            )
        }),
{
    reveal_strlit("cik");
    reveal_strlit("name");
    reveal_strlit("symbol");
    assert("cik"@.len() == 3);
    assert("name"@.len() == 4);
    assert("symbol"@.len() == 6);
    let fields = issuer_row(nodes, root)->Object_0;
    assert(fields[0].0 == "cik"@);
    assert(fields[1].0 == "name"@);
    assert(fields[2].0 == "symbol"@);
    lookup_finds(fields, "cik"@, 0);
    lookup_finds(fields, "name"@, 1);
    lookup_finds(fields, "symbol"@, 2);
}

/// A form that can be read is shown with its filing, its company and all of its
/// insiders, transactions and holdings. A form 3 without holdings can be read
/// where it says that there are none.
pub proof fn readable_forms_are_shown_in_full(
    filing: OwnershipFilingView,
    nodes: Seq<XmlNodeView>,
    root: int,
)
    requires
        is_first_child(nodes, root, 0, "ownershipDocument"@),
    ensures
        ({
            let row = document_row(filing, Ok(nodes));
            let silent = filing.form == "3"@ && holding_rows(nodes).len() == 0;
            let none_owned = is_set(nodes, root, "noSecuritiesOwned"@);
            &&& row.field("form"@) == JsonView::Str(filing.form)
            &&& row.field("date"@) == filing.date
            &&& row.field("accession_number"@) == JsonView::Str(filing.accession)
            &&& row.field("url"@) == JsonView::Str(filing.url)
            &&& !silent || none_owned ==> {
                &&& row.field("issuer"@) == issuer_row(nodes, root)
                &&& row.field("insiders"@) == JsonView::Array(insider_rows(nodes))
                &&& row.field("transactions"@) == JsonView::Array(transaction_rows(nodes))
            }
            &&& !silent ==> row.field("holdings"@) == JsonView::Array(holding_rows(nodes))
            &&& silent && none_owned ==> row.field("holdings"@) is Array && row.field(
                "holdings"@,
            )->Array_0 == seq![nothing_owned()] && nothing_owned().field("shares_owned"@)
                == JsonView::Str("0"@)
            &&& silent && !none_owned ==> row.field("error"@) is Str
        }),
{
    reveal_strlit("form");
    reveal_strlit("date");
    reveal_strlit("accession_number");
    reveal_strlit("url");
    reveal_strlit("error");
    reveal_strlit("issuer");
    reveal_strlit("insiders");
    reveal_strlit("transactions");
    reveal_strlit("holdings");
    assert("form"@.len() == 4);
    assert("date"@.len() == 4);
    assert("accession_number"@.len() == 16);
    assert("url"@.len() == 3);
    assert("error"@.len() == 5);
    assert("issuer"@.len() == 6);
    assert("insiders"@.len() == 8);
    assert("transactions"@.len() == 12);
    assert("holdings"@.len() == 8);
    assert("form"@[0] == 'f' && "date"@[0] == 'd');
    assert("insiders"@[0] == 'i' && "holdings"@[0] == 'h');
    children_are_found(nodes, root, 0, "ownershipDocument"@);
    let none = nothing_owned()->Object_0;
    reveal_strlit("security");
    reveal_strlit("derivative");
    reveal_strlit("shares_owned");
    assert("security"@.len() == 8 && "derivative"@.len() == 10 && "shares_owned"@.len() == 12);
    assert(none[0].0 == "security"@ && none[1].0 == "derivative"@ && none[2].0 == "shares_owned"@);
    lookup_finds(none, "shares_owned"@, 2);
    let fields = document_row(filing, Ok(nodes))->Object_0;
    assert(fields[0].0 == "form"@ && fields[1].0 == "date"@ && fields[2].0 == "accession_number"@);
    assert(fields[3].0 == "url"@);
    lookup_finds(fields, "form"@, 0);
    lookup_finds(fields, "date"@, 1);
    lookup_finds(fields, "accession_number"@, 2);
    lookup_finds(fields, "url"@, 3);
    if fields.len() == 5 {
        assert(fields[4].0 == "error"@);
        lookup_finds(fields, "error"@, 4);
    } else {
        assert(fields[4].0 == "issuer"@ && fields[5].0 == "insiders"@);
        assert(fields[6].0 == "transactions"@ && fields[7].0 == "holdings"@);
        lookup_finds(fields, "issuer"@, 4);
        lookup_finds(fields, "insiders"@, 5);
        lookup_finds(fields, "transactions"@, 6);
        lookup_finds(fields, "holdings"@, 7);
    }
}

/// A document that is fetched is read by what it holds; one that is not, or
/// that is no XML, is told with the reason.
pub proof fn unread_documents_tell_why(text: Seq<char>, why: Seq<char>)
    ensures
        document_nodes(Err(why)) == Err::<Seq<XmlNodeView>, _>(why),
        parsed_xml(text) matches Ok(nodes) ==> document_nodes(Ok(text)) == Ok::<_, Seq<char>>(
            nodes,
        ),
        parsed_xml(text) matches Err(cause) ==> document_nodes(Ok(text)) == Err::<
            Seq<XmlNodeView>,
            _,
        >("failed to parse the document: "@ + cause),
{
}

/// The transaction codes of the ownership forms with what they mean.
pub open spec fn code_table() -> Seq<(Seq<char>, Seq<char>)> {
    seq![
        ("P"@, "Open market or private purchase"@),
        ("S"@, "Open market or private sale"@),
        ("V"@, "Transaction voluntarily reported earlier than required"@),
        ("A"@, "Grant, award or other acquisition from the issuer"@),
        ("D"@, "Disposition to the issuer"@),
        ("F"@, "Shares withheld or delivered to cover tax or an exercise price, not a sale"@),
        ("I"@, "Discretionary transaction in an employee benefit plan"@),
        ("M"@, "Exercise or conversion of an exempt derivative security"@),
        ("C"@, "Conversion of a derivative security"@),
        ("E"@, "Expiration of a short derivative position"@),
        ("H"@, "Expiration or cancellation of a long derivative position with value received"@),
        ("O"@, "Exercise of an out-of-the-money derivative security"@),
        ("X"@, "Exercise of an in-the-money or at-the-money derivative security"@),
        ("G"@, "Bona fide gift"@),
        ("L"@, "Small acquisition"@),
        ("W"@, "Acquisition or disposition by will or the laws of descent and distribution"@),
        ("Z"@, "Deposit into or withdrawal from a voting trust"@),
        ("J"@, "Other acquisition or disposition, described in the footnotes"@),
        ("K"@, "Equity swap or similar transaction"@),
        ("U"@, "Disposition in a tender of shares in a change of control"@),
    ]
}

/// Every code of the table has its own meaning, and a code that is not in it is
/// called unknown.
pub proof fn codes_mean_what_the_table_says(code: Seq<char>, k: int)
    requires
        0 <= k < 20,
    ensures
        code_meaning(code_table()[k].0) == code_table()[k].1,
        (forall|i: int| 0 <= i < 20 ==> (#[trigger] code_table()[i]).0 != code) ==> code_meaning(
            code,
        ) == "Unknown transaction code"@,
{
    reveal_strlit("P");
    reveal_strlit("S");
    reveal_strlit("V");
    reveal_strlit("A");
    reveal_strlit("D");
    reveal_strlit("F");
    reveal_strlit("I");
    reveal_strlit("M");
    reveal_strlit("C");
    reveal_strlit("E");
    reveal_strlit("H");
    reveal_strlit("O");
    reveal_strlit("X");
    reveal_strlit("G");
    reveal_strlit("L");
    reveal_strlit("W");
    reveal_strlit("Z");
    reveal_strlit("J");
    reveal_strlit("K");
    reveal_strlit("U");
    let table = code_table();
    assert("P"@[0] == 'P' && table[0] == ("P"@, "Open market or private purchase"@));
    assert("S"@[0] == 'S' && table[1] == ("S"@, "Open market or private sale"@));
    assert("V"@[0] == 'V' && table[2] == ("V"@, "Transaction voluntarily reported earlier than required"@));
    assert("A"@[0] == 'A' && table[3] == ("A"@, "Grant, award or other acquisition from the issuer"@));
    assert("D"@[0] == 'D' && table[4] == ("D"@, "Disposition to the issuer"@));
    assert("F"@[0] == 'F' && table[5] == ("F"@, "Shares withheld or delivered to cover tax or an exercise price, not a sale"@));
    assert("I"@[0] == 'I' && table[6] == ("I"@, "Discretionary transaction in an employee benefit plan"@));
    assert("M"@[0] == 'M' && table[7] == ("M"@, "Exercise or conversion of an exempt derivative security"@));
    assert("C"@[0] == 'C' && table[8] == ("C"@, "Conversion of a derivative security"@));
    assert("E"@[0] == 'E' && table[9] == ("E"@, "Expiration of a short derivative position"@));
    assert("H"@[0] == 'H' && table[10] == ("H"@, "Expiration or cancellation of a long derivative position with value received"@));
    assert("O"@[0] == 'O' && table[11] == ("O"@, "Exercise of an out-of-the-money derivative security"@));
    assert("X"@[0] == 'X' && table[12] == ("X"@, "Exercise of an in-the-money or at-the-money derivative security"@));
    assert("G"@[0] == 'G' && table[13] == ("G"@, "Bona fide gift"@));
    assert("L"@[0] == 'L' && table[14] == ("L"@, "Small acquisition"@));
    assert("W"@[0] == 'W' && table[15] == ("W"@, "Acquisition or disposition by will or the laws of descent and distribution"@));
    assert("Z"@[0] == 'Z' && table[16] == ("Z"@, "Deposit into or withdrawal from a voting trust"@));
    assert("J"@[0] == 'J' && table[17] == ("J"@, "Other acquisition or disposition, described in the footnotes"@));
    assert("K"@[0] == 'K' && table[18] == ("K"@, "Equity swap or similar transaction"@));
    assert("U"@[0] == 'U' && table[19] == ("U"@, "Disposition in a tender of shares in a change of control"@));
}

} // verus!
