//! Filings: rows out of the column-major blocks in which EDGAR lists them.

use vstd::prelude::*;
use crate::json::{
    Json, JsonView, cell_at, cell_copy, item_of, items_view, lookup_finds, put, text_in, text_or,
    text_view,
};
use crate::lists::{at_most, filter_grows};
use crate::text::{empty_literal, replacing_by_nothing_filters, same};
use crate::urls::{archive_address, archive_url};

verus! {

/// Whether a filing's form passes an optional filter.
pub open spec fn form_matches(form: JsonView, filter: Option<Seq<char>>) -> bool {
    match filter {
        Some(wanted) => text_or(form.as_str(), Seq::empty()) == wanted,
        None => true,
    }
}

/// One column of a block.
pub open spec fn column(block: JsonView, key: Seq<char>) -> Option<Seq<JsonView>> {
    block.field(key).as_array()
}

/// The forms that a block lists; none where it has no such column.
pub open spec fn listed_forms(block: JsonView) -> Seq<JsonView> {
    match column(block, "form"@) {
        Some(forms) => forms,
        None => Seq::empty(),
    }
}

/// The row of the filing at one position of a block.
pub open spec fn filing_row(block: JsonView, cik_num: Seq<char>, i: int) -> JsonView {
    let accession = text_or(cell_at(column(block, "accessionNumber"@), i).as_str(), Seq::empty());
    let document = text_or(cell_at(column(block, "primaryDocument"@), i).as_str(), Seq::empty());
    JsonView::Object(
        seq![
            ("form"@, listed_forms(block)[i]),
            ("date"@, cell_at(column(block, "filingDate"@), i)),
            ("description"@, cell_at(column(block, "primaryDocDescription"@), i)),
            ("accession_number"@, JsonView::Str(accession)),
            ("url"@, JsonView::Str(archive_address(cik_num, accession, document))),
        ],
    )
}

/// The rows of those among the first `n` filings of a block that pass the
/// filter, in the order of the block.
pub open spec fn rows_before(
    block: JsonView,
    cik_num: Seq<char>,
    filter: Option<Seq<char>>,
    n: nat,
) -> Seq<JsonView>
    decreases n,
{
    if n == 0 {
        Seq::empty()
    } else {
        let rows = rows_before(block, cik_num, filter, (n - 1) as nat);
        if form_matches(listed_forms(block)[n - 1], filter) {
            rows.push(filing_row(block, cik_num, n - 1))
        } else {
            rows
        }
    }
}

/// The rows of all filings of a block that pass the filter.
pub open spec fn filing_rows(
    block: JsonView,
    cik_num: Seq<char>,
    filter: Option<Seq<char>>,
) -> Seq<JsonView> {
    rows_before(block, cik_num, filter, listed_forms(block).len())
}

proof fn rows_before_is_prefix(
    block: JsonView,
    cik_num: Seq<char>,
    filter: Option<Seq<char>>,
    n: nat,
    m: nat,
)
    requires
        n <= m,
    ensures
        rows_before(block, cik_num, filter, n).len() <= rows_before(block, cik_num, filter, m).len(),
        rows_before(block, cik_num, filter, m).take(
            rows_before(block, cik_num, filter, n).len() as int,
        ) == rows_before(block, cik_num, filter, n),
    decreases m,
{
    let short = rows_before(block, cik_num, filter, n);
    let long = rows_before(block, cik_num, filter, m);
    if n < m {
        rows_before_is_prefix(block, cik_num, filter, n, (m - 1) as nat);
        let mid = rows_before(block, cik_num, filter, (m - 1) as nat);
        assert(long.take(short.len() as int) =~= mid.take(short.len() as int));
    } else {
        assert(long.take(short.len() as int) =~= short);
    }
}

/// The text at a position of an optional array; empty where there is none.
pub(crate) fn cell_text<'a>(items: Option<&'a Vec<Json>>, i: usize) -> (r: &'a str)
    ensures
        r@ == match items {
            Some(a) => text_or(cell_at(Some(items_view(a@)), i as int).as_str(), Seq::empty()),
            None => Seq::empty(),
        },
{
    proof {
        empty_literal();
    }
    match items {
        Some(a) => if i < a.len() {
            match a[i].as_str() {
                Some(s) => s,
                None => "",
            }
        } else {
            ""
        },
        None => "",
    }
}

fn passes(form: &Json, filter: Option<&str>) -> (r: bool)
    ensures
        r == form_matches(form@, text_view(filter)),
{
    proof {
        empty_literal();
    }
    match filter {
        Some(wanted) => {
            let found = match form.as_str() {
                Some(s) => s,
                None => "",
            };
            same(found, wanted)
        },
        None => true,
    }
}

/// Appends the filings of one column-major block to `out`, row by row, until
/// `out` holds `limit` rows. The block is the `filings.recent` of a submissions
/// file or a whole file of older submissions: both are laid out alike.
pub fn collect_filings(
    block: &Json,
    cik_num: &str,
    form_filter: Option<&str>,
    limit: usize,
    out: &mut Vec<Json>,
)
    ensures
        items_view(final(out)@) == items_view(old(out)@) + at_most(
            filing_rows(block@, cik_num@, text_view(form_filter)),
            limit - old(out)@.len(),
        ),
{
    let ghost start = items_view(out@);
    let ghost filter = text_view(form_filter);
    let ghost total = listed_forms(block@).len();
    let forms = match block.array_field("form") {
        Some(f) => f,
        None => {
            assert(items_view(out@) =~= start + Seq::<JsonView>::empty());
            return ;
        },
    };
    let dates = block.array_field("filingDate");
    let accs = block.array_field("accessionNumber");
    let docs = block.array_field("primaryDocument");
    let descs = block.array_field("primaryDocDescription");
    let mut i: usize = 0;
    assert(start + Seq::<JsonView>::empty() =~= start);
    while i < forms.len()
        invariant
            i <= forms@.len(),
            forms@.len() == total,
            items_view(forms@) == listed_forms(block@),
            filter == text_view(form_filter),
            dates is Some <==> column(block@, "filingDate"@) is Some,
            dates is Some ==> items_view(dates->0@) == column(block@, "filingDate"@)->0,
            accs is Some <==> column(block@, "accessionNumber"@) is Some,
            accs is Some ==> items_view(accs->0@) == column(block@, "accessionNumber"@)->0,
            docs is Some <==> column(block@, "primaryDocument"@) is Some,
            docs is Some ==> items_view(docs->0@) == column(block@, "primaryDocument"@)->0,
            descs is Some <==> column(block@, "primaryDocDescription"@) is Some,
            descs is Some ==> items_view(descs->0@) == column(
                block@,
                "primaryDocDescription"@,
            )->0,
            start == items_view(old(out)@),
            total == listed_forms(block@).len(),
            items_view(out@) == start + rows_before(block@, cik_num@, filter, i as nat),
            out@.len() <= limit || rows_before(block@, cik_num@, filter, i as nat).len() == 0,
        decreases forms@.len() - i,
    {
        let ghost rows = rows_before(block@, cik_num@, filter, i as nat);
        if out.len() >= limit {
            proof {
                rows_before_is_prefix(block@, cik_num@, filter, i as nat, total);
                assert(items_view(out@).len() == start.len() + rows.len());
                assert(at_most(filing_rows(block@, cik_num@, filter), limit - start.len())
                    =~= rows);
            }
            return ;
        }
        if passes(&forms[i], form_filter) {
            let acc_raw = cell_text(accs, i);
            let doc = cell_text(docs, i);
            let url = archive_url(cik_num, acc_raw, doc);
            let mut fields: Vec<(String, Json)> = Vec::new();
            put(&mut fields, "form", forms[i].clone());
            put(&mut fields, "date", cell_copy(dates, i));
            put(&mut fields, "description", cell_copy(descs, i));
            put(&mut fields, "accession_number", Json::string(acc_raw));
            put(&mut fields, "url", Json::Str(url));
            let ghost before = items_view(out@);
            let row = Json::object(fields);
            assert(row@->Object_0 =~= filing_row(block@, cik_num@, i as int)->Object_0);
            out.push(row);
            assert(items_view(out@) =~= before.push(row@));
            assert(before.push(row@) =~= start + rows.push(row@));
        }
        i += 1;
    }
    proof {
        let rows = filing_rows(block@, cik_num@, filter);
        assert(items_view(out@).len() == start.len() + rows.len());
        assert(at_most(rows, limit - start.len()) =~= rows);
    }
}

proof fn row_comes_from_a_filing(
    block: JsonView,
    cik_num: Seq<char>,
    filter: Option<Seq<char>>,
    n: nat,
    k: int,
) -> (i: int)
    requires
        0 <= k < rows_before(block, cik_num, filter, n).len(),
    ensures
        0 <= i < n,
        form_matches(listed_forms(block)[i], filter),
        rows_before(block, cik_num, filter, n)[k] == filing_row(block, cik_num, i),
    decreases n,
{
    let rows = rows_before(block, cik_num, filter, (n - 1) as nat);
    if k < rows.len() {
        row_comes_from_a_filing(block, cik_num, filter, (n - 1) as nat, k)
    } else {
        n - 1
    }
}

/// With a filter every row is of the form that was asked for.
pub proof fn rows_are_of_the_form(block: JsonView, cik_num: Seq<char>, form: Seq<char>, k: int)
    requires
        0 <= k < filing_rows(block, cik_num, Some(form)).len(),
    ensures
        form_matches(filing_rows(block, cik_num, Some(form))[k].field("form"@), Some(form)),
{
    let i = row_comes_from_a_filing(
        block,
        cik_num,
        Some(form),
        listed_forms(block).len(),
        k,
    );
    let fields = filing_row(block, cik_num, i)->Object_0;
    assert(fields[0].0 == "form"@);
    lookup_finds(fields, "form"@, 0);
}

/// Without a filter every filing of a block has its row, at its own position.
pub proof fn every_filing_has_its_row(block: JsonView, cik_num: Seq<char>)
    ensures
        filing_rows(block, cik_num, None) == Seq::new(
            listed_forms(block).len(),
            |i: int| filing_row(block, cik_num, i),
        ),
{
    all_rows_before(block, cik_num, listed_forms(block).len());
}

proof fn all_rows_before(block: JsonView, cik_num: Seq<char>, n: nat)
    ensures
        rows_before(block, cik_num, None, n) == Seq::new(
            n,
            |i: int| filing_row(block, cik_num, i),
        ),
    decreases n,
{
    if n > 0 {
        all_rows_before(block, cik_num, (n - 1) as nat);
    }
    assert(rows_before(block, cik_num, None, n) =~= Seq::new(
        n,
        |i: int| filing_row(block, cik_num, i),
    ));
}

proof fn rows_before_are_the_hits(
    block: JsonView,
    forms: Seq<JsonView>,
    cik_num: Seq<char>,
    wanted: Seq<char>,
    n: nat,
)
    requires
        block.field("form"@) == JsonView::Array(forms),
        n <= forms.len(),
    ensures
        rows_before(block, cik_num, Some(wanted), n) == Seq::new(forms.len(), |i: int| i).take(
            n as int,
        ).filter(|i: int| text_in(forms[i]) == wanted).map_values(
            |i: int| filing_row(block, cik_num, i),
        ),
    decreases n,
{
    let positions = Seq::new(forms.len(), |i: int| i);
    let hit = |i: int| text_in(forms[i]) == wanted;
    let row = |i: int| filing_row(block, cik_num, i);
    if n == 0 {
        reveal(Seq::filter);
        assert(positions.take(0).filter(hit).map_values(row) =~= Seq::<JsonView>::empty());
    } else {
        rows_before_are_the_hits(block, forms, cik_num, wanted, (n - 1) as nat);
        filter_grows(positions, n - 1, hit);
        let kept = positions.take(n - 1).filter(hit);
        assert(positions[n - 1] == n - 1);
        assert(kept.push(n - 1).map_values(row) =~= kept.map_values(row).push(row(n - 1)));
    }
}

/// Filtering by form is complete: of the positions of the form column exactly
/// those whose text is the one asked for have a row, each once and in their
/// order. A block without that column has no rows.
pub proof fn every_filing_of_the_form_has_its_row(
    block: JsonView,
    forms: Seq<JsonView>,
    cik_num: Seq<char>,
    wanted: Seq<char>,
)
    ensures
        block.field("form"@) == JsonView::Array(forms) ==> filing_rows(block, cik_num, Some(wanted))
            == Seq::new(forms.len(), |i: int| i).filter(
            |i: int| text_in(forms[i]) == wanted,
        ).map_values(|i: int| filing_row(block, cik_num, i)),
        block.field("form"@) == JsonView::Array(forms) ==> filing_rows(block, cik_num, None)
            == Seq::new(forms.len(), |i: int| i).map_values(
            |i: int| filing_row(block, cik_num, i),
        ),
        block.field("form"@) !is Array ==> filing_rows(block, cik_num, Some(wanted)).len() == 0
            && filing_rows(block, cik_num, None).len() == 0,
{
    if block.field("form"@) == JsonView::Array(forms) {
        let positions = Seq::new(forms.len(), |i: int| i);
        rows_before_are_the_hits(block, forms, cik_num, wanted, forms.len());
        assert(positions.take(forms.len() as int) =~= positions);
        all_rows_before(block, cik_num, forms.len());
        assert(filing_rows(block, cik_num, None) =~= positions.map_values(
            |i: int| filing_row(block, cik_num, i),
        ));
    }
}

/// The row of a filing holds what the columns hold at its position. Its address
/// is made of the CIK, the accession number without dashes and the document.
pub proof fn rows_hold_the_columns(
    block: JsonView,
    forms: Seq<JsonView>,
    cik_num: Seq<char>,
    i: int,
)
    requires
        block.field("form"@) == JsonView::Array(forms),
        0 <= i < forms.len(),
    ensures
        ({
            let row = filing_row(block, cik_num, i);
            let accession = text_in(item_of(block.field("accessionNumber"@), i));
            let document = text_in(item_of(block.field("primaryDocument"@), i));
            &&& row.field("form"@) == forms[i]
            &&& row.field("date"@) == item_of(block.field("filingDate"@), i)
            &&& row.field("description"@) == item_of(block.field("primaryDocDescription"@), i)
            &&& row.field("accession_number"@) == JsonView::Str(accession)
            &&& row.field("url"@) == JsonView::Str(
                "https://www.sec.gov/Archives/edgar/data/"@ + cik_num + "/"@ + accession.filter(
                    |c: char| c != '-',
                ) + "/"@ + document,
            )
        }),
{
    reveal_strlit("form");
    reveal_strlit("date");
    reveal_strlit("description");
    reveal_strlit("accession_number");
    reveal_strlit("url");
    let fields = filing_row(block, cik_num, i)->Object_0;
    assert("form"@[0] != "date"@[0]);
    assert(fields[0].0 == "form"@ && fields[1].0 == "date"@ && fields[2].0 == "description"@);
    assert(fields[3].0 == "accession_number"@ && fields[4].0 == "url"@);
    lookup_finds(fields, "form"@, 0);
    lookup_finds(fields, "date"@, 1);
    lookup_finds(fields, "description"@, 2);
    lookup_finds(fields, "accession_number"@, 3);
    lookup_finds(fields, "url"@, 4);
    replacing_by_nothing_filters(text_in(item_of(block.field("accessionNumber"@), i)), '-');
}

} // verus!
