//! Companies: their general information, and the concepts that they report.

use vstd::prelude::*;
use crate::concept::str_field_or;
use crate::json::{
    Json, JsonView, assigned, fields_view, items_view, lookup, lookup_after_assignment,
    lookup_finds, lookup_misses, names_differ, put, text_or, text_view,
};
use crate::text::{empty_literal, owned, same};
use crate::urls::{browse_address, browse_url};

verus! {

/// What a lookup of a CIK replies with. `symbol` is the ticker in upper case.
pub open spec fn lookup_cik_outcome(symbol: Seq<char>, cik: Seq<char>) -> JsonView {
    JsonView::Object(
        seq![
            ("ticker"@, JsonView::Str(symbol)),
            ("cik"@, JsonView::Str(cik)),
            ("edgar_url"@, JsonView::Str(browse_address(cik))),
        ],
    )
}

/// What a lookup of a CIK replies with. `symbol` is the ticker in upper case.
pub fn lookup_cik_reply(symbol: &str, cik: &str) -> (r: Json)
    ensures
        r@ == lookup_cik_outcome(symbol@, cik@),
{
    let mut fields: Vec<(String, Json)> = Vec::new();
    put(&mut fields, "ticker", Json::string(symbol));
    put(&mut fields, "cik", Json::string(cik));
    put(&mut fields, "edgar_url", Json::Str(browse_url(cik)));
    let r = Json::object(fields);
    assert(r@->Object_0 =~= lookup_cik_outcome(symbol@, cik@)->Object_0);
    r
}

/// What a request for a company's information replies with, out of its
/// submissions. `symbol` is the ticker in upper case.
pub open spec fn company_info_outcome(
    symbol: Seq<char>,
    cik: Seq<char>,
    data: JsonView,
) -> JsonView {
    JsonView::Object(
        seq![
            ("name"@, data.field("name"@)),
            ("ticker"@, JsonView::Str(symbol)),
            ("cik"@, JsonView::Str(cik)),
            ("sic"@, data.field("sic"@)),
            ("sic_description"@, data.field("sicDescription"@)),
            ("state_of_incorporation"@, data.field("stateOfIncorporation"@)),
            ("fiscal_year_end"@, data.field("fiscalYearEnd"@)),
            ("business_address"@, data.field("addresses"@).field("business"@)),
            ("mailing_address"@, data.field("addresses"@).field("mailing"@)),
            ("exchanges"@, data.field("exchanges"@)),
            ("tickers"@, data.field("tickers"@)),
            ("edgar_page"@, JsonView::Str(browse_address(cik))),
        ],
    )
}

fn nested_copy(data: &Json, outer: &str, inner: &str) -> (r: Json)
    ensures
        r@ == data@.field(outer@).field(inner@),
{
    match data.get(outer) {
        Some(v) => v.field_copy(inner),
        None => Json::Null,
    }
}

/// What a request for a company's information replies with, out of its
/// submissions. `symbol` is the ticker in upper case.
pub fn company_info_reply(symbol: &str, cik: &str, data: &Json) -> (r: Json)
    ensures
        r@ == company_info_outcome(symbol@, cik@, data@),
{
    let mut fields: Vec<(String, Json)> = Vec::new();
    put(&mut fields, "name", data.field_copy("name"));
    put(&mut fields, "ticker", Json::string(symbol));
    put(&mut fields, "cik", Json::string(cik));
    put(&mut fields, "sic", data.field_copy("sic"));
    put(&mut fields, "sic_description", data.field_copy("sicDescription"));
    put(&mut fields, "state_of_incorporation", data.field_copy("stateOfIncorporation"));
    put(&mut fields, "fiscal_year_end", data.field_copy("fiscalYearEnd"));
    put(&mut fields, "business_address", nested_copy(data, "addresses", "business"));
    put(&mut fields, "mailing_address", nested_copy(data, "addresses", "mailing"));
    put(&mut fields, "exchanges", data.field_copy("exchanges"));
    put(&mut fields, "tickers", data.field_copy("tickers"));
    put(&mut fields, "edgar_page", Json::Str(browse_url(cik)));
    let r = Json::object(fields);
    assert(r@->Object_0 =~= company_info_outcome(symbol@, cik@, data@)->Object_0);
    r
}

/// A concept as a list of concepts shows it: its name, its label or else its
/// name again, and its description or else nothing.
pub open spec fn concept_row(concept: (Seq<char>, JsonView)) -> JsonView {
    JsonView::Object(
        seq![
            ("concept"@, JsonView::Str(concept.0)),
            ("label"@, JsonView::Str(text_or(concept.1.field("label"@).as_str(), concept.0))),
            (
                "description"@,
                JsonView::Str(text_or(concept.1.field("description"@).as_str(), Seq::empty())),
            ),
        ],
    )
}

/// The concepts of one taxonomy, in the order of the document.
pub open spec fn concept_rows(concepts: Seq<(Seq<char>, JsonView)>) -> Seq<JsonView> {
    concepts.map_values(|concept: (Seq<char>, JsonView)| concept_row(concept))
}

fn list_concepts(concepts: &Vec<(String, Json)>) -> (r: Json)
    ensures
        r@ == JsonView::Array(concept_rows(fields_view(concepts@))),
{
    let ghost all = fields_view(concepts@);
    proof {
        empty_literal();
    }
    let mut rows: Vec<Json> = Vec::new();
    let mut i: usize = 0;
    while i < concepts.len()
        invariant
            i <= concepts@.len(),
            all == fields_view(concepts@),
            ""@ == Seq::<char>::empty(),
            rows@.len() == i,
            forall|k: int| 0 <= k < i ==> (#[trigger] rows@[k])@ == concept_row(all[k]),
        decreases concepts@.len() - i,
    {
        let name = concepts[i].0.as_str();
        let detail = &concepts[i].1;
        let mut fields: Vec<(String, Json)> = Vec::new();
        put(&mut fields, "concept", Json::string(name));
        put(&mut fields, "label", Json::string(str_field_or(detail, "label", name)));
        put(&mut fields, "description", Json::string(str_field_or(detail, "description", "")));
        let row = Json::object(fields);
        assert(row@->Object_0 =~= concept_row(all[i as int])->Object_0);
        rows.push(row);
        i += 1;
    }
    assert(items_view(rows@) =~= concept_rows(all));
    Json::array(rows)
}

/// Whether a taxonomy passes an optional filter.
pub open spec fn taxonomy_matches(name: Seq<char>, filter: Option<Seq<char>>) -> bool {
    match filter {
        Some(wanted) => name == wanted,
        None => true,
    }
}

/// The concepts of those among the first `n` taxonomies that pass the filter
/// and are objects, by taxonomy.
pub open spec fn taxonomies_before(
    facts: Seq<(Seq<char>, JsonView)>,
    filter: Option<Seq<char>>,
    n: nat,
) -> Seq<(Seq<char>, JsonView)>
    decreases n,
{
    if n == 0 {
        Seq::empty()
    } else {
        let listed = taxonomies_before(facts, filter, (n - 1) as nat);
        let (name, concepts) = facts[n - 1];
        match concepts.as_object() {
            Some(fields) => if taxonomy_matches(name, filter) {
                assigned(listed, name, JsonView::Array(concept_rows(fields)))
            } else {
                listed
            },
            None => listed,
        }
    }
}

/// The concepts that a company reports, by taxonomy.
pub open spec fn taxonomies_of(
    data: JsonView,
    filter: Option<Seq<char>>,
) -> Seq<(Seq<char>, JsonView)> {
    match data.field("facts"@).as_object() {
        Some(facts) => taxonomies_before(facts, filter, facts.len()),
        None => Seq::empty(),
    }
}

/// Gives a field its value: in place of what it held, or as a new last field.
fn assign(fields: &mut Vec<(String, Json)>, key: &str, value: Json)
    ensures
        fields_view(final(fields)@) == assigned(fields_view(old(fields)@), key@, value@),
{
    let ghost all = fields_view(fields@);
    let mut i: usize = 0;
    assert(all.skip(0) =~= all);
    assert(all.take(0) + assigned(all, key@, value@) =~= assigned(all, key@, value@));
    while i < fields.len()
        invariant
            i <= fields@.len(),
            fields@ == old(fields)@,
            all == fields_view(fields@),
            assigned(all, key@, value@) == all.take(i as int) + assigned(
                all.skip(i as int),
                key@,
                value@,
            ),
        decreases fields@.len() - i,
    {
        let ghost rest = all.skip(i as int);
        assert(rest[0] == all[i as int]);
        assert(rest.drop_first() =~= all.skip(i + 1));
        if same(fields[i].0.as_str(), key) {
            fields[i] = (owned(key), value);
            assert(fields_view(fields@) =~= all.take(i as int) + (seq![(key@, value@)]
                + all.skip(i + 1)));
            return ;
        }
        assert(all.take(i as int) + (seq![all[i as int]] + assigned(
            all.skip(i + 1),
            key@,
            value@,
        )) =~= all.take(i + 1) + assigned(all.skip(i + 1), key@, value@));
        i += 1;
    }
    put(fields, key, value);
    assert(fields_view(fields@) =~= all.take(i as int) + seq![(key@, value@)]);
}

fn list_taxonomies(data: &Json, filter: Option<&str>) -> (r: Vec<(String, Json)>)
    ensures
        fields_view(r@) == taxonomies_of(data@, text_view(filter)),
{
    let mut r: Vec<(String, Json)> = Vec::new();
    let facts = match data.get("facts") {
        Some(v) => match v.as_object() {
            Some(f) => f,
            None => {
                assert(fields_view(r@) =~= Seq::empty());
                return r;
            },
        },
        None => {
            assert(fields_view(r@) =~= Seq::empty());
            return r;
        },
    };
    let ghost all = fields_view(facts@);
    let mut i: usize = 0;
    assert(fields_view(r@) =~= Seq::empty());
    while i < facts.len()
        invariant
            i <= facts@.len(),
            all == fields_view(facts@),
            fields_view(r@) == taxonomies_before(all, text_view(filter), i as nat),
        decreases facts@.len() - i,
    {
        let name = facts[i].0.as_str();
        assert(all[i as int] == (name@, facts@[i as int].1@));
        let wanted: bool = match filter {
            Some(f) => same(name, f),
            None => true,
        };
        if wanted {
            match facts[i].1.as_object() {
                Some(concepts) => assign(&mut r, name, list_concepts(concepts)),
                None => {},
            }
        }
        i += 1;
    }
    r
}

/// What a request for a company's concepts replies with. `symbol` is the
/// ticker in upper case.
pub open spec fn company_facts_outcome(
    symbol: Seq<char>,
    cik: Seq<char>,
    filter: Option<Seq<char>>,
    data: JsonView,
) -> JsonView {
    JsonView::Object(
        seq![
            ("company"@, JsonView::Str(text_or(data.field("entityName"@).as_str(), "Unknown"@))),
            ("ticker"@, JsonView::Str(symbol)),
            ("cik"@, JsonView::Str(cik)),
            ("taxonomies"@, JsonView::Object(taxonomies_of(data, filter))),
        ],
    )
}

/// What a request for a company's concepts replies with: every taxonomy, or
/// the one that was asked for. `symbol` is the ticker in upper case.
pub fn company_facts_reply(
    symbol: &str,
    cik: &str,
    taxonomy_filter: Option<&str>,
    data: &Json,
) -> (r: Json)
    ensures
        r@ == company_facts_outcome(symbol@, cik@, text_view(taxonomy_filter), data@),
{
    let taxonomies = list_taxonomies(data, taxonomy_filter);
    let mut fields: Vec<(String, Json)> = Vec::new();
    put(&mut fields, "company", Json::string(str_field_or(data, "entityName", "Unknown")));
    put(&mut fields, "ticker", Json::string(symbol));
    put(&mut fields, "cik", Json::string(cik));
    put(&mut fields, "taxonomies", Json::object(taxonomies));
    let r = Json::object(fields);
    assert(r@->Object_0 =~= company_facts_outcome(
        symbol@,
        cik@,
        text_view(taxonomy_filter),
        data@,
    )->Object_0);
    r
}

/// The concepts that a reply lists for a taxonomy, from what the document has
/// under its name.
pub open spec fn listed_concepts(
    name: Seq<char>,
    concepts: Option<JsonView>,
    filter: Option<Seq<char>>,
) -> Option<JsonView> {
    match concepts {
        Some(JsonView::Object(fields)) => if taxonomy_matches(name, filter) {
            Some(JsonView::Array(concept_rows(fields)))
        } else {
            None
        },
        _ => None,
    }
}

proof fn taxonomy_before(
    facts: Seq<(Seq<char>, JsonView)>,
    filter: Option<Seq<char>>,
    n: nat,
    i: int,
)
    requires
        names_differ(facts),
        n <= facts.len(),
        0 <= i < facts.len(),
    ensures
        lookup(taxonomies_before(facts, filter, n), facts[i].0) == if i < n {
            listed_concepts(facts[i].0, Some(facts[i].1), filter)
        } else {
            None
        },
    decreases n,
{
    if n > 0 {
        let k = n - 1;
        taxonomy_before(facts, filter, k as nat, i);
        let (name, concepts) = facts[k];
        if i != k {
            assert(facts[i].0 != facts[k].0);
        }
        match concepts.as_object() {
            Some(fields) => lookup_after_assignment(
                taxonomies_before(facts, filter, k as nat),
                name,
                JsonView::Array(concept_rows(fields)),
                facts[i].0,
            ),
            None => {},
        }
    }
}

proof fn absent_taxonomy_before(
    facts: Seq<(Seq<char>, JsonView)>,
    filter: Option<Seq<char>>,
    n: nat,
    name: Seq<char>,
)
    requires
        n <= facts.len(),
        forall|i: int| 0 <= i < facts.len() ==> (#[trigger] facts[i]).0 != name,
    ensures
        lookup(taxonomies_before(facts, filter, n), name) is None,
    decreases n,
{
    if n > 0 {
        let k = n - 1;
        absent_taxonomy_before(facts, filter, k as nat, name);
        assert(facts[k].0 != name);
        match facts[k].1.as_object() {
            Some(fields) => lookup_after_assignment(
                taxonomies_before(facts, filter, k as nat),
                facts[k].0,
                JsonView::Array(concept_rows(fields)),
                name,
            ),
            None => {},
        }
    }
}

/// A reply lists exactly the taxonomies that the document has and the filter
/// lets pass: all of them without a filter, at most the one that it names with
/// one. Each stands with all of its concepts.
pub proof fn taxonomies_are_listed(data: JsonView, filter: Option<Seq<char>>, name: Seq<char>)
    requires
        data.field("facts"@) matches JsonView::Object(facts) && names_differ(facts),
    ensures
        lookup(taxonomies_of(data, filter), name) == listed_concepts(
            name,
            lookup(data.field("facts"@)->Object_0, name),
            filter,
        ),
{
    let facts = data.field("facts"@)->Object_0;
    if exists|i: int| 0 <= i < facts.len() && (#[trigger] facts[i]).0 == name {
        let i = choose|i: int| 0 <= i < facts.len() && (#[trigger] facts[i]).0 == name;
        assert forall|k: int| 0 <= k < i implies (#[trigger] facts[k]).0 != name by {
            assert(facts[k].0 != facts[i].0);
        }
        lookup_finds(facts, name, i);
        taxonomy_before(facts, filter, facts.len(), i);
    } else {
        lookup_misses(facts, name);
        absent_taxonomy_before(facts, filter, facts.len(), name);
    }
}

/// Whether a list has one row for each concept, in the order of the document:
/// its name, its label or else its name, and its description or else nothing.
pub open spec fn lists_each_concept(
    rows: Seq<JsonView>,
    concepts: Seq<(Seq<char>, JsonView)>,
) -> bool {
    &&& rows.len() == concepts.len()
    &&& forall|k: int|
        0 <= k < rows.len() ==> {
            let (name, detail) = concepts[k];
            &&& (#[trigger] rows[k]).field("concept"@) == JsonView::Str(name)
            &&& rows[k].field("label"@) == match detail.field("label"@) {
                JsonView::Str(label) => JsonView::Str(label),
                _ => JsonView::Str(name),
            }
            &&& rows[k].field("description"@) == match detail.field("description"@) {
                JsonView::Str(text) => JsonView::Str(text),
                _ => JsonView::Str(Seq::empty()),
            }
        }
}

proof fn rows_show_concepts(concepts: Seq<(Seq<char>, JsonView)>)
    ensures
        lists_each_concept(concept_rows(concepts), concepts),
{
    reveal_strlit("concept");
    reveal_strlit("label");
    reveal_strlit("description");
    let rows = concept_rows(concepts);
    assert forall|k: int| 0 <= k < rows.len() implies {
        let (name, detail) = concepts[k];
        &&& (#[trigger] rows[k]).field("concept"@) == JsonView::Str(name)
        &&& rows[k].field("label"@) == match detail.field("label"@) {
            JsonView::Str(label) => JsonView::Str(label),
            _ => JsonView::Str(name),
        }
        &&& rows[k].field("description"@) == match detail.field("description"@) {
            JsonView::Str(text) => JsonView::Str(text),
            _ => JsonView::Str(Seq::empty()),
        }
    } by {
        assert(rows[k] == concept_row(concepts[k]));
        assert("concept"@.len() == 7 && "label"@.len() == 5 && "description"@.len() == 11);
        let fields = rows[k]->Object_0;
        assert(fields[0].0 == "concept"@ && fields[1].0 == "label"@ && fields[2].0
            == "description"@);
        lookup_finds(fields, "concept"@, 0);
        lookup_finds(fields, "label"@, 1);
        lookup_finds(fields, "description"@, 2);
    }
}

/// Without a filter every taxonomy of the document whose concepts are an object
/// stands in the reply, whatever its name, with one row for each of its
/// concepts. A filter leaves the taxonomy of its name as it is and takes all
/// others out.
pub proof fn every_taxonomy_is_listed(
    symbol: Seq<char>,
    cik: Seq<char>,
    data: JsonView,
    facts: Seq<(Seq<char>, JsonView)>,
    i: int,
    concepts: Seq<(Seq<char>, JsonView)>,
    wanted: Seq<char>,
)
    requires
        data.field("facts"@) == JsonView::Object(facts),
        names_differ(facts),
        0 <= i < facts.len(),
        facts[i].1 == JsonView::Object(concepts),
    ensures
        ({
            let all = company_facts_outcome(symbol, cik, None, data).field("taxonomies"@);
            let one = company_facts_outcome(symbol, cik, Some(wanted), data).field("taxonomies"@);
            &&& all.field(facts[i].0) is Array
            &&& lists_each_concept(all.field(facts[i].0)->Array_0, concepts)
            &&& facts[i].0 == wanted ==> one.field(facts[i].0) == all.field(facts[i].0)
            &&& facts[i].0 != wanted ==> one.field(facts[i].0) == JsonView::Null
        }),
{
    let name = facts[i].0;
    assert forall|k: int| 0 <= k < i implies (#[trigger] facts[k]).0 != name by {
        assert(facts[k].0 != facts[i].0);
    }
    lookup_finds(facts, name, i);
    taxonomies_are_listed(data, None, name);
    taxonomies_are_listed(data, Some(wanted), name);
    rows_show_concepts(concepts);
    facts_reply_fields(symbol, cik, None, data);
    facts_reply_fields(symbol, cik, Some(wanted), data);
}

/// A reply lists no taxonomy that the document does not have as an object.
pub proof fn no_other_taxonomy_is_listed(
    symbol: Seq<char>,
    cik: Seq<char>,
    filter: Option<Seq<char>>,
    data: JsonView,
    name: Seq<char>,
)
    requires
        data.field("facts"@) matches JsonView::Object(facts) ==> names_differ(facts) && forall|k: int|
            0 <= k < facts.len() ==> (#[trigger] facts[k]).0 != name || facts[k].1 !is Object,
    ensures
        company_facts_outcome(symbol, cik, filter, data).field("taxonomies"@).field(name)
            == JsonView::Null,
{
    facts_reply_fields(symbol, cik, filter, data);
    match data.field("facts"@) {
        JsonView::Object(facts) => {
            taxonomies_are_listed(data, filter, name);
            if exists|k: int| 0 <= k < facts.len() && (#[trigger] facts[k]).0 == name {
                let k = choose|k: int| 0 <= k < facts.len() && (#[trigger] facts[k]).0 == name;
                assert forall|m: int| 0 <= m < k implies (#[trigger] facts[m]).0 != name by {
                    assert(facts[m].0 != facts[k].0);
                }
                lookup_finds(facts, name, k);
            } else {
                lookup_misses(facts, name);
            }
        },
        _ => {
            lookup_misses(Seq::<(Seq<char>, JsonView)>::empty(), name);
        },
    }
}

/// A reply says which company it is of.
pub proof fn facts_reply_fields(
    symbol: Seq<char>,
    cik: Seq<char>,
    filter: Option<Seq<char>>,
    data: JsonView,
)
    ensures
        ({
            let reply = company_facts_outcome(symbol, cik, filter, data);
            &&& reply.field("company"@) == match data.field("entityName"@) {
                JsonView::Str(name) => JsonView::Str(name),
                _ => JsonView::Str("Unknown"@),
            }
            &&& reply.field("ticker"@) == JsonView::Str(symbol)
            &&& reply.field("cik"@) == JsonView::Str(cik)
            &&& reply.field("taxonomies"@) == JsonView::Object(taxonomies_of(data, filter))
        }),
{
    reveal_strlit("company");
    reveal_strlit("ticker");
    reveal_strlit("cik");
    reveal_strlit("taxonomies");
    assert("company"@.len() == 7 && "ticker"@.len() == 6 && "cik"@.len() == 3);
    assert("taxonomies"@.len() == 10);
    let fields = company_facts_outcome(symbol, cik, filter, data)->Object_0;
    assert(fields[0].0 == "company"@ && fields[1].0 == "ticker"@ && fields[2].0 == "cik"@);
    assert(fields[3].0 == "taxonomies"@);
    lookup_finds(fields, "company"@, 0);
    lookup_finds(fields, "ticker"@, 1);
    lookup_finds(fields, "cik"@, 2);
    lookup_finds(fields, "taxonomies"@, 3);
}

/// A lookup names the ticker, its CIK and the page of that CIK.
pub proof fn lookup_reply_fields(symbol: Seq<char>, cik: Seq<char>)
    ensures
        ({
            let reply = lookup_cik_outcome(symbol, cik);
            &&& reply.field("ticker"@) == JsonView::Str(symbol)
            &&& reply.field("cik"@) == JsonView::Str(cik)
            &&& reply.field("edgar_url"@) == JsonView::Str(
                "https://www.sec.gov/edgar/browse/?CIK="@ + cik,
            )
        }),
{
    reveal_strlit("ticker");
    reveal_strlit("cik");
    reveal_strlit("edgar_url");
    assert("ticker"@.len() == 6 && "cik"@.len() == 3 && "edgar_url"@.len() == 9);
    let fields = lookup_cik_outcome(symbol, cik)->Object_0;
    assert(fields[0].0 == "ticker"@ && fields[1].0 == "cik"@ && fields[2].0 == "edgar_url"@);
    lookup_finds(fields, "ticker"@, 0);
    lookup_finds(fields, "cik"@, 1);
    lookup_finds(fields, "edgar_url"@, 2);
}

/// Company information holds what the submissions hold, each under its own
/// name, whatever kind of value it is.
pub proof fn company_info_is_passed_on(symbol: Seq<char>, cik: Seq<char>, data: JsonView)
    ensures
        ({
            let reply = company_info_outcome(symbol, cik, data);
            &&& reply.field("name"@) == data.field("name"@)
            &&& reply.field("ticker"@) == JsonView::Str(symbol)
            &&& reply.field("cik"@) == JsonView::Str(cik)
            &&& reply.field("sic"@) == data.field("sic"@)
            &&& reply.field("sic_description"@) == data.field("sicDescription"@)
            &&& reply.field("state_of_incorporation"@) == data.field("stateOfIncorporation"@)
            &&& reply.field("fiscal_year_end"@) == data.field("fiscalYearEnd"@)
            &&& reply.field("business_address"@) == data.field("addresses"@).field("business"@)
            &&& reply.field("mailing_address"@) == data.field("addresses"@).field("mailing"@)
            &&& reply.field("exchanges"@) == data.field("exchanges"@)
            &&& reply.field("tickers"@) == data.field("tickers"@)
            &&& reply.field("edgar_page"@) == JsonView::Str(
                "https://www.sec.gov/edgar/browse/?CIK="@ + cik,
            )
        }),
{
    reveal_strlit("name");
    reveal_strlit("ticker");
    reveal_strlit("cik");
    reveal_strlit("sic");
    reveal_strlit("sic_description");
    reveal_strlit("state_of_incorporation");
    reveal_strlit("fiscal_year_end");
    reveal_strlit("business_address");
    reveal_strlit("mailing_address");
    reveal_strlit("exchanges");
    reveal_strlit("tickers");
    reveal_strlit("edgar_page");
    let fields = company_info_outcome(symbol, cik, data)->Object_0;
    assert("cik"@[0] == 'c' && "sic"@[0] == 's');
    assert("sic_description"@[0] == 's' && "fiscal_year_end"@[0] == 'f');
    assert("mailing_address"@[0] == 'm');
    assert(fields[0].0 == "name"@ && fields[1].0 == "ticker"@ && fields[2].0 == "cik"@);
    assert(fields[3].0 == "sic"@ && fields[4].0 == "sic_description"@);
    assert(fields[5].0 == "state_of_incorporation"@ && fields[6].0 == "fiscal_year_end"@);
    assert(fields[7].0 == "business_address"@ && fields[8].0 == "mailing_address"@);
    assert(fields[9].0 == "exchanges"@ && fields[10].0 == "tickers"@);
    assert(fields[11].0 == "edgar_page"@);
    lookup_finds(fields, "name"@, 0);
    lookup_finds(fields, "ticker"@, 1);
    lookup_finds(fields, "cik"@, 2);
    lookup_finds(fields, "sic"@, 3);
    lookup_finds(fields, "sic_description"@, 4);
    lookup_finds(fields, "state_of_incorporation"@, 5);
    lookup_finds(fields, "fiscal_year_end"@, 6);
    lookup_finds(fields, "business_address"@, 7);
    lookup_finds(fields, "mailing_address"@, 8);
    lookup_finds(fields, "exchanges"@, 9);
    lookup_finds(fields, "tickers"@, 10);
    lookup_finds(fields, "edgar_page"@, 11);
}

} // verus!
