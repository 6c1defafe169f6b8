//! The history of one financial concept of a company.

use vstd::prelude::*;
use crate::forms::{annual_form, is_annual_form, is_quarterly_form, quarterly_form};
use crate::json::{
    Json, JsonView, find, items_copy, items_view, lookup, lookup_finds, lookup_misses, put,
    text_or, text_view,
};
use crate::lists::{filter_grows, filter_map_grows, last_items_are_an_end, last_of};
use crate::text::{
    ascending, before, empty_literal, join, joined, owned, same, sort_distinct, sorted_distinct,
    sorted_distinct_ascends, texts,
};

verus! {

/// How many facts a reply holds at most.
pub const MAX_FACTS: usize = 20;

/// The unit in which a concept is reported and its facts in that unit: `USD`
/// where the concept has it, else `pure`, else the first that it has.
pub open spec fn reported_unit(units: JsonView) -> (Seq<char>, Seq<JsonView>) {
    let none = ("unknown"@, Seq::<JsonView>::empty());
    match units.as_object() {
        Some(fields) => {
            let (name, facts) = if lookup(fields, "USD"@) is Some {
                ("USD"@, lookup(fields, "USD"@)->0)
            } else if lookup(fields, "pure"@) is Some {
                ("pure"@, lookup(fields, "pure"@)->0)
            } else if fields.len() > 0 {
                fields[0]
            } else {
                ("unknown"@, JsonView::Null)
            };
            match facts.as_array() {
                Some(entries) => (name, entries),
                None => none,
            }
        },
        None => none,
    }
}

/// The unit in which a concept is reported and its facts in that unit.
fn choose_unit(units: Option<&Json>) -> (r: (String, Vec<Json>))
    ensures
        (r.0@, items_view(r.1@)) == reported_unit(
            match units {
                Some(u) => u@,
                None => JsonView::Null,
            },
        ),
{
    let nothing: Vec<Json> = Vec::new();
    assert(items_view(nothing@) =~= Seq::<JsonView>::empty());
    let fields = match units {
        Some(u) => match u.as_object() {
            Some(f) => f,
            None => return (owned("unknown"), nothing),
        },
        None => return (owned("unknown"), nothing),
    };
    let (name, facts): (&str, &Json) = match find(fields, "USD") {
        Some(v) => ("USD", v),
        None => match find(fields, "pure") {
            Some(v) => ("pure", v),
            None => if fields.len() > 0 {
                (fields[0].0.as_str(), &fields[0].1)
            } else {
                return (owned("unknown"), nothing)
            },
        },
    };
    match facts.as_array() {
        Some(entries) => (owned(name), items_copy(entries)),
        None => (owned("unknown"), nothing),
    }
}

/// Whether a fact passes an optional period filter. A filter that names neither
/// `annual` nor `quarterly` lets every fact pass.
pub open spec fn in_period(fact: JsonView, period: Option<Seq<char>>) -> bool {
    let form = fact.field("form"@).as_str();
    match period {
        Some(p) => if p == "annual"@ {
            annual_form(form)
        } else if p == "quarterly"@ {
            quarterly_form(form)
        } else {
            true
        },
        None => true,
    }
}

/// The facts that pass a period filter.
pub open spec fn facts_in_period(
    facts: Seq<JsonView>,
    period: Option<Seq<char>>,
) -> Seq<JsonView> {
    facts.filter(|fact: JsonView| in_period(fact, period))
}

fn is_in_period(fact: &Json, period: Option<&str>) -> (r: bool)
    ensures
        r == in_period(fact@, text_view(period)),
{
    let form = fact.str_field("form");
    match period {
        Some(p) => if same(p, "annual") {
            is_annual_form(form)
        } else if same(p, "quarterly") {
            is_quarterly_form(form)
        } else {
            true
        },
        None => true,
    }
}

fn select_facts(facts: &Vec<Json>, period: Option<&str>) -> (r: Vec<Json>)
    ensures
        items_view(r@) == facts_in_period(items_view(facts@), text_view(period)),
{
    let ghost all = items_view(facts@);
    let ghost pred = |fact: JsonView| in_period(fact, text_view(period));
    let mut r: Vec<Json> = Vec::new();
    let mut i: usize = 0;
    proof {
        reveal(Seq::filter);
        assert(items_view(r@) =~= all.take(0).filter(pred));
    }
    while i < facts.len()
        invariant
            i <= facts@.len(),
            all == items_view(facts@),
            pred == (|fact: JsonView| in_period(fact, text_view(period))),
            items_view(r@) == all.take(i as int).filter(pred),
        decreases facts@.len() - i,
    {
        proof {
            filter_grows(all, i as int, pred);
        }
        if is_in_period(&facts[i], period) {
            let ghost before = items_view(r@);
            r.push(facts[i].clone());
            assert(items_view(r@) =~= before.push(all[i as int]));
        }
        i += 1;
    }
    assert(all.take(i as int) =~= all);
    r
}

/// The forms on which facts are filed, in ascending order, each once.
pub open spec fn filed_forms(facts: Seq<JsonView>) -> Seq<Seq<char>> {
    sorted_distinct(facts.filter_map(|fact: JsonView| fact.field("form"@).as_str()))
}

fn collect_forms(facts: &Vec<Json>) -> (r: Vec<String>)
    ensures
        texts(r@) == filed_forms(items_view(facts@)),
{
    let ghost all = items_view(facts@);
    let ghost form_of = |fact: JsonView| fact.field("form"@).as_str();
    let mut forms: Vec<String> = Vec::new();
    let mut i: usize = 0;
    assert(texts(forms@) =~= all.take(0).filter_map(form_of));
    while i < facts.len()
        invariant
            i <= facts@.len(),
            all == items_view(facts@),
            form_of == (|fact: JsonView| fact.field("form"@).as_str()),
            texts(forms@) == all.take(i as int).filter_map(form_of),
        decreases facts@.len() - i,
    {
        proof {
            filter_map_grows(all, i as int, form_of);
        }
        match facts[i].str_field("form") {
            Some(form) => {
                let ghost before = texts(forms@);
                forms.push(owned(form));
                assert(texts(forms@) =~= before.push(form@));
            },
            None => {},
        }
        i += 1;
    }
    assert(all.take(i as int) =~= all);
    sort_distinct(&forms)
}

/// The forms to report: those that the concept is filed on where a period
/// filter was given and left no fact, otherwise none.
pub open spec fn unmatched_forms(
    facts: Seq<JsonView>,
    period: Option<Seq<char>>,
) -> Seq<Seq<char>> {
    if period is Some && facts_in_period(facts, period).len() == 0 {
        filed_forms(facts)
    } else {
        Seq::empty()
    }
}

/// The note that explains an empty result.
pub open spec fn unmatched_note(period: Seq<char>, forms: Seq<Seq<char>>) -> Seq<char> {
    "The '"@ + period + "' filter matched none of this concept's facts. They are filed on: "@
        + joined(forms, ", "@) + ". Retry without the period filter to see them."@
}

/// Texts as JSON strings.
pub open spec fn strings(list: Seq<Seq<char>>) -> Seq<JsonView> {
    list.map_values(|text: Seq<char>| JsonView::Str(text))
}

fn string_array(list: &Vec<String>) -> (r: Json)
    ensures
        r@ == JsonView::Array(strings(texts(list@))),
{
    let mut items: Vec<Json> = Vec::new();
    let mut i: usize = 0;
    while i < list.len()
        invariant
            i <= list@.len(),
            items@.len() == i,
            forall|k: int| 0 <= k < i ==> (#[trigger] items@[k])@ == JsonView::Str(list@[k]@),
        decreases list@.len() - i,
    {
        items.push(Json::string(list[i].as_str()));
        i += 1;
    }
    assert(items_view(items@) =~= strings(texts(list@)));
    Json::array(items)
}

/// What a request for a concept replies with. `symbol` is the ticker in upper
/// case.
pub open spec fn financial_concept_outcome(
    symbol: Seq<char>,
    cik: Seq<char>,
    concept: Seq<char>,
    taxonomy: Seq<char>,
    period: Option<Seq<char>>,
    data: JsonView,
) -> JsonView {
    let (unit, facts) = reported_unit(data.field("units"@));
    let forms = unmatched_forms(facts, period);
    let fields = seq![
        ("company"@, JsonView::Str(text_or(data.field("entityName"@).as_str(), "Unknown"@))),
        ("ticker"@, JsonView::Str(symbol)),
        ("cik"@, JsonView::Str(cik)),
        ("concept"@, JsonView::Str(concept)),
        ("taxonomy"@, JsonView::Str(taxonomy)),
        ("label"@, JsonView::Str(text_or(data.field("label"@).as_str(), concept))),
        ("description"@, JsonView::Str(text_or(data.field("description"@).as_str(), Seq::empty()))),
        ("unit"@, JsonView::Str(unit)),
        (
            "data"@,
            JsonView::Array(last_of(facts_in_period(facts, period), MAX_FACTS as nat)),
        ),
    ];
    JsonView::Object(
        if forms.len() == 0 {
            fields
        } else {
            fields + seq![
                ("note"@, JsonView::Str(unmatched_note(period->0, forms))),
                ("available_forms"@, JsonView::Array(strings(forms))),
            ]
        },
    )
}

/// The text of a field that holds a string, or what takes its place.
pub(crate) fn str_field_or<'a>(data: &'a Json, key: &str, other: &'a str) -> (r: &'a str)
    ensures
        r@ == text_or(data@.field(key@).as_str(), other@),
{
    match data.str_field(key) {
        Some(s) => s,
        None => other,
    }
}

fn last_facts(facts: Vec<Json>) -> (r: Vec<Json>)
    ensures
        items_view(r@) == last_of(items_view(facts@), MAX_FACTS as nat),
{
    if facts.len() <= MAX_FACTS {
        return facts;
    }
    let first: usize = facts.len() - MAX_FACTS;
    let mut facts = facts;
    let ghost all = items_view(facts@);
    let tail = facts.split_off(first);
    assert(items_view(tail@) =~= all.skip(first as int));
    tail
}

/// What a request for a concept replies with: the last facts that pass the
/// period filter and, where a filter was given and none passes, the forms that
/// the facts are filed on. `symbol` is the ticker in upper case.
pub fn financial_concept_reply(
    symbol: &str,
    cik: &str,
    concept: &str,
    taxonomy: &str,
    period: Option<&str>,
    data: &Json,
) -> (r: Json)
    ensures
        r@ == financial_concept_outcome(
            symbol@,
            cik@,
            concept@,
            taxonomy@,
            text_view(period),
            data@,
        ),
{
    let (unit, facts) = choose_unit(data.get("units"));
    let filtered = select_facts(&facts, period);
    let forms = if period.is_some() && filtered.len() == 0 {
        assert(items_view(filtered@).len() == 0);
        collect_forms(&facts)
    } else {
        let none: Vec<String> = Vec::new();
        assert(items_view(filtered@).len() == filtered@.len());
        assert(texts(none@) =~= Seq::<Seq<char>>::empty());
        none
    };
    proof {
        empty_literal();
        assert(texts(forms@).len() == forms@.len());
    }
    let tail = last_facts(filtered);
    let mut fields: Vec<(String, Json)> = Vec::new();
    put(&mut fields, "company", Json::string(str_field_or(data, "entityName", "Unknown")));
    put(&mut fields, "ticker", Json::string(symbol));
    put(&mut fields, "cik", Json::string(cik));
    put(&mut fields, "concept", Json::string(concept));
    put(&mut fields, "taxonomy", Json::string(taxonomy));
    put(&mut fields, "label", Json::string(str_field_or(data, "label", concept)));
    put(&mut fields, "description", Json::string(str_field_or(data, "description", "")));
    put(&mut fields, "unit", Json::Str(unit));
    put(&mut fields, "data", Json::array(tail));
    if forms.len() > 0 {
        let wanted = match period {
            Some(p) => p,
            None => "",
        };
        let note = owned("The '").concat(wanted).concat(
            "' filter matched none of this concept's facts. They are filed on: ",
        ).concat(join(&forms, ", ").as_str()).concat(
            ". Retry without the period filter to see them.",
        );
        put(&mut fields, "note", Json::Str(note));
        put(&mut fields, "available_forms", string_array(&forms));
    }
    let r = Json::object(fields);
    assert(r@->Object_0 =~= financial_concept_outcome(
        symbol@,
        cik@,
        concept@,
        taxonomy@,
        text_view(period),
        data@,
    )->Object_0);
    r
}

/// A period filter that leaves no fact is told apart from a concept without
/// facts: wherever a fact names its form, the reply lists, in ascending order
/// and each once, exactly the forms that the facts are filed on, and a note.
pub proof fn empty_period_names_the_forms(
    symbol: Seq<char>,
    cik: Seq<char>,
    concept: Seq<char>,
    taxonomy: Seq<char>,
    period: Seq<char>,
    data: JsonView,
)
    requires
        facts_in_period(reported_unit(data.field("units"@)).1, Some(period)).len() == 0,
        exists|i: int|
            0 <= i < reported_unit(data.field("units"@)).1.len() && (#[trigger] reported_unit(
                data.field("units"@),
            ).1[i]).field("form"@).as_str() is Some,
    ensures
        ({
            let facts = reported_unit(data.field("units"@)).1;
            let forms = filed_forms(facts);
            let reply = financial_concept_outcome(
                symbol,
                cik,
                concept,
                taxonomy,
                Some(period),
                data,
            );
            &&& reply.field("data"@) == JsonView::Array(Seq::empty())
            &&& reply.field("available_forms"@) == JsonView::Array(strings(forms))
            &&& reply.field("note"@) == JsonView::Str(unmatched_note(period, forms))
            &&& forms.len() > 0
            &&& ascending(forms)
            &&& forall|form: Seq<char>| #[trigger]
                forms.contains(form) <==> exists|i: int|
                    0 <= i < facts.len() && (#[trigger] facts[i]).field("form"@).as_str() == Some(
                        form,
                    )
        }),
{
    let facts = reported_unit(data.field("units"@)).1;
    let form_of = |fact: JsonView| fact.field("form"@).as_str();
    let listed = facts.filter_map(form_of);
    let forms = filed_forms(facts);
    sorted_distinct_ascends(listed);
    assert forall|form: Seq<char>| #[trigger] forms.contains(form) <==> exists|i: int|
        0 <= i < facts.len() && (#[trigger] facts[i]).field("form"@).as_str() == Some(form) by {
        filter_map_finds(facts, form_of, form);
        if exists|i: int|
            0 <= i < facts.len() && (#[trigger] facts[i]).field("form"@).as_str() == Some(form) {
            let i = choose|i: int|
                0 <= i < facts.len() && (#[trigger] facts[i]).field("form"@).as_str() == Some(form);
            assert(form_of(facts[i]) == Some(form));
        }
        if listed.contains(form) {
            let i = choose|i: int| 0 <= i < facts.len() && form_of(#[trigger] facts[i]) == Some(form);
            assert(facts[i].field("form"@).as_str() == Some(form));
        }
    }
    let i = choose|i: int|
        0 <= i < facts.len() && (#[trigger] facts[i]).field("form"@).as_str() is Some;
    assert(forms.contains(facts[i].field("form"@).as_str()->0));
    reply_fields(symbol, cik, concept, taxonomy, Some(period), data);
    assert(facts_in_period(facts, Some(period)) =~= Seq::empty());
}

/// A reply explains nothing where a fact passed the filter or none was given.
pub proof fn full_reply_has_no_note(
    symbol: Seq<char>,
    cik: Seq<char>,
    concept: Seq<char>,
    taxonomy: Seq<char>,
    period: Option<Seq<char>>,
    data: JsonView,
)
    requires
        period is None || facts_in_period(reported_unit(data.field("units"@)).1, period).len() > 0,
    ensures
        ({
            let reply = financial_concept_outcome(symbol, cik, concept, taxonomy, period, data);
            reply.field("note"@) == JsonView::Null && reply.field("available_forms"@)
                == JsonView::Null
        }),
{
    reply_fields(symbol, cik, concept, taxonomy, period, data);
}

/// A reply holds at most twenty facts. They are the last of those that pass the
/// filter, in the order of the document, and each of them passes it.
pub proof fn reply_holds_the_last_facts(
    symbol: Seq<char>,
    cik: Seq<char>,
    concept: Seq<char>,
    taxonomy: Seq<char>,
    period: Option<Seq<char>>,
    data: JsonView,
)
    ensures
        ({
            let passing = facts_in_period(reported_unit(data.field("units"@)).1, period);
            let reply = financial_concept_outcome(symbol, cik, concept, taxonomy, period, data);
            let shown = reply.field("data"@)->Array_0;
            &&& reply.field("data"@) is Array
            &&& shown.len() <= 20
            &&& shown.len() <= passing.len()
            &&& shown.len() < 20 ==> shown == passing
            &&& shown == passing.skip(passing.len() - shown.len())
            &&& forall|i: int| 0 <= i < shown.len() ==> in_period(#[trigger] shown[i], period)
        }),
{
    reply_fields(symbol, cik, concept, taxonomy, period, data);
    let facts = reported_unit(data.field("units"@)).1;
    let pred = |fact: JsonView| in_period(fact, period);
    let passing = facts_in_period(facts, period);
    let shown = last_of(passing, 20);
    assert(passing.skip(0) =~= passing);
    assert forall|i: int| 0 <= i < shown.len() implies in_period(#[trigger] shown[i], period) by {
        let k = i + passing.len() - shown.len();
        assert(shown[i] == passing[k]);
        facts.lemma_filter_pred(pred, k);
    }
}

proof fn filter_map_finds(
    facts: Seq<JsonView>,
    f: spec_fn(JsonView) -> Option<Seq<char>>,
    form: Seq<char>,
)
    ensures
        facts.filter_map(f).contains(form) <==> exists|i: int|
            0 <= i < facts.len() && f(#[trigger] facts[i]) == Some(form),
    decreases facts.len(),
{
    if facts.len() > 0 {
        let rest = facts.drop_last();
        filter_map_finds(rest, f, form);
        let kept = rest.filter_map(f);
        let all = facts.filter_map(f);
        if all.contains(form) {
            let k = choose|k: int| 0 <= k < all.len() && all[k] == form;
            if k < kept.len() {
                assert(kept[k] == form);
                assert(kept.contains(form));
                let i = choose|i: int| 0 <= i < rest.len() && f(#[trigger] rest[i]) == Some(form);
                assert(f(facts[i]) == Some(form));
            } else {
                assert(f(facts[facts.len() - 1]) == Some(form));
            }
        }
        if exists|i: int| 0 <= i < facts.len() && f(#[trigger] facts[i]) == Some(form) {
            let i = choose|i: int| 0 <= i < facts.len() && f(#[trigger] facts[i]) == Some(form);
            if i < rest.len() {
                assert(f(rest[i]) == Some(form));
                assert(kept.contains(form));
                let k = choose|k: int| 0 <= k < kept.len() && kept[k] == form;
                assert(all[k] == form);
            } else {
                assert(all[all.len() - 1] == form);
            }
        }
    }
}

proof fn reply_fields(
    symbol: Seq<char>,
    cik: Seq<char>,
    concept: Seq<char>,
    taxonomy: Seq<char>,
    period: Option<Seq<char>>,
    data: JsonView,
)
    ensures
        ({
            let facts = reported_unit(data.field("units"@)).1;
            let forms = unmatched_forms(facts, period);
            let reply = financial_concept_outcome(symbol, cik, concept, taxonomy, period, data);
            &&& reply.field("data"@) == JsonView::Array(
                last_of(facts_in_period(facts, period), 20),
            )
            &&& reply.field("note"@) == if forms.len() == 0 {
                JsonView::Null
            } else {
                JsonView::Str(unmatched_note(period->0, forms))
            }
            &&& reply.field("available_forms"@) == if forms.len() == 0 {
                JsonView::Null
            } else {
                JsonView::Array(strings(forms))
            }
        }),
{
    reveal_strlit("company");
    reveal_strlit("ticker");
    reveal_strlit("cik");
    reveal_strlit("concept");
    reveal_strlit("taxonomy");
    reveal_strlit("label");
    reveal_strlit("description");
    reveal_strlit("unit");
    reveal_strlit("data");
    reveal_strlit("note");
    reveal_strlit("available_forms");
    let reply = financial_concept_outcome(symbol, cik, concept, taxonomy, period, data);
    let fields = reply->Object_0;
    assert("unit"@[0] != "data"@[0] && "note"@[0] != "data"@[0] && "unit"@[0] != "note"@[0]);
    assert(fields[0].0 == "company"@ && fields[1].0 == "ticker"@ && fields[2].0 == "cik"@);
    assert(fields[3].0 == "concept"@ && fields[4].0 == "taxonomy"@ && fields[5].0 == "label"@);
    assert(fields[6].0 == "description"@ && fields[7].0 == "unit"@ && fields[8].0 == "data"@);
    lookup_finds(fields, "data"@, 8);
    if unmatched_forms(reported_unit(data.field("units"@)).1, period).len() == 0 {
        lookup_misses(fields, "note"@);
        lookup_misses(fields, "available_forms"@);
    } else {
        assert(fields[9].0 == "note"@ && fields[10].0 == "available_forms"@);
        lookup_finds(fields, "note"@, 9);
        lookup_finds(fields, "available_forms"@, 10);
    }
}

/// Whether the unit at position `i` is the one that a concept is reported in:
/// the first of the name `USD`, or where there is none the first of the name
/// `pure`, or where there is neither the first of all.
pub open spec fn is_preferred_unit(units: Seq<(Seq<char>, JsonView)>, i: int) -> bool {
    &&& 0 <= i < units.len()
    &&& {
        ||| units[i].0 == "USD"@ && forall|k: int|
            0 <= k < i ==> (#[trigger] units[k]).0 != "USD"@
        ||| units[i].0 == "pure"@ && (forall|k: int|
            0 <= k < units.len() ==> (#[trigger] units[k]).0 != "USD"@) && (forall|k: int|
            0 <= k < i ==> (#[trigger] units[k]).0 != "pure"@)
        ||| i == 0 && forall|k: int|
            0 <= k < units.len() ==> (#[trigger] units[k]).0 != "USD"@ && units[k].0 != "pure"@
    }
}

/// Whether a fact is filed on one of the forms of a period; any other period
/// than a year or a quarter leaves nothing out.
pub open spec fn filed_in(fact: JsonView, period: Option<Seq<char>>) -> bool {
    let form = fact.field("form"@);
    if period == Some("annual"@) {
        form == JsonView::Str("10-K"@) || form == JsonView::Str("20-F"@) || form == JsonView::Str(
            "40-F"@,
        )
    } else if period == Some("quarterly"@) {
        form == JsonView::Str("10-Q"@) || form == JsonView::Str("6-K"@)
    } else {
        true
    }
}

/// Whether some fact is filed on a form.
pub open spec fn is_filed_on(facts: Seq<JsonView>, form: Seq<char>) -> bool {
    exists|k: int| 0 <= k < facts.len() && (#[trigger] facts[k]).field("form"@) == JsonView::Str(form)
}

proof fn preferred_unit_is_reported(units: Seq<(Seq<char>, JsonView)>, i: int, facts: Seq<JsonView>)
    requires
        is_preferred_unit(units, i),
    ensures
        units[i].1 == JsonView::Array(facts) ==> reported_unit(JsonView::Object(units)) == (
            units[i].0,
            facts,
        ),
        units[i].1 !is Array ==> reported_unit(JsonView::Object(units)) == (
            "unknown"@,
            Seq::<JsonView>::empty(),
        ),
{
    if units[i].0 == "USD"@ && forall|k: int| 0 <= k < i ==> (#[trigger] units[k]).0 != "USD"@ {
        lookup_finds(units, "USD"@, i);
    } else if units[i].0 == "pure"@ {
        lookup_misses(units, "USD"@);
        if forall|k: int| 0 <= k < i ==> (#[trigger] units[k]).0 != "pure"@ {
            lookup_finds(units, "pure"@, i);
        }
    } else {
        lookup_misses(units, "USD"@);
        lookup_misses(units, "pure"@);
    }
}

proof fn period_is_by_form(facts: Seq<JsonView>, period: Option<Seq<char>>)
    ensures
        facts_in_period(facts, period) == facts.filter(|fact: JsonView| filed_in(fact, period)),
{
    reveal_strlit("annual");
    reveal_strlit("quarterly");
    assert("annual"@.len() != "quarterly"@.len());
    let a = |fact: JsonView| in_period(fact, period);
    let b = |fact: JsonView| filed_in(fact, period);
    assert(a =~= b);
}

/// A concept is reported in dollars, or else as a pure number, or else in the
/// first unit that it has, whatever that is, and a single unit of any name is
/// reported. The reply names the unit and holds the last of all its facts that
/// are filed on the forms of the period, at most twenty.
pub proof fn the_preferred_unit_is_shown(
    symbol: Seq<char>,
    cik: Seq<char>,
    concept: Seq<char>,
    taxonomy: Seq<char>,
    period: Option<Seq<char>>,
    data: JsonView,
    units: Seq<(Seq<char>, JsonView)>,
    i: int,
    facts: Seq<JsonView>,
)
    requires
        data.field("units"@) == JsonView::Object(units),
        is_preferred_unit(units, i),
        units[i].1 == JsonView::Array(facts),
    ensures
        ({
            let reply = financial_concept_outcome(symbol, cik, concept, taxonomy, period, data);
            let passing = facts.filter(|fact: JsonView| filed_in(fact, period));
            let shown = reply.field("data"@)->Array_0;
            &&& reply.field("unit"@) == JsonView::Str(units[i].0)
            &&& reply.field("data"@) is Array
            &&& shown.len() == if passing.len() < 20 {
                passing.len()
            } else {
                20
            }
            &&& forall|k: int|
                0 <= k < shown.len() ==> shown[k] == passing[k + passing.len() - shown.len()]
        }),
{
    preferred_unit_is_reported(units, i, facts);
    period_is_by_form(facts, period);
    concept_reply_fields(symbol, cik, concept, taxonomy, period, data);
    reply_fields(symbol, cik, concept, taxonomy, period, data);
    last_items_are_an_end(facts_in_period(facts, period), 20);
}

/// Without units, or where the preferred unit has no list of facts, the unit is
/// unknown and there are no facts.
pub proof fn no_unit_is_shown_where_there_is_none(
    symbol: Seq<char>,
    cik: Seq<char>,
    concept: Seq<char>,
    taxonomy: Seq<char>,
    period: Option<Seq<char>>,
    data: JsonView,
    i: int,
)
    requires
        match data.field("units"@) {
            JsonView::Object(units) => units.len() == 0 || (is_preferred_unit(units, i)
                && units[i].1 !is Array),
            _ => true,
        },
    ensures
        ({
            let reply = financial_concept_outcome(symbol, cik, concept, taxonomy, period, data);
            &&& reply.field("unit"@) == JsonView::Str("unknown"@)
            &&& reply.field("data"@) == JsonView::Array(Seq::empty())
        }),
{
    match data.field("units"@) {
        JsonView::Object(units) => {
            if units.len() > 0 {
                preferred_unit_is_reported(units, i, Seq::empty());
            } else {
                lookup_misses(units, "USD"@);
                lookup_misses(units, "pure"@);
            }
        },
        _ => {},
    }
    concept_reply_fields(symbol, cik, concept, taxonomy, period, data);
    reply_fields(symbol, cik, concept, taxonomy, period, data);
    reveal(Seq::filter);
    assert(last_of(facts_in_period(Seq::empty(), period), 20) =~= Seq::<JsonView>::empty());
}

/// Whether a reply explains that a period left nothing: it lists in ascending
/// order, each once, exactly the forms that the facts are filed on, and a note
/// quotes the period and the forms.
pub open spec fn explains_the_forms(
    reply: JsonView,
    facts: Seq<JsonView>,
    period: Seq<char>,
    forms: Seq<Seq<char>>,
) -> bool {
    &&& reply.field("available_forms"@) == JsonView::Array(
        forms.map_values(|form: Seq<char>| JsonView::Str(form)),
    )
    &&& reply.field("note"@) == JsonView::Str(
        "The '"@ + period + "' filter matched none of this concept's facts. They are filed on: "@
            + joined(forms, ", "@) + ". Retry without the period filter to see them."@,
    )
    &&& forall|i: int, j: int|
        0 <= i < j < forms.len() ==> before(#[trigger] forms[i], #[trigger] forms[j])
    &&& forall|form: Seq<char>| #[trigger] forms.contains(form) <==> is_filed_on(facts, form)
}

/// A period filter that leaves no fact is explained wherever a fact names its
/// form, and nothing is explained otherwise.
pub proof fn an_empty_period_is_explained(
    symbol: Seq<char>,
    cik: Seq<char>,
    concept: Seq<char>,
    taxonomy: Seq<char>,
    period: Option<Seq<char>>,
    data: JsonView,
    units: Seq<(Seq<char>, JsonView)>,
    i: int,
    facts: Seq<JsonView>,
)
    requires
        data.field("units"@) == JsonView::Object(units),
        is_preferred_unit(units, i),
        units[i].1 == JsonView::Array(facts),
    ensures
        ({
            let reply = financial_concept_outcome(symbol, cik, concept, taxonomy, period, data);
            let passing = facts.filter(|fact: JsonView| filed_in(fact, period));
            if period is Some && passing.len() == 0 && exists|form: Seq<char>|
                is_filed_on(facts, form) {
                exists|forms: Seq<Seq<char>>| explains_the_forms(reply, facts, period->0, forms)
            } else {
                reply.field("note"@) == JsonView::Null && reply.field("available_forms"@)
                    == JsonView::Null
            }
        }),
{
    preferred_unit_is_reported(units, i, facts);
    period_is_by_form(facts, period);
    reply_fields(symbol, cik, concept, taxonomy, period, data);
    let reply = financial_concept_outcome(symbol, cik, concept, taxonomy, period, data);
    let form_of = |fact: JsonView| fact.field("form"@).as_str();
    let forms = filed_forms(facts);
    sorted_distinct_ascends(facts.filter_map(form_of));
    assert forall|form: Seq<char>| #[trigger] forms.contains(form) <==> is_filed_on(facts, form) by {
        filter_map_finds(facts, form_of, form);
        if is_filed_on(facts, form) {
            let k = choose|k: int|
                0 <= k < facts.len() && (#[trigger] facts[k]).field("form"@) == JsonView::Str(form);
            assert(form_of(facts[k]) == Some(form));
        }
        if facts.filter_map(form_of).contains(form) {
            let k = choose|k: int| 0 <= k < facts.len() && form_of(#[trigger] facts[k]) == Some(form);
            assert(facts[k].field("form"@) == JsonView::Str(form));
        }
    }
    if period is Some && facts_in_period(facts, period).len() == 0 {
        if exists|form: Seq<char>| is_filed_on(facts, form) {
            let form = choose|form: Seq<char>| is_filed_on(facts, form);
            assert(forms.contains(form));
            assert(strings(forms) =~= forms.map_values(|form: Seq<char>| JsonView::Str(form)));
            assert(explains_the_forms(reply, facts, period->0, forms));
        } else {
            if forms.len() > 0 {
                assert(forms.contains(forms[0]));
            }
        }
    }
}

/// A reply says what was asked for, and what the document calls the company and
/// the concept.
pub proof fn concept_reply_fields(
    symbol: Seq<char>,
    cik: Seq<char>,
    concept: Seq<char>,
    taxonomy: Seq<char>,
    period: Option<Seq<char>>,
    data: JsonView,
)
    ensures
        ({
            let reply = financial_concept_outcome(symbol, cik, concept, taxonomy, period, data);
            &&& reply.field("company"@) == match data.field("entityName"@) {
                JsonView::Str(name) => JsonView::Str(name),
                _ => JsonView::Str("Unknown"@),
            }
            &&& reply.field("ticker"@) == JsonView::Str(symbol)
            &&& reply.field("cik"@) == JsonView::Str(cik)
            &&& reply.field("concept"@) == JsonView::Str(concept)
            &&& reply.field("taxonomy"@) == JsonView::Str(taxonomy)
            &&& reply.field("label"@) == match data.field("label"@) {
                JsonView::Str(label) => JsonView::Str(label),
                _ => JsonView::Str(concept),
            }
            &&& reply.field("description"@) == match data.field("description"@) {
                JsonView::Str(text) => JsonView::Str(text),
                _ => JsonView::Str(Seq::empty()),
            }
            &&& reply.field("unit"@) == JsonView::Str(reported_unit(data.field("units"@)).0)
        }),
{
    reveal_strlit("company");
    reveal_strlit("ticker");
    reveal_strlit("cik");
    reveal_strlit("concept");
    reveal_strlit("taxonomy");
    reveal_strlit("label");
    reveal_strlit("description");
    reveal_strlit("unit");
    let fields = financial_concept_outcome(
        symbol,
        cik,
        concept,
        taxonomy,
        period,
        data,
    )->Object_0;
    assert("company"@[2] == 'm' && "concept"@[2] == 'n');
    assert(fields[0].0 == "company"@ && fields[1].0 == "ticker"@ && fields[2].0 == "cik"@);
    assert(fields[3].0 == "concept"@ && fields[4].0 == "taxonomy"@ && fields[5].0 == "label"@);
    assert(fields[6].0 == "description"@ && fields[7].0 == "unit"@);
    lookup_finds(fields, "company"@, 0);
    lookup_finds(fields, "ticker"@, 1);
    lookup_finds(fields, "cik"@, 2);
    lookup_finds(fields, "concept"@, 3);
    lookup_finds(fields, "taxonomy"@, 4);
    lookup_finds(fields, "label"@, 5);
    lookup_finds(fields, "description"@, 6);
    lookup_finds(fields, "unit"@, 7);
}

} // verus!
