//! Frames: one concept of every company for one period, largest values first.

use vstd::prelude::*;
use vstd::seq_lib::group_to_multiset_ensures;
use crate::doubles::{key_value, keys_order_values, order_key, value_as_double};
use crate::json::{Json, JsonView, Number, items_view, lookup_finds, outcome_view, put};
use crate::lists::at_most;
use crate::text::{
    back_is_clean, characters, front_is_clean, is_white_space, owned, skip_back, skip_front, skip_prefixes,
    prefixes_are_skipped, stands_at, trim, trim_end_char, trim_start_text, trimmed, trimming_leaves_the_core,
};

verus! {

/// A period as the caller writes it, without white space around it, a leading
/// `CY` or `cy` and a trailing `I` or `i`.
pub open spec fn bare_period(period: Seq<char>) -> Seq<char> {
    let start = skip_prefixes(skip_prefixes(trimmed(period), "CY"@), "cy"@);
    skip_back(skip_back(start, |c: char| c == 'I'), |c: char| c == 'i')
}

/// The period code of a request, or why there is none: an instant needs a
/// quarter, and its code ends in `I`.
pub open spec fn period_code_of(period: Seq<char>, instant: bool) -> Result<Seq<char>, Seq<char>> {
    let bare = bare_period(period);
    if !instant {
        Ok(bare)
    } else if bare.contains('Q') {
        Ok(bare + "I"@)
    } else {
        Err(
            "instant=true requires a quarterly period (e.g. '2024Q1'); got '"@ + bare + "'"@,
        )
    }
}

fn has_char(text: &str, c: char) -> (r: bool)
    ensures
        r == text@.contains(c),
{
    let t = characters(text);
    let mut i: usize = 0;
    while i < t.len()
        invariant
            i <= t@.len(),
            t@ == text@,
            forall|k: int| 0 <= k < i ==> t@[k] != c,
        decreases t@.len() - i,
    {
        if t[i] == c {
            return true;
        }
        i += 1;
    }
    false
}

/// The period code of a request, without the leading `CY`.
///
/// Concepts measured at one instant need a quarter and a trailing `I`;
/// concepts measured over a period must not have it.
pub fn period_code(period: &str, instant: bool) -> (r: Result<String, String>)
    ensures
        outcome_view(r) == period_code_of(period@, instant),
{
    let t = trim(period);
    let t = trim_start_text(t.as_str(), "CY");
    let t = trim_start_text(t.as_str(), "cy");
    let t = trim_end_char(t.as_str(), 'I');
    let t = trim_end_char(t.as_str(), 'i');
    if !instant {
        Ok(t)
    } else if has_char(t.as_str(), 'Q') {
        Ok(t.concat("I"))
    } else {
        Err(
            owned("instant=true requires a quarterly period (e.g. '2024Q1'); got '").concat(
                t.as_str(),
            ).concat("'"),
        )
    }
}

/// The value by which an entry of a frame is ranked: its `val` as a double, or
/// zero where that is no number.
pub open spec fn rank(entry: JsonView) -> int {
    value_as_double(entry.field("val"@))
}

/// Ranked entries with one more, behind all that are not smaller.
pub open spec fn insert_ranked(ranked: Seq<JsonView>, entry: JsonView) -> Seq<JsonView>
    decreases ranked.len(),
{
    if ranked.len() > 0 && rank(ranked.last()) < rank(entry) {
        insert_ranked(ranked.drop_last(), entry).push(ranked.last())
    } else {
        ranked.push(entry)
    }
}

/// Entries with the largest values first; equal values keep their order.
pub open spec fn ranked(entries: Seq<JsonView>) -> Seq<JsonView>
    decreases entries.len(),
{
    if entries.len() == 0 {
        Seq::empty()
    } else {
        insert_ranked(ranked(entries.drop_last()), entries.last())
    }
}

proof fn insert_at(sorted: Seq<JsonView>, entry: JsonView, p: int)
    requires
        0 <= p <= sorted.len(),
        forall|k: int| p <= k < sorted.len() ==> rank(#[trigger] sorted[k]) < rank(entry),
        p > 0 ==> rank(sorted[p - 1]) >= rank(entry),
    ensures
        insert_ranked(sorted, entry) == sorted.insert(p, entry),
    decreases sorted.len() - p,
{
    if p < sorted.len() {
        assert(rank(sorted.last()) < rank(entry));
        insert_at(sorted.drop_last(), entry, p);
        assert(sorted.insert(p, entry) =~= sorted.drop_last().insert(p, entry).push(sorted.last()));
    } else {
        assert(sorted.insert(p, entry) =~= sorted.push(entry));
    }
}

proof fn ranked_length(entries: Seq<JsonView>)
    ensures
        ranked(entries).len() == entries.len(),
    decreases entries.len(),
{
    if entries.len() > 0 {
        ranked_length(entries.drop_last());
        insert_length(ranked(entries.drop_last()), entries.last());
    }
}

proof fn insert_length(sorted: Seq<JsonView>, entry: JsonView)
    ensures
        insert_ranked(sorted, entry).len() == sorted.len() + 1,
    decreases sorted.len(),
{
    if sorted.len() > 0 && rank(sorted.last()) < rank(entry) {
        insert_length(sorted.drop_last(), entry);
    }
}

/// The entries of a frame, none where the document has no list of them.
pub open spec fn frame_entries(data: JsonView) -> Seq<JsonView> {
    match data.field("data"@).as_array() {
        Some(entries) => entries,
        None => Seq::empty(),
    }
}

fn entry_key(entry: &Json) -> (r: i64)
    ensures
        key_value(r as int) == rank(entry@),
{
    match entry.get("val") {
        Some(v) => order_key(v),
        None => order_key(&Json::Null),
    }
}

/// The positions of the entries, in the order of their ranks.
fn ranking(entries: &Vec<Json>) -> (r: Vec<usize>)
    ensures
        r@.len() == entries@.len(),
        forall|k: int| 0 <= k < r@.len() ==> (#[trigger] r@[k]) < entries@.len(),
        forall|k: int|
            0 <= k < r@.len() ==> ranked(items_view(entries@))[k] == entries@[#[trigger] r@[k] as int]@,
{
    let ghost all = items_view(entries@);
    let mut keys: Vec<i64> = Vec::new();
    let mut i: usize = 0;
    while i < entries.len()
        invariant
            i <= entries@.len(),
            keys@.len() == i,
            forall|k: int| 0 <= k < i ==> key_value(#[trigger] keys@[k] as int) == rank(entries@[k]@),
        decreases entries@.len() - i,
    {
        keys.push(entry_key(&entries[i]));
        i += 1;
    }
    let mut order: Vec<usize> = Vec::new();
    i = 0;
    assert(all.take(0) =~= Seq::empty());
    while i < entries.len()
        invariant
            i <= entries@.len(),
            all == items_view(entries@),
            keys@.len() == entries@.len(),
            forall|k: int|
                0 <= k < keys@.len() ==> key_value(#[trigger] keys@[k] as int) == rank(entries@[k]@),
            order@.len() == i,
            ranked(all.take(i as int)).len() == i,
            forall|k: int| 0 <= k < i ==> (#[trigger] order@[k]) < i,
            forall|k: int|
                0 <= k < i ==> ranked(all.take(i as int))[k] == entries@[#[trigger] order@[k] as int]@,
        decreases entries@.len() - i,
    {
        let ghost sorted = ranked(all.take(i as int));
        let key: i64 = keys[i];
        let mut p: usize = order.len();
        while p > 0 && keys[order[p - 1]] < key
            invariant
                p <= order@.len(),
                order@.len() == i,
                i < entries@.len(),
                all == items_view(entries@),
                sorted == ranked(all.take(i as int)),
                sorted.len() == i,
                keys@.len() == entries@.len(),
                key == keys@[i as int],
                forall|k: int|
                    0 <= k < keys@.len() ==> key_value(#[trigger] keys@[k] as int) == rank(
                        entries@[k]@,
                    ),
                forall|k: int| 0 <= k < i ==> (#[trigger] order@[k]) < i,
                forall|k: int| 0 <= k < i ==> sorted[k] == entries@[#[trigger] order@[k] as int]@,
                forall|k: int| p <= k < i ==> rank(#[trigger] sorted[k]) < rank(all[i as int]),
            decreases p,
        {
            proof {
                let at = order@[p - 1] as int;
                keys_order_values(keys@[at] as int, key as int);
                assert(sorted[p - 1] == entries@[at]@);
            }
            p -= 1;
        }
        proof {
            if p > 0 {
                let at = order@[p - 1] as int;
                keys_order_values(keys@[at] as int, key as int);
                assert(sorted[p - 1] == entries@[at]@);
            }
            assert(all.take(i + 1).drop_last() =~= all.take(i as int));
            assert(all.take(i + 1).last() == all[i as int]);
            insert_at(sorted, all[i as int], p as int);
        }
        let ghost before = order@;
        order.insert(p, i);
        assert(ranked(all.take(i + 1)) == sorted.insert(p as int, all[i as int]));
        assert forall|k: int| 0 <= k < i + 1 implies ranked(all.take(i + 1))[k]
            == entries@[#[trigger] order@[k] as int]@ by {
            if k < p {
                assert(order@[k] == before[k]);
            } else if k > p {
                assert(order@[k] == before[k - 1]);
            }
        }
        i += 1;
    }
    assert(all.take(i as int) =~= all);
    order
}

/// What a request for a frame replies with.
pub open spec fn xbrl_frames_outcome(
    concept: Seq<char>,
    taxonomy: Seq<char>,
    unit: Seq<char>,
    period_code: Seq<char>,
    instant: bool,
    limit: u64,
    data: JsonView,
) -> JsonView {
    let top = at_most(ranked(frame_entries(data)), limit as int);
    JsonView::Object(
        seq![
            ("concept"@, JsonView::Str(concept)),
            ("taxonomy"@, JsonView::Str(taxonomy)),
            ("unit"@, JsonView::Str(unit)),
            ("period"@, JsonView::Str(period_code)),
            ("instant"@, JsonView::Bool(instant)),
            ("count"@, JsonView::Number(Number::PosInt(top.len() as u64))),
            ("data"@, JsonView::Array(top)),
        ],
    )
}

/// The top entries of a frame, largest values first.
pub fn top_entries(data: &Json, limit: u64) -> (r: Vec<Json>)
    ensures
        items_view(r@) == at_most(ranked(frame_entries(data@)), limit as int),
{
    let mut top: Vec<Json> = Vec::new();
    let entries = match data.array_field("data") {
        Some(e) => e,
        None => {
            assert(items_view(top@) =~= at_most(
                ranked(frame_entries(data@)),
                limit as int,
            ));
            return top;
        },
    };
    let order = ranking(entries);
    let ghost sorted = ranked(items_view(entries@));
    proof {
        ranked_length(items_view(entries@));
    }
    let mut i: usize = 0;
    while i < order.len() && (i as u64) < limit
        invariant
            i <= order@.len(),
            i <= limit,
            order@.len() == entries@.len(),
            sorted.len() == entries@.len(),
            forall|k: int| 0 <= k < order@.len() ==> (#[trigger] order@[k]) < entries@.len(),
            forall|k: int|
                0 <= k < order@.len() ==> sorted[k] == entries@[#[trigger] order@[k] as int]@,
            items_view(top@) == sorted.take(i as int),
        decreases order@.len() - i,
    {
        let at: usize = order[i];
        let ghost before = items_view(top@);
        top.push(entries[at].clone());
        assert(items_view(top@) =~= before.push(entries@[at as int]@));
        assert(sorted.take(i + 1) =~= sorted.take(i as int).push(sorted[i as int]));
        i += 1;
    }
    assert(items_view(top@) =~= at_most(sorted, limit as int));
    top
}

/// What a request for a frame replies with.
pub fn xbrl_frames_reply(
    concept: &str,
    taxonomy: &str,
    unit: &str,
    period_code: &str,
    instant: bool,
    limit: u64,
    data: &Json,
) -> (r: Json)
    ensures
        r@ == xbrl_frames_outcome(
            concept@,
            taxonomy@,
            unit@,
            period_code@,
            instant,
            limit,
            data@,
        ),
{
    let top = top_entries(data, limit);
    let count: u64 = top.len() as u64;
    assert(items_view(top@).len() == top@.len());
    let mut fields: Vec<(String, Json)> = Vec::new();
    put(&mut fields, "concept", Json::string(concept));
    put(&mut fields, "taxonomy", Json::string(taxonomy));
    put(&mut fields, "unit", Json::string(unit));
    put(&mut fields, "period", Json::string(period_code));
    put(&mut fields, "instant", Json::Bool(instant));
    put(&mut fields, "count", Json::Number(Number::PosInt(count)));
    put(&mut fields, "data", Json::array(top));
    let r = Json::object(fields);
    assert(r@->Object_0 =~= xbrl_frames_outcome(
        concept@,
        taxonomy@,
        unit@,
        period_code@,
        instant,
        limit,
        data@,
    )->Object_0);
    r
}

proof fn insertion_point(sorted: Seq<JsonView>, entry: JsonView) -> (p: int)
    ensures
        0 <= p <= sorted.len(),
        forall|k: int| p <= k < sorted.len() ==> rank(#[trigger] sorted[k]) < rank(entry),
        p > 0 ==> rank(sorted[p - 1]) >= rank(entry),
        insert_ranked(sorted, entry) == sorted.insert(p, entry),
    decreases sorted.len(),
{
    let p = if sorted.len() > 0 && rank(sorted.last()) < rank(entry) {
        let shorter = sorted.drop_last();
        let p = insertion_point(shorter, entry);
        assert forall|k: int| p <= k < sorted.len() implies rank(#[trigger] sorted[k]) < rank(
            entry,
        ) by {
            if k < shorter.len() {
                assert(shorter[k] == sorted[k]);
            }
        }
        p
    } else {
        sorted.len() as int
    };
    insert_at(sorted, entry, p);
    p
}

/// The entries of a frame come out with the largest values first.
pub proof fn ranked_is_descending(entries: Seq<JsonView>)
    ensures
        ranked(entries).len() == entries.len(),
        forall|i: int, j: int|
            0 <= i <= j < ranked(entries).len() ==> rank(#[trigger] ranked(entries)[i]) >= rank(
                #[trigger] ranked(entries)[j],
            ),
    decreases entries.len(),
{
    ranked_length(entries);
    if entries.len() > 0 {
        let sorted = ranked(entries.drop_last());
        let entry = entries.last();
        ranked_is_descending(entries.drop_last());
        let p = insertion_point(sorted, entry);
        let all = ranked(entries);
        assert(all == sorted.insert(p, entry));
        assert forall|i: int, j: int| 0 <= i <= j < all.len() implies rank(#[trigger] all[i])
            >= rank(#[trigger] all[j]) by {
            let x = if i < p {
                i
            } else {
                i - 1
            };
            let y = if j < p {
                j
            } else {
                j - 1
            };
            if i != p {
                assert(all[i] == sorted[x]);
            }
            if j != p {
                assert(all[j] == sorted[y]);
            }
            if i < p && p > 0 {
                assert(rank(sorted[i]) >= rank(sorted[p - 1]));
            }
        }
    }
}

proof fn insert_keeps_entries(sorted: Seq<JsonView>, entry: JsonView)
    ensures
        insert_ranked(sorted, entry).to_multiset() == sorted.to_multiset().insert(entry),
    decreases sorted.len(),
{
    broadcast use group_to_multiset_ensures;

    if sorted.len() > 0 && rank(sorted.last()) < rank(entry) {
        insert_keeps_entries(sorted.drop_last(), entry);
        assert(sorted =~= sorted.drop_last().push(sorted.last()));
        assert(insert_ranked(sorted, entry).to_multiset() =~= sorted.to_multiset().insert(entry));
    }
}

/// Ranking neither loses nor invents an entry.
pub proof fn ranked_keeps_entries(entries: Seq<JsonView>)
    ensures
        ranked(entries).to_multiset() == entries.to_multiset(),
    decreases entries.len(),
{
    broadcast use group_to_multiset_ensures;

    if entries.len() > 0 {
        ranked_keeps_entries(entries.drop_last());
        insert_keeps_entries(ranked(entries.drop_last()), entries.last());
        assert(entries =~= entries.drop_last().push(entries.last()));
    } else {
        assert(ranked(entries) =~= entries);
    }
}

proof fn insert_keeps_order(sorted: Seq<JsonView>, entry: JsonView, value: int)
    ensures
        insert_ranked(sorted, entry).filter(|e: JsonView| rank(e) == value) == sorted.push(
            entry,
        ).filter(|e: JsonView| rank(e) == value),
    decreases sorted.len(),
{
    reveal(Seq::filter);
    let pred = |e: JsonView| rank(e) == value;
    if sorted.len() > 0 && rank(sorted.last()) < rank(entry) {
        let shorter = sorted.drop_last();
        insert_keeps_order(shorter, entry, value);
        let longer = insert_ranked(shorter, entry);
        assert(longer.push(sorted.last()).drop_last() =~= longer);
        assert(sorted.push(entry).drop_last() =~= sorted);
        assert(shorter.push(entry).drop_last() =~= shorter);
        let kept = shorter.filter(pred);
        assert(longer.filter(pred) == shorter.push(entry).filter(pred));
        assert(shorter.push(entry).filter(pred) == if pred(entry) {
            kept.push(entry)
        } else {
            kept
        });
        assert(sorted.filter(pred) == if pred(sorted.last()) {
            kept.push(sorted.last())
        } else {
            kept
        });
    }
}

/// Entries of equal value keep the order in which the frame lists them.
pub proof fn ranked_is_stable(entries: Seq<JsonView>, value: int)
    ensures
        ranked(entries).filter(|e: JsonView| rank(e) == value) == entries.filter(
            |e: JsonView| rank(e) == value,
        ),
    decreases entries.len(),
{
    reveal(Seq::filter);
    let pred = |e: JsonView| rank(e) == value;
    if entries.len() > 0 {
        let rest = entries.drop_last();
        ranked_is_stable(rest, value);
        insert_keeps_order(ranked(rest), entries.last(), value);
        assert(ranked(rest).push(entries.last()).drop_last() =~= ranked(rest));
        assert(ranked(rest).filter(pred) == rest.filter(pred));
    } else {
        assert(ranked(entries) =~= entries);
    }
}

/// A reply holds as many entries as it counts: all, or as many as were asked
/// for. None that it leaves out has a larger value than one that it holds.
pub proof fn reply_holds_the_largest_entries(
    concept: Seq<char>,
    taxonomy: Seq<char>,
    unit: Seq<char>,
    period_code: Seq<char>,
    instant: bool,
    limit: u64,
    data: JsonView,
)
    ensures
        ({
            let entries = ranked(frame_entries(data));
            let reply = xbrl_frames_outcome(
                concept,
                taxonomy,
                unit,
                period_code,
                instant,
                limit,
                data,
            );
            let shown = reply.field("data"@)->Array_0;
            &&& reply.field("data"@) is Array
            &&& reply.field("count"@).as_u64() == Some(shown.len() as u64)
            &&& shown.len() == if limit < frame_entries(data).len() {
                limit as nat
            } else {
                frame_entries(data).len()
            }
            &&& forall|i: int, j: int|
                0 <= i < shown.len() <= j < entries.len() ==> rank(#[trigger] shown[i]) >= rank(
                    #[trigger] entries[j],
                )
        }),
{
    reveal_strlit("concept");
    reveal_strlit("taxonomy");
    reveal_strlit("unit");
    reveal_strlit("period");
    reveal_strlit("instant");
    reveal_strlit("count");
    reveal_strlit("data");
    let entries = ranked(frame_entries(data));
    let reply = xbrl_frames_outcome(concept, taxonomy, unit, period_code, instant, limit, data);
    let fields = reply->Object_0;
    let top = at_most(entries, limit as int);
    assert("unit"@[0] != "data"@[0] && "period"@[0] != "count"@[0]);
    assert(fields[0].0 == "concept"@ && fields[1].0 == "taxonomy"@ && fields[2].0 == "unit"@);
    assert(fields[3].0 == "period"@ && fields[4].0 == "instant"@ && fields[5].0 == "count"@);
    assert(fields[6].0 == "data"@);
    lookup_finds(fields, "count"@, 5);
    lookup_finds(fields, "data"@, 6);
    ranked_is_descending(frame_entries(data));
    assert forall|i: int, j: int| 0 <= i < top.len() <= j < entries.len() implies rank(
        #[trigger] top[i],
    ) >= rank(#[trigger] entries[j]) by {
        assert(top[i] == entries[i]);
    }
}

/// An instant has a code exactly where its period names a quarter, and the code
/// ends in `I`.
pub proof fn instant_codes_are_marked(period: Seq<char>)
    ensures
        period_code_of(period, true) is Ok <==> bare_period(period).contains('Q'),
        period_code_of(period, true) matches Ok(code) ==> code == bare_period(period).push('I'),
{
    reveal_strlit("I");
    assert(bare_period(period) + "I"@ =~= bare_period(period).push('I'));
}

/// Whether a text ends in an `I`, one or more `i` and then any number of `I`.
pub open spec fn ends_in_crossed_marks(text: Seq<char>) -> bool {
    exists|k: int, m: int| #[trigger] crossed_marks_at(text, k, m)
}

/// Whether an `I` stands at `k`, nothing but `i` from there to `m`, and nothing
/// but `I` from `m` on.
pub open spec fn crossed_marks_at(text: Seq<char>, k: int, m: int) -> bool {
    &&& 0 <= k < m - 1 < text.len()
    &&& text[k] == 'I'
    &&& forall|j: int| k < j < m ==> #[trigger] text[j] == 'i'
    &&& forall|j: int| m <= j < text.len() ==> #[trigger] text[j] == 'I'
}

/// The code of a duration carries no mark: it never ends in `i`, and in `I`
/// only where the period is written with crossed marks at its end.
pub proof fn duration_codes_are_unmarked(period: Seq<char>)
    ensures
        ({
            let start = skip_prefixes(skip_prefixes(trimmed(period), "CY"@), "cy"@);
            let code = bare_period(period);
            &&& period_code_of(period, false) == Ok::<_, Seq<char>>(code)
            &&& code.len() > 0 ==> code.last() != 'i'
            &&& code.len() > 0 && code.last() == 'I' ==> ends_in_crossed_marks(start)
        }),
{
    let start = skip_prefixes(skip_prefixes(trimmed(period), "CY"@), "cy"@);
    let m = cut_at(start, 'I');
    let middle = start.take(m);
    let n = cut_at(middle, 'i');
    let code = bare_period(period);
    assert(code == middle.take(n));
    if code.len() > 0 && code.last() == 'I' {
        assert(start[n - 1] == 'I');
        assert(m > n) by {
            if m == n {
                assert(start[m - 1] != 'I');
            }
        }
        assert forall|j: int| n - 1 < j < m implies #[trigger] start[j] == 'i' by {
            assert(middle[j] == start[j]);
        }
        assert(crossed_marks_at(start, n - 1, m));
    }
}

proof fn cut_at(text: Seq<char>, c: char) -> (n: int)
    ensures
        0 <= n <= text.len(),
        skip_back(text, |x: char| x == c) == text.take(n),
        forall|j: int| n <= j < text.len() ==> #[trigger] text[j] == c,
        n > 0 ==> text[n - 1] != c,
    decreases text.len(),
{
    if text.len() > 0 && text.last() == c {
        let n = cut_at(text.drop_last(), c);
        assert(text.drop_last().take(n) =~= text.take(n));
        assert forall|j: int| n <= j < text.len() implies #[trigger] text[j] == c by {
            if j < text.len() - 1 {
                assert(text.drop_last()[j] == text[j]);
            }
        }
        n
    } else {
        assert(text.take(text.len() as int) =~= text);
        text.len() as int
    }
}

proof fn clean_ends_stay(text: Seq<char>)
    ensures
        trimmed(text) == text && text.len() > 0 ==> !is_white_space(text[0]) && !is_white_space(
            text.last(),
        ),
        text.len() > 0 && !is_white_space(text[0]) && !is_white_space(text.last()) ==> trimmed(text)
            == text,
{
    let p = |c: char| is_white_space(c);
    front_is_clean(text, p);
    back_is_clean(skip_front(text, p), p);
}

proof fn last_char_stays(text: Seq<char>, prefix: Seq<char>, c: char)
    requires
        !prefix.contains(c),
    ensures
        skip_prefixes(text.push(c), prefix) == skip_prefixes(text, prefix).push(c),
    decreases text.len(),
{
    let longer = text.push(c);
    let n = prefix.len() as int;
    if n > 0 && stands_at(longer, prefix, 0) {
        assert(n <= text.len()) by {
            if n > text.len() {
                assert(longer.subrange(0, n)[n - 1] == c);
                assert(prefix[n - 1] == c);
            }
        }
        assert(longer.subrange(0, n) =~= text.subrange(0, n));
        assert(longer.skip(n) =~= text.skip(n).push(c));
        last_char_stays(text.skip(n), prefix, c);
    } else if n > 0 && stands_at(text, prefix, 0) {
        assert(longer.subrange(0, n) =~= text.subrange(0, n));
    }
}

proof fn last_is_kept(text: Seq<char>, prefix: Seq<char>)
    ensures
        skip_prefixes(text, prefix).len() > 0 ==> text.len() > 0 && skip_prefixes(
            text,
            prefix,
        ).last() == text.last(),
    decreases text.len(),
{
    if prefix.len() > 0 && stands_at(text, prefix, 0) {
        last_is_kept(text.skip(prefix.len() as int), prefix);
    }
}

/// A period may be written with or without the leading `CY` and the trailing
/// `I`, or with `cy` and `i`: its code is the same. The small forms are looked
/// at after the large ones, so `cy` before a `CY` and `i` behind an `I` are
/// left out.
pub proof fn prefix_and_mark_are_optional(period: Seq<char>, instant: bool)
    requires
        trimmed(period) == period,
    ensures
        period_code_of("CY"@ + period, instant) == period_code_of(period, instant),
        period_code_of(period.push('I'), instant) == period_code_of(period, instant),
        !stands_at(period, "CY"@, 0) ==> period_code_of("cy"@ + period, instant) == period_code_of(
            period,
            instant,
        ),
        (period.len() > 0 ==> period.last() != 'I') ==> period_code_of(period.push('i'), instant)
            == period_code_of(period, instant),
{
    reveal_strlit("CY");
    reveal_strlit("cy");
    clean_ends_stay(period);
    let prefixed = "CY"@ + period;
    assert(prefixed[0] == 'C');
    assert(prefixed.last() == if period.len() == 0 {
        'Y'
    } else {
        period.last()
    });
    clean_ends_stay(prefixed);
    assert(prefixed.subrange(0, 2) =~= "CY"@);
    assert(stands_at(prefixed, "CY"@, 0));
    assert(prefixed.skip(2) =~= period);
    let marked = period.push('I');
    clean_ends_stay(marked);
    last_char_stays(period, "CY"@, 'I');
    last_char_stays(skip_prefixes(period, "CY"@), "cy"@, 'I');
    let start = skip_prefixes(skip_prefixes(period, "CY"@), "cy"@);
    assert(start.push('I').drop_last() =~= start);
    small_prefix_is_optional(period, instant);
    small_mark_is_optional(period, instant);
}

proof fn small_prefix_is_optional(period: Seq<char>, instant: bool)
    requires
        trimmed(period) == period,
    ensures
        !stands_at(period, "CY"@, 0) ==> period_code_of("cy"@ + period, instant) == period_code_of(
            period,
            instant,
        ),
{
    reveal_strlit("CY");
    reveal_strlit("cy");
    clean_ends_stay(period);
    let prefixed = "cy"@ + period;
    assert(prefixed[0] == 'c');
    assert(prefixed.last() == if period.len() == 0 {
        'y'
    } else {
        period.last()
    });
    clean_ends_stay(prefixed);
    assert(!stands_at(prefixed, "CY"@, 0)) by {
        assert(prefixed.subrange(0, 2)[0] == 'c');
        assert("CY"@[0] == 'C');
    }
    assert(prefixed.subrange(0, 2) =~= "cy"@);
    assert(stands_at(prefixed, "cy"@, 0));
    assert(prefixed.skip(2) =~= period);
}

proof fn small_mark_is_optional(period: Seq<char>, instant: bool)
    requires
        trimmed(period) == period,
    ensures
        (period.len() > 0 ==> period.last() != 'I') ==> period_code_of(period.push('i'), instant)
            == period_code_of(period, instant),
{
    reveal_strlit("CY");
    reveal_strlit("cy");
    clean_ends_stay(period);
    let marked = period.push('i');
    clean_ends_stay(marked);
    last_char_stays(period, "CY"@, 'i');
    last_char_stays(skip_prefixes(period, "CY"@), "cy"@, 'i');
    last_is_kept(period, "CY"@);
    last_is_kept(skip_prefixes(period, "CY"@), "cy"@);
    let start = skip_prefixes(skip_prefixes(period, "CY"@), "cy"@);
    assert(start.push('i').drop_last() =~= start);
    assert(start.push('i').last() == 'i');
}

proof fn white_space_goes_behind(text: Seq<char>, c: char)
    requires
        is_white_space(c),
    ensures
        trimmed(text.push(c)) == trimmed(text),
    decreases text.len(),
{
    let p = |x: char| is_white_space(x);
    let longer = text.push(c);
    if text.len() == 0 {
        assert(longer.drop_first() =~= text);
    } else if p(text[0]) {
        assert(longer.drop_first() =~= text.drop_first().push(c));
        white_space_goes_behind(text.drop_first(), c);
    } else {
        assert(longer.drop_last() =~= text);
    }
}

/// White space around a period makes no difference to its code.
pub proof fn white_space_is_ignored(period: Seq<char>, c: char, instant: bool)
    requires
        is_white_space(c),
    ensures
        period_code_of(seq![c] + period, instant) == period_code_of(period, instant),
        period_code_of(period.push(c), instant) == period_code_of(period, instant),
{
    let longer = seq![c] + period;
    assert(longer[0] == c);
    assert(longer.drop_first() =~= period);
    white_space_goes_behind(period, c);
}

/// A period that is written plainly, without white space around it, `CY` or
/// `cy` before it and `I` or `i` behind it, is its own code.
pub proof fn plain_periods_are_their_own_code(period: Seq<char>)
    requires
        period.len() > 0 ==> !is_white_space(period[0]) && !is_white_space(period.last()),
        period.len() >= 2 ==> period.take(2) != seq!['C', 'Y'] && period.take(2) != seq!['c', 'y'],
        period.len() > 0 ==> period.last() != 'I' && period.last() != 'i',
    ensures
        period_code_of(period, false) == Ok::<_, Seq<char>>(period),
{
    reveal_strlit("CY");
    reveal_strlit("cy");
    assert("CY"@ =~= seq!['C', 'Y']);
    assert("cy"@ =~= seq!['c', 'y']);
    trimming_leaves_the_core(Seq::empty(), period, Seq::empty());
    assert(Seq::<char>::empty() + period + Seq::<char>::empty() =~= period);
    prefixes_are_skipped(period, "CY"@);
    prefixes_are_skipped(period, "cy"@);
}

/// A duration always has a code. An instant has that code with an `I` behind
/// it where the code names a quarter, and otherwise an error that quotes it.
pub proof fn an_instant_marks_the_code_of_the_duration(period: Seq<char>, code: Seq<char>)
    ensures
        period_code_of(period, false) is Ok,
        period_code_of(period, false) == Ok::<_, Seq<char>>(code) ==> period_code_of(period, true)
            == if code.contains('Q') {
            Ok(code.push('I'))
        } else {
            Err(
                "instant=true requires a quarterly period (e.g. '2024Q1'); got '"@ + code + "'"@,
            )
        },
{
    reveal_strlit("I");
    assert(code + "I"@ =~= code.push('I'));
}

/// The value of an entry of a frame: what its `val` is as a double.
pub open spec fn entry_value(entry: JsonView) -> int {
    value_as_double(entry.field("val"@))
}

/// Whether `shown` are entries of a list with the largest values first and
/// `rest` are all others: together they are the list in another order, in which
/// entries of one value have kept theirs, and none of the rest is larger than
/// one that is shown.
pub open spec fn shows_the_largest(
    shown: Seq<JsonView>,
    rest: Seq<JsonView>,
    list: Seq<JsonView>,
    value: int,
) -> bool {
    &&& (shown + rest).to_multiset() == list.to_multiset()
    &&& (shown + rest).filter(|e: JsonView| entry_value(e) == value) == list.filter(
        |e: JsonView| entry_value(e) == value,
    )
    &&& forall|i: int, j: int|
        0 <= i <= j < shown.len() ==> entry_value(#[trigger] shown[i]) >= entry_value(
            #[trigger] shown[j],
        )
    &&& forall|i: int, j: int|
        0 <= i < shown.len() && 0 <= j < rest.len() ==> entry_value(#[trigger] shown[i])
            >= entry_value(#[trigger] rest[j])
}

/// A reply shows the largest of all entries that the document lists, however
/// many there are: as many as were asked for or all, in descending order. A
/// document without a list has none.
pub proof fn the_largest_of_all_entries_are_shown(
    concept: Seq<char>,
    taxonomy: Seq<char>,
    unit: Seq<char>,
    period_code: Seq<char>,
    instant: bool,
    limit: u64,
    data: JsonView,
    list: Seq<JsonView>,
    value: int,
)
    requires
        data.field("data"@) == JsonView::Array(list) || (data.field("data"@) !is Array && list.len()
            == 0),
    ensures
        ({
            let reply = xbrl_frames_outcome(
                concept,
                taxonomy,
                unit,
                period_code,
                instant,
                limit,
                data,
            );
            let shown = reply.field("data"@)->Array_0;
            &&& reply.field("data"@) is Array
            &&& shown.len() == if limit < list.len() {
                limit as nat
            } else {
                list.len()
            }
            &&& exists|rest: Seq<JsonView>| shows_the_largest(shown, rest, list, value)
        }),
{
    let entries = ranked(list);
    let reply = xbrl_frames_outcome(concept, taxonomy, unit, period_code, instant, limit, data);
    reply_holds_the_largest_entries(
        concept,
        taxonomy,
        unit,
        period_code,
        instant,
        limit,
        data,
    );
    assert(data.field("data"@) !is Array ==> list =~= Seq::<JsonView>::empty());
    assert(frame_entries(data) == list);
    frame_reply_fields(concept, taxonomy, unit, period_code, instant, limit, data);
    let shown = reply.field("data"@)->Array_0;
    let rest = entries.skip(shown.len() as int);
    ranked_is_descending(list);
    ranked_keeps_entries(list);
    ranked_is_stable(list, value);
    assert(shown == at_most(entries, limit as int));
    assert(shown + rest =~= entries);
    assert forall|i: int, j: int| 0 <= i <= j < shown.len() implies entry_value(
        #[trigger] shown[i],
    ) >= entry_value(#[trigger] shown[j]) by {
        assert(shown[i] == entries[i] && shown[j] == entries[j]);
        assert(rank(entries[i]) >= rank(entries[j]));
    }
    assert forall|i: int, j: int| 0 <= i < shown.len() && 0 <= j < rest.len() implies entry_value(
        #[trigger] shown[i],
    ) >= entry_value(#[trigger] rest[j]) by {
        assert(shown[i] == entries[i] && rest[j] == entries[j + shown.len()]);
        assert(rank(entries[i]) >= rank(entries[j + shown.len()]));
    }
    let by_rank = |e: JsonView| rank(e) == value;
    let by_value = |e: JsonView| entry_value(e) == value;
    assert(by_rank =~= by_value);
    assert(shows_the_largest(shown, rest, list, value));
}

/// A reply says what was asked for, and how many entries it shows.
pub proof fn frame_reply_fields(
    concept: Seq<char>,
    taxonomy: Seq<char>,
    unit: Seq<char>,
    period_code: Seq<char>,
    instant: bool,
    limit: u64,
    data: JsonView,
)
    ensures
        ({
            let reply = xbrl_frames_outcome(
                concept,
                taxonomy,
                unit,
                period_code,
                instant,
                limit,
                data,
            );
            &&& reply.field("concept"@) == JsonView::Str(concept)
            &&& reply.field("taxonomy"@) == JsonView::Str(taxonomy)
            &&& reply.field("unit"@) == JsonView::Str(unit)
            &&& reply.field("period"@) == JsonView::Str(period_code)
            &&& reply.field("instant"@) == JsonView::Bool(instant)
            &&& reply.field("data"@) == JsonView::Array(
                at_most(ranked(frame_entries(data)), limit as int),
            )
            &&& reply.field("count"@) == JsonView::Number(
                Number::PosInt(reply.field("data"@)->Array_0.len() as u64),
            )
        }),
{
    reveal_strlit("concept");
    reveal_strlit("taxonomy");
    reveal_strlit("unit");
    reveal_strlit("period");
    reveal_strlit("instant");
    reveal_strlit("count");
    reveal_strlit("data");
    let fields = xbrl_frames_outcome(
        concept,
        taxonomy,
        unit,
        period_code,
        instant,
        limit,
        data,
    )->Object_0;
    assert("unit"@[0] == 'u' && "data"@[0] == 'd');
    assert("concept"@[0] == 'c' && "instant"@[0] == 'i');
    assert(fields[0].0 == "concept"@ && fields[1].0 == "taxonomy"@ && fields[2].0 == "unit"@);
    assert(fields[3].0 == "period"@ && fields[4].0 == "instant"@ && fields[5].0 == "count"@);
    assert(fields[6].0 == "data"@);
    lookup_finds(fields, "concept"@, 0);
    lookup_finds(fields, "taxonomy"@, 1);
    lookup_finds(fields, "unit"@, 2);
    lookup_finds(fields, "period"@, 3);
    lookup_finds(fields, "instant"@, 4);
    lookup_finds(fields, "count"@, 5);
    lookup_finds(fields, "data"@, 6);
}

} // verus!
