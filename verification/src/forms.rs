//! Which forms carry a filer's annual figures and which its interim figures.

use vstd::prelude::*;
use crate::json::text_view;
use crate::text::same;

verus! {

/// The forms that carry annual figures: `10-K`, and for foreign private issuers
/// `20-F` and `40-F`.
pub open spec fn annual_form(form: Option<Seq<char>>) -> bool {
    match form {
        Some(f) => f == "10-K"@ || f == "20-F"@ || f == "40-F"@,
        None => false,
    }
}

/// The forms that carry interim figures: `10-Q`, and for foreign private
/// issuers `6-K`.
pub open spec fn quarterly_form(form: Option<Seq<char>>) -> bool {
    match form {
        Some(f) => f == "10-Q"@ || f == "6-K"@,
        None => false,
    }
}

/// Whether a form carries a filer's annual figures.
///
/// A foreign private issuer files `20-F` (or `40-F` under the Canadian MJDS)
/// where a domestic filer files `10-K`. Amendments such as `10-K/A` are left
/// out: an amendment restates a period that is present already.
pub fn is_annual_form(form: Option<&str>) -> (r: bool)
    ensures
        r == annual_form(text_view(form)),
{
    match form {
        Some(f) => same(f, "10-K") || same(f, "20-F") || same(f, "40-F"),
        None => false,
    }
}

/// Whether a form carries a filer's interim figures.
///
/// `6-K` is broader than `10-Q`, but it is where a foreign issuer's quarterly
/// figures are tagged.
pub fn is_quarterly_form(form: Option<&str>) -> (r: bool)
    ensures
        r == quarterly_form(text_view(form)),
{
    match form {
        Some(f) => same(f, "10-Q") || same(f, "6-K"),
        None => false,
    }
}

/// No form is both annual and quarterly.
pub proof fn no_form_is_both(form: Option<Seq<char>>)
    ensures
        !(annual_form(form) && quarterly_form(form)),
{
    reveal_strlit("10-K");
    reveal_strlit("20-F");
    reveal_strlit("40-F");
    reveal_strlit("10-Q");
    reveal_strlit("6-K");
    if annual_form(form) && quarterly_form(form) {
        let f = form->0;
        assert(f.len() == 4);
        assert(f[3] == 'Q');
    }
}

/// An amendment is neither annual nor quarterly, whatever form it amends.
pub proof fn amendments_are_left_out(form: Seq<char>)
    ensures
        !annual_form(Some(form + "/A"@)),
        !quarterly_form(Some(form + "/A"@)),
{
    reveal_strlit("10-K");
    reveal_strlit("20-F");
    reveal_strlit("40-F");
    reveal_strlit("10-Q");
    reveal_strlit("6-K");
    reveal_strlit("/A");
    let amended = form + "/A"@;
    assert(amended.last() == 'A');
    assert("10-K"@.last() == 'K' && "20-F"@.last() == 'F' && "40-F"@.last() == 'F');
    assert("10-Q"@.last() == 'Q' && "6-K"@.last() == 'K');
}

/// The annual forms are `10-K`, `20-F` and `40-F`, the quarterly ones `10-Q` and
/// `6-K`, and no form at all is neither.
pub proof fn forms_of_a_year_and_of_a_quarter(form: Seq<char>)
    ensures
        annual_form(Some(form)) <==> (form == "10-K"@ || form == "20-F"@ || form == "40-F"@),
        quarterly_form(Some(form)) <==> (form == "10-Q"@ || form == "6-K"@),
        !annual_form(None),
        !quarterly_form(None),
{
}

} // verus!
