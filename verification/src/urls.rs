//! Where EDGAR keeps its documents: the address of each endpoint, and how text
//! from outside enters an address.

use vstd::prelude::*;
use vstd::utf8::{
    encode_scalar, encode_utf8, encode_utf8_decode_utf8, is_ascii_chars_encode_utf8,
};
use crate::text::{contains_text, empty_literal, owned, replace_char, replaced, stands_at};

verus! {

/// The bytes that stand for themselves in an encoded segment: the ASCII letters
/// and digits, and `-`, `.`, `_` and `~`.
pub open spec fn unreserved(byte: u8) -> bool {
    ||| 0x30 <= byte <= 0x39
    ||| 0x41 <= byte <= 0x5a
    ||| 0x61 <= byte <= 0x7a
    ||| byte == 0x2d
    ||| byte == 0x2e
    ||| byte == 0x5f
    ||| byte == 0x7e
}

/// The upper-case hexadecimal digit of a number below sixteen.
pub open spec fn hex_digit(n: int) -> char {
    if n < 10 {
        (0x30 + n) as char
    } else {
        (0x41 + n - 10) as char
    }
}

/// One byte of an encoded segment: itself, or a percent sign and its two
/// hexadecimal digits.
pub open spec fn percent_byte(byte: u8) -> Seq<char> {
    if unreserved(byte) {
        seq![byte as char]
    } else {
        seq!['%', hex_digit(byte as int / 16), hex_digit(byte as int % 16)]
    }
}

/// Bytes, each percent-encoded where it has to be.
pub open spec fn percent_bytes(bytes: Seq<u8>) -> Seq<char>
    decreases bytes.len(),
{
    if bytes.len() == 0 {
        Seq::empty()
    } else {
        percent_byte(bytes[0]) + percent_bytes(bytes.drop_first())
    }
}

/// A text, percent-encoded byte by byte in UTF-8.
pub open spec fn percent_encoded(text: Seq<char>) -> Seq<char> {
    percent_bytes(encode_utf8(text))
}

/// Calls `urlencoding::encode`. Claimed: every byte of the text's UTF-8 form
/// stays as it is where it is a letter, a digit or one of `-`, `.`, `_` and `~`,
/// and otherwise becomes a percent sign and two upper-case hexadecimal digits.
#[verifier::external_body]
fn encode_segment(text: &str) -> (r: String)
    ensures
        r@ == percent_encoded(text@),
{
    urlencoding::encode(text).into_owned()
}

/// The file that lists every ticker with its CIK.
pub const TICKERS_URL: &'static str = "https://www.sec.gov/files/company_tickers.json";

/// The file that lists every ticker with its exchange.
pub const EXCHANGE_TICKERS_URL: &'static str = "https://www.sec.gov/files/company_tickers_exchange.json";

/// The address of a company's submissions.
pub open spec fn submissions_address(cik: Seq<char>) -> Seq<char> {
    "https://data.sec.gov/submissions/CIK"@ + cik + ".json"@
}

/// The address of a company's submissions.
pub fn submissions_url(cik: &str) -> (r: String)
    ensures
        r@ == submissions_address(cik@),
{
    owned("https://data.sec.gov/submissions/CIK").concat(cik).concat(".json")
}

/// The address of one file of older submissions, by the file's name.
pub open spec fn submissions_file_address(name: Seq<char>) -> Seq<char> {
    "https://data.sec.gov/submissions/"@ + name
}

/// The address of one file of older submissions, by the file's name.
pub fn submissions_file_url(name: &str) -> (r: String)
    ensures
        r@ == submissions_file_address(name@),
{
    owned("https://data.sec.gov/submissions/").concat(name)
}

/// The address of one concept of a company. The taxonomy and the concept are
/// percent-encoded.
pub open spec fn company_concept_address(
    cik: Seq<char>,
    taxonomy: Seq<char>,
    concept: Seq<char>,
) -> Seq<char> {
    "https://data.sec.gov/api/xbrl/companyconcept/CIK"@ + cik + "/"@ + percent_encoded(taxonomy)
        + "/"@ + percent_encoded(concept) + ".json"@
}

/// The address of one concept of a company.
pub fn company_concept_url(cik: &str, taxonomy: &str, concept: &str) -> (r: String)
    ensures
        r@ == company_concept_address(cik@, taxonomy@, concept@),
{
    let taxonomy = encode_segment(taxonomy);
    let concept = encode_segment(concept);
    owned("https://data.sec.gov/api/xbrl/companyconcept/CIK").concat(cik).concat("/").concat(
        taxonomy.as_str(),
    ).concat("/").concat(concept.as_str()).concat(".json")
}

/// The address of all facts of a company.
pub open spec fn company_facts_address(cik: Seq<char>) -> Seq<char> {
    "https://data.sec.gov/api/xbrl/companyfacts/CIK"@ + cik + ".json"@
}

/// The address of all facts of a company.
pub fn company_facts_url(cik: &str) -> (r: String)
    ensures
        r@ == company_facts_address(cik@),
{
    owned("https://data.sec.gov/api/xbrl/companyfacts/CIK").concat(cik).concat(".json")
}

/// A unit as a path segment spells it: `-per-` for each slash.
pub open spec fn unit_segment(unit: Seq<char>) -> Seq<char> {
    percent_encoded(replaced(unit, '/', "-per-"@))
}

/// The address of a frame. All four segments are percent-encoded; the `CY`
/// before the period is not part of any of them.
pub open spec fn xbrl_frames_address(
    taxonomy: Seq<char>,
    concept: Seq<char>,
    unit: Seq<char>,
    period_code: Seq<char>,
) -> Seq<char> {
    "https://data.sec.gov/api/xbrl/frames/"@ + percent_encoded(taxonomy) + "/"@ + percent_encoded(
        concept,
    ) + "/"@ + unit_segment(unit) + "/CY"@ + percent_encoded(period_code) + ".json"@
}

/// The address of a frame: one concept of every company for one period.
///
/// `period_code` is the period without the leading `CY`, such as `2024`,
/// `2024Q1` or `2024Q1I`.
pub fn xbrl_frames_url(taxonomy: &str, concept: &str, unit: &str, period_code: &str) -> (r: String)
    ensures
        r@ == xbrl_frames_address(taxonomy@, concept@, unit@, period_code@),
{
    let taxonomy = encode_segment(taxonomy);
    let concept = encode_segment(concept);
    let unit_per = replace_char(unit, '/', "-per-");
    let unit = encode_segment(unit_per.as_str());
    let period_code = encode_segment(period_code);
    owned("https://data.sec.gov/api/xbrl/frames/").concat(taxonomy.as_str()).concat("/").concat(
        concept.as_str(),
    ).concat("/").concat(unit.as_str()).concat("/CY").concat(period_code.as_str()).concat(".json")
}

/// An accession number as a path segment spells it: without its dashes.
pub open spec fn accession_segment(accession: Seq<char>) -> Seq<char> {
    replaced(accession, '-', Seq::empty())
}

/// The address of a document in the archive.
pub open spec fn archive_address(
    cik_num: Seq<char>,
    accession: Seq<char>,
    document: Seq<char>,
) -> Seq<char> {
    "https://www.sec.gov/Archives/edgar/data/"@ + cik_num + "/"@ + accession_segment(accession)
        + "/"@ + document
}

/// The address of a document in the archive. `cik_num` is the CIK without its
/// leading zeros.
pub fn archive_url(cik_num: &str, accession: &str, document: &str) -> (r: String)
    ensures
        r@ == archive_address(cik_num@, accession@, document@),
{
    let accession = replace_char(accession, '-', "");
    proof {
        empty_literal();
    }
    owned("https://www.sec.gov/Archives/edgar/data/").concat(cik_num).concat("/").concat(
        accession.as_str(),
    ).concat("/").concat(document)
}

/// The address of a company's page for a reader.
pub open spec fn browse_address(cik: Seq<char>) -> Seq<char> {
    "https://www.sec.gov/edgar/browse/?CIK="@ + cik
}

/// The address of a company's page for a reader.
pub fn browse_url(cik: &str) -> (r: String)
    ensures
        r@ == browse_address(cik@),
{
    owned("https://www.sec.gov/edgar/browse/?CIK=").concat(cik)
}

/// The characters that stand for themselves in an encoded segment.
pub open spec fn plain_char(c: char) -> bool {
    ||| '0' <= c <= '9'
    ||| 'A' <= c <= 'Z'
    ||| 'a' <= c <= 'z'
    ||| c == '-'
    ||| c == '.'
    ||| c == '_'
    ||| c == '~'
}

/// The characters that an encoded segment is made of.
pub open spec fn segment_char(c: char) -> bool {
    plain_char(c) || c == '%'
}

proof fn percent_bytes_inert(bytes: Seq<u8>)
    ensures
        forall|i: int|
            0 <= i < percent_bytes(bytes).len() ==> segment_char(#[trigger] percent_bytes(bytes)[i]),
    decreases bytes.len(),
{
    if bytes.len() > 0 {
        let head = percent_byte(bytes[0]);
        let rest = percent_bytes(bytes.drop_first());
        percent_bytes_inert(bytes.drop_first());
        assert forall|i: int| 0 <= i < percent_bytes(bytes).len() implies segment_char(
            #[trigger] percent_bytes(bytes)[i],
        ) by {
            if i < head.len() {
                assert(percent_bytes(bytes)[i] == head[i]);
            } else {
                assert(percent_bytes(bytes)[i] == rest[i - head.len()]);
            }
        }
    }
}

/// Text from outside cannot add syntax to an address: an encoded segment holds
/// letters, digits, `-`, `.`, `_`, `~` and percent signs only, and so neither a
/// slash nor a question mark nor a hash sign.
pub proof fn encoded_segment_is_inert(text: Seq<char>)
    ensures
        forall|i: int|
            0 <= i < percent_encoded(text).len() ==> segment_char(
                #[trigger] percent_encoded(text)[i],
            ),
        !percent_encoded(text).contains('/'),
        !percent_encoded(text).contains('?'),
        !percent_encoded(text).contains('#'),
{
    percent_bytes_inert(encode_utf8(text));
    assert(!segment_char('/') && !segment_char('?') && !segment_char('#'));
}

/// A text made of unreserved ASCII characters, as the names of taxonomies and
/// concepts are, is its own encoding.
pub proof fn plain_segment_is_unchanged(text: Seq<char>)
    requires
        forall|i: int| 0 <= i < text.len() ==> plain_char(#[trigger] text[i]),
    ensures
        percent_encoded(text) == text,
{
    is_ascii_chars_encode_utf8(text);
    let bytes = encode_utf8(text);
    assert(bytes.len() == text.len());
    plain_bytes_unchanged(bytes);
    assert(percent_bytes(bytes) =~= text);
}

proof fn plain_bytes_unchanged(bytes: Seq<u8>)
    requires
        forall|i: int| 0 <= i < bytes.len() ==> unreserved(#[trigger] bytes[i]),
    ensures
        percent_bytes(bytes) == bytes.map_values(|b: u8| b as char),
    decreases bytes.len(),
{
    if bytes.len() > 0 {
        let rest = bytes.drop_first();
        assert forall|i: int| 0 <= i < rest.len() implies unreserved(#[trigger] rest[i]) by {
            assert(rest[i] == bytes[i + 1]);
        }
        plain_bytes_unchanged(rest);
        assert(unreserved(bytes[0]));
        assert(percent_bytes(bytes) =~= bytes.map_values(|b: u8| b as char));
    } else {
        assert(percent_bytes(bytes) =~= bytes.map_values(|b: u8| b as char));
    }
}

proof fn percent_bytes_injective(a: Seq<u8>, b: Seq<u8>)
    requires
        percent_bytes(a) == percent_bytes(b),
    ensures
        a == b,
    decreases a.len(),
{
    if a.len() == 0 {
        if b.len() > 0 {
            assert(percent_bytes(b).len() > 0);
        }
        assert(a =~= b);
    } else if b.len() == 0 {
        assert(percent_bytes(a).len() > 0);
    } else {
        let p = percent_byte(a[0]);
        let q = percent_byte(b[0]);
        let x = percent_bytes(a.drop_first());
        let y = percent_bytes(b.drop_first());
        assert((p + x)[0] == p[0]);
        assert((q + y)[0] == q[0]);
        assert(p[0] == '%' <==> !unreserved(a[0]));
        assert(q[0] == '%' <==> !unreserved(b[0]));
        assert(p.len() == q.len());
        assert forall|i: int| 0 <= i < p.len() implies p[i] == q[i] by {
            assert((p + x)[i] == p[i]);
            assert((q + y)[i] == q[i]);
        }
        if unreserved(a[0]) {
            assert(a[0] == b[0]);
        } else {
            assert(p[1] == q[1] && p[2] == q[2]);
            assert(a[0] as int / 16 == b[0] as int / 16);
            assert(a[0] as int % 16 == b[0] as int % 16);
            assert(a[0] == b[0]);
        }
        assert((p + x).len() == (q + y).len());
        assert(x =~= y) by {
            assert forall|i: int| 0 <= i < x.len() implies x[i] == y[i] by {
                assert((p + x)[i + p.len()] == x[i]);
                assert((q + y)[i + q.len()] == y[i]);
            }
        }
        percent_bytes_injective(a.drop_first(), b.drop_first());
        assert(a =~= seq![a[0]] + a.drop_first());
        assert(b =~= seq![b[0]] + b.drop_first());
    }
}

/// Different texts have different encodings: no two concepts share an address.
pub proof fn encoding_keeps_texts_apart(a: Seq<char>, b: Seq<char>)
    requires
        percent_encoded(a) == percent_encoded(b),
    ensures
        a == b,
{
    percent_bytes_injective(encode_utf8(a), encode_utf8(b));
    encode_utf8_decode_utf8(a);
    encode_utf8_decode_utf8(b);
}

proof fn char_bytes_hold_no_slash(c: char)
    requires
        c != '/',
    ensures
        forall|i: int|
            0 <= i < encode_scalar(c as u32).len() ==> #[trigger] encode_scalar(c as u32)[i]
                != 0x2f,
{
    let scalar = c as u32;
    if scalar <= 0x7f {
        assert((scalar & 0x7F) as u8 != 0x2f) by (bit_vector)
            requires
                scalar != 0x2f,
                scalar <= 0x7f,
        ;
    }
    assert((0xC0u8 | ((scalar >> 6) & 0x1F) as u8) != 0x2f) by (bit_vector);
    assert((0xE0u8 | ((scalar >> 12) & 0x0F) as u8) != 0x2f) by (bit_vector);
    assert((0xF0u8 | ((scalar >> 18) & 0x7) as u8) != 0x2f) by (bit_vector);
    assert((0x80u8 | (scalar & 0x3F) as u8) != 0x2f) by (bit_vector);
    assert((0x80u8 | ((scalar >> 6) & 0x3F) as u8) != 0x2f) by (bit_vector);
    assert((0x80u8 | ((scalar >> 12) & 0x3F) as u8) != 0x2f) by (bit_vector);
}

proof fn bytes_hold_no_slash(text: Seq<char>)
    requires
        !text.contains('/'),
    ensures
        !encode_utf8(text).contains(0x2f),
    decreases text.len(),
{
    if text.len() > 0 {
        let rest = text.drop_first();
        assert(!rest.contains('/')) by {
            if rest.contains('/') {
                let i = choose|i: int| 0 <= i < rest.len() && rest[i] == '/';
                assert(text[i + 1] == '/');
            }
        }
        bytes_hold_no_slash(rest);
        assert(text[0] != '/');
        char_bytes_hold_no_slash(text[0]);
        let head = encode_scalar(text[0] as u32);
        let tail = encode_utf8(rest);
        assert forall|i: int| 0 <= i < encode_utf8(text).len() implies encode_utf8(text)[i]
            != 0x2f by {
            if i < head.len() {
                assert(encode_utf8(text)[i] == head[i]);
            } else {
                assert(encode_utf8(text)[i] == tail[i - head.len()]);
            }
        }
    }
}

proof fn no_escaped_slash(bytes: Seq<u8>, at: int)
    requires
        !bytes.contains(0x2f),
    ensures
        !stands_at(percent_bytes(bytes), seq!['%', '2', 'F'], at),
    decreases bytes.len(),
{
    let escape = seq!['%', '2', 'F'];
    let whole = percent_bytes(bytes);
    if stands_at(whole, escape, at) {
        let head = percent_byte(bytes[0]);
        let tail = percent_bytes(bytes.drop_first());
        assert(whole.subrange(at, at + 3)[0] == whole[at]);
        assert(whole.subrange(at, at + 3)[1] == whole[at + 1]);
        assert(whole.subrange(at, at + 3)[2] == whole[at + 2]);
        if at >= head.len() {
            let k = at - head.len();
            assert forall|i: int| 0 <= i < bytes.drop_first().len() implies bytes.drop_first()[i]
                != 0x2f by {
                assert(bytes.drop_first()[i] == bytes[i + 1]);
            }
            no_escaped_slash(bytes.drop_first(), k);
            assert(tail.subrange(k, k + 3) =~= escape);
        } else {
            assert(whole[at] == head[at]);
            assert(at == 0 && !unreserved(bytes[0]));
            assert(whole[1] == head[1] && whole[2] == head[2]);
            assert(bytes[0] as int / 16 == 2);
            assert(bytes[0] as int % 16 == 15);
            assert(bytes[0] == 0x2f);
        }
    }
}

/// What replaces a character everywhere leaves none of it behind, unless it
/// holds the character itself.
pub proof fn replacing_leaves_none(text: Seq<char>, c: char, by: Seq<char>)
    requires
        !by.contains(c),
    ensures
        !replaced(text, c, by).contains(c),
    decreases text.len(),
{
    if text.len() > 0 {
        replacing_leaves_none(text.drop_last(), c, by);
        let head = replaced(text.drop_last(), c, by);
        let whole = replaced(text, c, by);
        assert forall|i: int| 0 <= i < whole.len() implies whole[i] != c by {
            if i < head.len() {
                assert(whole[i] == head[i]);
            } else if text.last() == c {
                assert(whole[i] == by[i - head.len()]);
            }
        }
    }
}

/// A compound unit reaches the frames endpoint without a slash, raw or
/// percent-encoded.
pub proof fn unit_segment_has_no_slash(unit: Seq<char>)
    ensures
        !unit_segment(unit).contains('/'),
        !contains_text(unit_segment(unit), seq!['%', '2', 'F']),
{
    let spelled = replaced(unit, '/', "-per-"@);
    reveal_strlit("-per-");
    replacing_leaves_none(unit, '/', "-per-"@);
    encoded_segment_is_inert(spelled);
    bytes_hold_no_slash(spelled);
    assert forall|at: int| !stands_at(unit_segment(unit), seq!['%', '2', 'F'], at) by {
        no_escaped_slash(encode_utf8(spelled), at);
    }
}

/// An accession number enters an archive address without its dashes.
pub proof fn accession_segment_has_no_dash(accession: Seq<char>)
    ensures
        !accession_segment(accession).contains('-'),
{
    replacing_leaves_none(accession, '-', Seq::empty());
}

/// Every address leads to the endpoint that it is named after and carries each
/// of its parts whole, in its own place.
pub proof fn addresses_carry_their_parts(
    cik: Seq<char>,
    name: Seq<char>,
    taxonomy: Seq<char>,
    concept: Seq<char>,
    unit: Seq<char>,
    period: Seq<char>,
)
    ensures
        submissions_address(cik) == "https://data.sec.gov/submissions/CIK"@ + cik + ".json"@,
        submissions_file_address(name) == "https://data.sec.gov/submissions/"@ + name,
        company_facts_address(cik) == "https://data.sec.gov/api/xbrl/companyfacts/CIK"@ + cik
            + ".json"@,
        company_concept_address(cik, taxonomy, concept)
            == "https://data.sec.gov/api/xbrl/companyconcept/CIK"@ + cik + "/"@ + percent_encoded(
            taxonomy,
        ) + "/"@ + percent_encoded(concept) + ".json"@,
        xbrl_frames_address(taxonomy, concept, unit, period)
            == "https://data.sec.gov/api/xbrl/frames/"@ + percent_encoded(taxonomy) + "/"@
            + percent_encoded(concept) + "/"@ + percent_encoded(replaced(unit, '/', "-per-"@))
            + "/CY"@ + percent_encoded(period) + ".json"@,
        browse_address(cik) == "https://www.sec.gov/edgar/browse/?CIK="@ + cik,
{
}

/// Two requests share an address only where they ask for the same concept of
/// the same taxonomy.
pub proof fn concept_addresses_differ(
    cik: Seq<char>,
    first: (Seq<char>, Seq<char>),
    second: (Seq<char>, Seq<char>),
)
    requires
        company_concept_address(cik, first.0, first.1) == company_concept_address(
            cik,
            second.0,
            second.1,
        ),
    ensures
        first == second,
{
    reveal_strlit("/");
    let head = "https://data.sec.gov/api/xbrl/companyconcept/CIK"@ + cik + "/"@;
    let (a, b) = (percent_encoded(first.0), percent_encoded(first.1));
    let (c, d) = (percent_encoded(second.0), percent_encoded(second.1));
    let tail = ".json"@;
    let x = head + a + "/"@ + b + tail;
    let y = head + c + "/"@ + d + tail;
    encoded_segment_is_inert(first.0);
    encoded_segment_is_inert(second.0);
    let n = head.len() as int;
    assert(x == y);
    assert(x[n + a.len()] == '/');
    assert(y[n + c.len()] == '/');
    assert(a.len() == c.len()) by {
        if a.len() < c.len() {
            assert(y[n + a.len()] == c[a.len() as int]);
        }
        if c.len() < a.len() {
            assert(x[n + c.len()] == a[c.len() as int]);
        }
    }
    assert(a =~= c) by {
        assert forall|i: int| 0 <= i < a.len() implies a[i] == c[i] by {
            assert(x[n + i] == a[i] && y[n + i] == c[i]);
        }
    }
    assert(x.len() == y.len());
    assert(b =~= d) by {
        assert forall|i: int| 0 <= i < b.len() implies b[i] == d[i] by {
            let at = n + a.len() + 1 + i;
            assert(x[at] == b[i] && y[at] == d[i]);
        }
    }
    encoding_keeps_texts_apart(first.0, second.0);
    encoding_keeps_texts_apart(first.1, second.1);
}

} // verus!
