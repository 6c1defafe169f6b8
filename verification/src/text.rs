//! Text: the character-level functions that the rest of the library is built
//! on, each stated over the sequence of characters that a string holds.

use vstd::prelude::*;
use vstd::utf8::{encode_utf8, encode_utf8_decode_utf8};

verus! {

/// `String::push` of std: the string gains one character at its end.
pub assume_specification[ String::push ](s: &mut String, c: char)
    ensures
        final(s)@ == old(s)@.push(c),
;

/// What `str::to_uppercase` makes of a text. The mapping is Unicode's, which
/// may change the number of characters.
pub uninterp spec fn upper_case(text: Seq<char>) -> Seq<char>;

/// What `str::to_lowercase` makes of a text. The mapping is Unicode's, which
/// may change the number of characters and looks at the neighbours of a sigma.
pub uninterp spec fn lower_case(text: Seq<char>) -> Seq<char>;

/// Calls `str::to_uppercase` of std. Claimed: the result depends on the text
/// alone.
#[verifier::external_body]
pub(crate) fn uppercase(text: &str) -> (r: String)
    ensures
        r@ == upper_case(text@),
{
    text.to_uppercase()
}

/// Calls `str::to_lowercase` of std. Claimed: the result depends on the text
/// alone.
#[verifier::external_body]
pub(crate) fn lowercase(text: &str) -> (r: String)
    ensures
        r@ == lower_case(text@),
{
    text.to_lowercase()
}

/// The empty literal holds nothing.
pub(crate) proof fn empty_literal()
    ensures
        ""@ == Seq::<char>::empty(),
{
    reveal_strlit("");
    assert(""@ =~= Seq::<char>::empty());
}

/// An owned copy of a text.
pub(crate) fn owned(text: &str) -> (r: String)
    ensures
        r@ == text@,
{
    text.to_owned()
}

/// Whether two texts hold the same characters.
pub(crate) fn same(a: &str, b: &str) -> (r: bool)
    ensures
        r == (a@ == b@),
{
    let x: &[u8] = a.as_bytes();
    let y: &[u8] = b.as_bytes();
    proof {
        encode_utf8_decode_utf8(a@);
        encode_utf8_decode_utf8(b@);
        assert(x@ == y@ ==> a@ == b@);
    }
    if x.len() != y.len() {
        return false;
    }
    let mut i: usize = 0;
    while i < x.len()
        invariant
            i <= x@.len(),
            x@.len() == y@.len(),
            x@ == encode_utf8(a@),
            y@ == encode_utf8(b@),
            forall|k: int| 0 <= k < i ==> x@[k] == y@[k],
        decreases x@.len() - i,
    {
        if x[i] != y[i] {
            assert(x@ != y@);
            return false;
        }
        i += 1;
    }
    assert(x@ =~= y@);
    true
}

/// The characters of a text, as a vector.
pub(crate) fn characters(text: &str) -> (r: Vec<char>)
    ensures
        r@ == text@,
{
    let mut r: Vec<char> = Vec::new();
    for c in it: text.chars()
        invariant
            it.seq() == text@,
            r@ == text@.take(it.index() as int),
    {
        r.push(c);
    }
    assert(r@ == text@);
    r
}

/// The text that a stretch of a vector of characters spells.
pub(crate) fn text_of(chars: &Vec<char>, from: usize, to: usize) -> (r: String)
    requires
        from <= to <= chars@.len(),
    ensures
        r@ == chars@.subrange(from as int, to as int),
{
    let mut r = String::new();
    let mut i: usize = from;
    while i < to
        invariant
            from <= i <= to <= chars@.len(),
            r@ == chars@.subrange(from as int, i as int),
        decreases to - i,
    {
        r.push(chars[i]);
        i += 1;
        assert(chars@.subrange(from as int, i as int) == chars@.subrange(
            from as int,
            i - 1,
        ).push(chars@[i - 1]));
    }
    r
}

/// A text without its leading characters that satisfy `p`.
pub open spec fn skip_front(text: Seq<char>, p: spec_fn(char) -> bool) -> Seq<char>
    decreases text.len(),
{
    if text.len() > 0 && p(text[0]) {
        skip_front(text.drop_first(), p)
    } else {
        text
    }
}

/// A text without its trailing characters that satisfy `p`.
pub open spec fn skip_back(text: Seq<char>, p: spec_fn(char) -> bool) -> Seq<char>
    decreases text.len(),
{
    if text.len() > 0 && p(text.last()) {
        skip_back(text.drop_last(), p)
    } else {
        text
    }
}

/// The characters with Unicode's `White_Space` property.
pub open spec fn is_white_space(c: char) -> bool {
    ||| 0x9 <= c as u32 <= 0xd
    ||| c as u32 == 0x20
    ||| c as u32 == 0x85
    ||| c as u32 == 0xa0
    ||| c as u32 == 0x1680
    ||| 0x2000 <= c as u32 <= 0x200a
    ||| c as u32 == 0x2028
    ||| c as u32 == 0x2029
    ||| c as u32 == 0x202f
    ||| c as u32 == 0x205f
    ||| c as u32 == 0x3000
}

/// A text without white space at either end.
pub open spec fn trimmed(text: Seq<char>) -> Seq<char> {
    skip_back(skip_front(text, |c: char| is_white_space(c)), |c: char| is_white_space(c))
}

fn white_space(c: char) -> (r: bool)
    ensures
        r == is_white_space(c),
{
    let n: u32 = c as u32;
    (0x9 <= n && n <= 0xd) || n == 0x20 || n == 0x85 || n == 0xa0 || n == 0x1680 || (0x2000 <= n
        && n <= 0x200a) || n == 0x2028 || n == 0x2029 || n == 0x202f || n == 0x205f || n == 0x3000
}

/// A text without white space at either end, as `str::trim` gives it.
pub fn trim(text: &str) -> (r: String)
    ensures
        r@ == trimmed(text@),
{
    let chars = characters(text);
    let ghost p = |c: char| is_white_space(c);
    let mut from: usize = 0;
    assert(chars@.skip(0) == chars@);
    while from < chars.len() && white_space(chars[from])
        invariant
            from <= chars@.len(),
            p == (|c: char| is_white_space(c)),
            skip_front(chars@, p) == skip_front(chars@.skip(from as int), p),
        decreases chars@.len() - from,
    {
        assert(chars@.skip(from as int).drop_first() == chars@.skip(from + 1));
        assert(p(chars@.skip(from as int)[0]));
        from += 1;
    }
    let ghost rest = chars@.skip(from as int);
    assert(skip_front(chars@, p) == rest) by {
        if rest.len() > 0 {
            assert(!p(rest[0]));
        }
    }
    let mut to: usize = chars.len();
    assert(chars@.subrange(from as int, to as int) == rest);
    while from < to && white_space(chars[to - 1])
        invariant
            from <= to <= chars@.len(),
            p == (|c: char| is_white_space(c)),
            skip_back(rest, p) == skip_back(chars@.subrange(from as int, to as int), p),
        decreases to,
    {
        let ghost here = chars@.subrange(from as int, to as int);
        assert(here.drop_last() == chars@.subrange(from as int, to - 1));
        assert(p(here.last()));
        to -= 1;
    }
    assert(skip_back(rest, p) == chars@.subrange(from as int, to as int)) by {
        let here = chars@.subrange(from as int, to as int);
        if here.len() > 0 {
            assert(!p(here.last()));
        }
    }
    text_of(&chars, from, to)
}

/// A text without its leading characters `c`, as `str::trim_start_matches`
/// gives it.
pub fn trim_start_char(text: &str, c: char) -> (r: String)
    ensures
        r@ == skip_front(text@, |x: char| x == c),
{
    let chars = characters(text);
    let ghost p = |x: char| x == c;
    let mut from: usize = 0;
    assert(chars@.skip(0) == chars@);
    while from < chars.len() && chars[from] == c
        invariant
            from <= chars@.len(),
            p == (|x: char| x == c),
            skip_front(chars@, p) == skip_front(chars@.skip(from as int), p),
        decreases chars@.len() - from,
    {
        assert(chars@.skip(from as int).drop_first() == chars@.skip(from + 1));
        assert(p(chars@.skip(from as int)[0]));
        from += 1;
    }
    let ghost rest = chars@.skip(from as int);
    assert(skip_front(chars@, p) == rest) by {
        if rest.len() > 0 {
            assert(!p(rest[0]));
        }
    }
    assert(chars@.subrange(from as int, chars@.len() as int) == rest);
    text_of(&chars, from, chars.len())
}

/// A text without its trailing characters `c`, as `str::trim_end_matches`
/// gives it.
pub fn trim_end_char(text: &str, c: char) -> (r: String)
    ensures
        r@ == skip_back(text@, |x: char| x == c),
{
    let chars = characters(text);
    let ghost p = |x: char| x == c;
    let mut to: usize = chars.len();
    assert(chars@.take(to as int) == chars@);
    while 0 < to && chars[to - 1] == c
        invariant
            to <= chars@.len(),
            p == (|x: char| x == c),
            skip_back(chars@, p) == skip_back(chars@.take(to as int), p),
        decreases to,
    {
        assert(chars@.take(to as int).drop_last() == chars@.take(to - 1));
        assert(p(chars@.take(to as int).last()));
        to -= 1;
    }
    let ghost here = chars@.take(to as int);
    assert(skip_back(chars@, p) == here) by {
        if here.len() > 0 {
            assert(!p(here.last()));
        }
    }
    assert(chars@.subrange(0, to as int) == here);
    text_of(&chars, 0, to)
}

/// Whether `part` stands in `text` at position `at`.
pub open spec fn stands_at(text: Seq<char>, part: Seq<char>, at: int) -> bool {
    &&& 0 <= at
    &&& at + part.len() <= text.len()
    &&& text.subrange(at, at + part.len()) == part
}

/// Whether `part` stands in `text` anywhere.
pub open spec fn contains_text(text: Seq<char>, part: Seq<char>) -> bool {
    exists|at: int| stands_at(text, part, at)
}

fn matches_at(text: &Vec<char>, part: &Vec<char>, at: usize) -> (r: bool)
    requires
        at <= text@.len(),
    ensures
        r == stands_at(text@, part@, at as int),
{
    let length: usize = text.len();
    if part.len() > length - at {
        return false;
    }
    let mut i: usize = 0;
    while i < part.len()
        invariant
            at + part@.len() <= text@.len(),
            text@.len() == length,
            i <= part@.len(),
            forall|k: int| 0 <= k < i ==> text@[at + k] == part@[k],
        decreases part@.len() - i,
    {
        if text[at + i] != part[i] {
            assert(text@.subrange(at as int, at + part@.len())[i as int] != part@[i as int]);
            return false;
        }
        i += 1;
    }
    assert(text@.subrange(at as int, at + part@.len()) =~= part@);
    true
}

/// Whether `part` stands in `text`, as `str::contains` has it.
pub fn contains(text: &str, part: &str) -> (r: bool)
    ensures
        r == contains_text(text@, part@),
{
    let t = characters(text);
    let p = characters(part);
    let mut at: usize = 0;
    while at <= t.len()
        invariant
            at <= t@.len() + 1,
            t@ == text@,
            p@ == part@,
            forall|k: int| 0 <= k < at ==> !stands_at(text@, part@, k),
        decreases t@.len() + 1 - at,
    {
        if matches_at(&t, &p, at) {
            return true;
        }
        if at == t.len() {
            return false;
        }
        at += 1;
    }
    false
}

/// A text without any leading repetitions of `prefix`.
pub open spec fn skip_prefixes(text: Seq<char>, prefix: Seq<char>) -> Seq<char>
    decreases text.len(),
{
    if prefix.len() > 0 && stands_at(text, prefix, 0) {
        skip_prefixes(text.skip(prefix.len() as int), prefix)
    } else {
        text
    }
}

/// A text without any leading repetitions of `prefix`, as
/// `str::trim_start_matches` gives it.
pub fn trim_start_text(text: &str, prefix: &str) -> (r: String)
    ensures
        r@ == skip_prefixes(text@, prefix@),
{
    let t = characters(text);
    let p = characters(prefix);
    let length: usize = t.len();
    let mut at: usize = 0;
    assert(t@.skip(0) == t@);
    if p.len() > 0 {
        while matches_at(&t, &p, at)
            invariant
                at <= t@.len(),
                t@.len() == length,
                p@.len() > 0,
                skip_prefixes(t@, p@) == skip_prefixes(t@.skip(at as int), p@),
            ensures
                at <= t@.len(),
                p@.len() > 0,
                skip_prefixes(t@, p@) == skip_prefixes(t@.skip(at as int), p@),
                !stands_at(t@, p@, at as int),
            decreases t@.len() - at,
        {
            let ghost here = t@.skip(at as int);
            assert(here.subrange(0, p@.len() as int) == t@.subrange(at as int, at + p@.len()));
            assert(stands_at(here, p@, 0));
            assert(here.skip(p@.len() as int) == t@.skip(at + p@.len()));
            at += p.len();
        }
        proof {
            let here = t@.skip(at as int);
            if stands_at(here, p@, 0) {
                assert(here.subrange(0, p@.len() as int) == t@.subrange(at as int, at + p@.len()));
            }
        }
    }
    assert(t@.subrange(at as int, t@.len() as int) == t@.skip(at as int));
    text_of(&t, at, length)
}

/// A text in which each character `c` is replaced by `by`.
pub open spec fn replaced(text: Seq<char>, c: char, by: Seq<char>) -> Seq<char>
    decreases text.len(),
{
    if text.len() == 0 {
        Seq::empty()
    } else {
        replaced(text.drop_last(), c, by) + if text.last() == c {
            by
        } else {
            seq![text.last()]
        }
    }
}

/// A text in which each character `c` is replaced by `by`, as `str::replace`
/// gives it.
pub fn replace_char(text: &str, c: char, by: &str) -> (r: String)
    ensures
        r@ == replaced(text@, c, by@),
{
    let t = characters(text);
    let mut r = String::new();
    let mut i: usize = 0;
    while i < t.len()
        invariant
            i <= t@.len(),
            r@ == replaced(t@.take(i as int), c, by@),
        decreases t@.len() - i,
    {
        assert(t@.take(i + 1).drop_last() == t@.take(i as int));
        let ghost before = r@;
        if t[i] == c {
            r.append(by);
        } else {
            r.push(t[i]);
            assert(r@ == before + seq![t@[i as int]]);
        }
        i += 1;
    }
    assert(t@.take(i as int) == t@);
    r
}

/// The decimal digit of a number below ten.
pub open spec fn digit(d: int) -> char {
    (48 + d) as char
}

/// A number in decimal, without leading zeros.
pub open spec fn decimal(n: nat) -> Seq<char>
    decreases n,
{
    if n < 10 {
        seq![digit(n as int)]
    } else {
        decimal(n / 10).push(digit((n % 10) as int))
    }
}

fn digit_char(d: u64) -> (r: char)
    requires
        d < 10,
    ensures
        r == digit(d as int),
{
    (48u8 + d as u8) as char
}

/// A number in decimal.
pub fn decimal_text(n: u64) -> (r: String)
    ensures
        r@ == decimal(n as nat),
    decreases n,
{
    if n < 10 {
        let mut s = String::new();
        s.push(digit_char(n));
        assert(s@ == seq![digit(n as int)]);
        s
    } else {
        let mut s = decimal_text(n / 10);
        s.push(digit_char(n % 10));
        s
    }
}

/// As many zeros as asked for.
pub open spec fn zeros(n: nat) -> Seq<char> {
    Seq::new(n, |i: int| '0')
}

/// A number in decimal, filled up with leading zeros to `width` digits.
pub open spec fn zero_padded(n: nat, width: nat) -> Seq<char> {
    if decimal(n).len() < width {
        zeros((width - decimal(n).len()) as nat) + decimal(n)
    } else {
        decimal(n)
    }
}

/// A number in decimal, filled up with leading zeros to `width` digits.
pub fn zero_padded_text(n: u64, width: usize) -> (r: String)
    ensures
        r@ == zero_padded(n as nat, width as nat),
{
    let digits = decimal_text(n);
    let len: usize = digits.as_str().unicode_len();
    if len >= width {
        return digits;
    }
    let mut r = String::new();
    let mut i: usize = 0;
    while i < width - len
        invariant
            len < width,
            i <= width - len,
            r@ == zeros(i as nat),
        decreases width - len - i,
    {
        r.push('0');
        assert(zeros(i as nat).push('0') == zeros((i + 1) as nat));
        i += 1;
    }
    r.append(digits.as_str());
    r
}

/// Texts strung together with `separator` between neighbours.
pub open spec fn joined(parts: Seq<Seq<char>>, separator: Seq<char>) -> Seq<char>
    decreases parts.len(),
{
    if parts.len() == 0 {
        Seq::empty()
    } else if parts.len() == 1 {
        parts[0]
    } else {
        joined(parts.drop_last(), separator) + separator + parts.last()
    }
}

/// The contents of a sequence of strings.
pub open spec fn texts(parts: Seq<String>) -> Seq<Seq<char>> {
    parts.map_values(|s: String| s@)
}

/// Texts strung together with `separator` between neighbours.
pub fn join(parts: &Vec<String>, separator: &str) -> (r: String)
    ensures
        r@ == joined(texts(parts@), separator@),
{
    let mut r = String::new();
    let mut i: usize = 0;
    while i < parts.len()
        invariant
            i <= parts@.len(),
            r@ == joined(texts(parts@).take(i as int), separator@),
        decreases parts@.len() - i,
    {
        assert(texts(parts@).take(i + 1).drop_last() == texts(parts@).take(i as int));
        if i > 0 {
            r.append(separator);
        }
        r.append(parts[i].as_str());
        i += 1;
        assert(r@ == joined(texts(parts@).take(i as int), separator@));
    }
    assert(texts(parts@).take(i as int) == texts(parts@));
    r
}

/// Whether one text stands before another when texts are ordered by their
/// first difference in characters, a proper prefix first.
pub open spec fn before(a: Seq<char>, b: Seq<char>) -> bool
    decreases a.len(),
{
    if b.len() == 0 {
        false
    } else if a.len() == 0 {
        true
    } else if a[0] != b[0] {
        (a[0] as u32) < (b[0] as u32)
    } else {
        before(a.drop_first(), b.drop_first())
    }
}

/// Whether one text stands before another in the order of their characters.
pub fn is_before(a: &str, b: &str) -> (r: bool)
    ensures
        r == before(a@, b@),
{
    let x = characters(a);
    let y = characters(b);
    let mut i: usize = 0;
    assert(x@.skip(0) == x@);
    assert(y@.skip(0) == y@);
    while i < x.len() && i < y.len()
        invariant
            x@ == a@,
            y@ == b@,
            i <= x@.len(),
            i <= y@.len(),
            before(x@, y@) == before(x@.skip(i as int), y@.skip(i as int)),
        decreases x@.len() - i,
    {
        let p: u32 = x[i] as u32;
        let q: u32 = y[i] as u32;
        assert(x@.skip(i as int)[0] == x@[i as int]);
        assert(y@.skip(i as int)[0] == y@[i as int]);
        if x[i] != y[i] {
            return p < q;
        }
        assert(x@.skip(i as int).drop_first() == x@.skip(i + 1));
        assert(y@.skip(i as int).drop_first() == y@.skip(i + 1));
        i += 1;
    }
    i < y.len()
}

/// No text stands before itself, and of two different texts exactly one stands
/// before the other.
pub proof fn before_is_total(a: Seq<char>, b: Seq<char>)
    ensures
        a == b ==> !before(a, b),
        a != b ==> (before(a, b) <==> !before(b, a)),
    decreases a.len(),
{
    if a.len() > 0 && b.len() > 0 {
        if a[0] != b[0] {
            chars_have_different_codes(a[0], b[0]);
        } else {
            before_is_total(a.drop_first(), b.drop_first());
            if a.drop_first() == b.drop_first() {
                assert(a =~= seq![a[0]] + a.drop_first());
                assert(b =~= seq![b[0]] + b.drop_first());
            }
        }
    } else {
        assert(a.len() == 0 && b.len() == 0 ==> a =~= b);
    }
}

proof fn chars_have_different_codes(a: char, b: char)
    ensures
        a != b ==> a as u32 != b as u32,
{
}

/// The order of texts is transitive.
pub proof fn before_is_transitive(a: Seq<char>, b: Seq<char>, c: Seq<char>)
    requires
        before(a, b),
        before(b, c),
    ensures
        before(a, c),
    decreases a.len(),
{
    if a.len() > 0 && a[0] == b[0] && b[0] == c[0] {
        before_is_transitive(a.drop_first(), b.drop_first(), c.drop_first());
    }
}

/// An ascending list of texts with one more in its place; a text that is there
/// already is not added again.
pub open spec fn insert_distinct(list: Seq<Seq<char>>, text: Seq<char>) -> Seq<Seq<char>>
    decreases list.len(),
{
    if list.len() == 0 || before(list.last(), text) {
        list.push(text)
    } else if list.last() == text {
        list
    } else {
        insert_distinct(list.drop_last(), text).push(list.last())
    }
}

/// The texts of a list in ascending order, each once.
pub open spec fn sorted_distinct(list: Seq<Seq<char>>) -> Seq<Seq<char>>
    decreases list.len(),
{
    if list.len() == 0 {
        Seq::empty()
    } else {
        insert_distinct(sorted_distinct(list.drop_last()), list.last())
    }
}

/// Whether each text of a list stands before all that follow it.
pub open spec fn ascending(list: Seq<Seq<char>>) -> bool {
    forall|i: int, j: int|
        0 <= i < j < list.len() ==> before(#[trigger] list[i], #[trigger] list[j])
}

proof fn insert_distinct_ascends(list: Seq<Seq<char>>, text: Seq<char>)
    requires
        ascending(list),
    ensures
        ascending(insert_distinct(list, text)),
        forall|t: Seq<char>| #[trigger]
            insert_distinct(list, text).contains(t) <==> (list.contains(t) || t == text),
    decreases list.len(),
{
    let longer = insert_distinct(list, text);
    if list.len() == 0 || before(list.last(), text) {
        assert forall|i: int, j: int| 0 <= i < j < longer.len() implies before(
            #[trigger] longer[i],
            #[trigger] longer[j],
        ) by {
            if j == list.len() && i < list.len() - 1 {
                before_is_transitive(list[i], list.last(), text);
            }
        }
        assert(longer[longer.len() - 1] == text);
        assert forall|t: Seq<char>| list.contains(t) implies longer.contains(t) by {
            let i = choose|i: int| 0 <= i < list.len() && list[i] == t;
            assert(longer[i] == t);
        }
    } else if list.last() == text {
        assert(list[list.len() - 1] == text);
    } else {
        let shorter = list.drop_last();
        let inner = insert_distinct(shorter, text);
        insert_distinct_ascends(shorter, text);
        before_is_total(list.last(), text);
        assert forall|i: int, j: int| 0 <= i < j < longer.len() implies before(
            #[trigger] longer[i],
            #[trigger] longer[j],
        ) by {
            if j == inner.len() {
                assert(inner.contains(inner[i]));
                if inner[i] != text {
                    assert(shorter.contains(inner[i]));
                    let k = choose|k: int| 0 <= k < shorter.len() && shorter[k] == inner[i];
                    assert(list[k] == inner[i]);
                    assert(before(list[k], list[list.len() - 1]));
                }
            }
        }
        assert forall|t: Seq<char>|
            longer.contains(t) <==> (list.contains(t) || t == text) by {
            if longer.contains(t) {
                let i = choose|i: int| 0 <= i < longer.len() && longer[i] == t;
                if i < inner.len() {
                    assert(inner[i] == t);
                    assert(inner.contains(t));
                    if shorter.contains(t) {
                        let k = choose|k: int| 0 <= k < shorter.len() && shorter[k] == t;
                        assert(list[k] == t);
                    }
                } else {
                    assert(list[list.len() - 1] == t);
                }
            }
            if list.contains(t) {
                let k = choose|k: int| 0 <= k < list.len() && list[k] == t;
                if k < shorter.len() {
                    assert(shorter[k] == t);
                    assert(inner.contains(t));
                    let i = choose|i: int| 0 <= i < inner.len() && inner[i] == t;
                    assert(longer[i] == t);
                } else {
                    assert(longer[longer.len() - 1] == t);
                }
            }
            if t == text {
                assert(inner.contains(t));
                let i = choose|i: int| 0 <= i < inner.len() && inner[i] == t;
                assert(longer[i] == t);
            }
        }
    }
}

/// A sorted list of distinct texts is strictly ascending and holds exactly the
/// texts of the list that it was made from.
pub proof fn sorted_distinct_ascends(list: Seq<Seq<char>>)
    ensures
        ascending(sorted_distinct(list)),
        forall|t: Seq<char>| #[trigger] sorted_distinct(list).contains(t) <==> list.contains(t),
    decreases list.len(),
{
    if list.len() > 0 {
        let rest = list.drop_last();
        sorted_distinct_ascends(rest);
        insert_distinct_ascends(sorted_distinct(rest), list.last());
        assert forall|t: Seq<char>| sorted_distinct(list).contains(t) <==> list.contains(t) by {
            if list.contains(t) {
                let i = choose|i: int| 0 <= i < list.len() && list[i] == t;
                if i < rest.len() {
                    assert(rest[i] == t);
                }
            }
            if rest.contains(t) {
                let i = choose|i: int| 0 <= i < rest.len() && rest[i] == t;
                assert(list[i] == t);
            }
            if t == list.last() {
                assert(list[list.len() - 1] == t);
            }
        }
    }
}

/// Adds a text to an ascending list, in its place, unless it is there already.
fn add_distinct(list: &mut Vec<String>, text: String)
    ensures
        texts(final(list)@) == insert_distinct(texts(old(list)@), text@),
{
    let ghost all = texts(list@);
    let mut p: usize = list.len();
    assert(all.take(p as int) =~= all);
    while p > 0
        invariant_except_break
            p <= list@.len(),
            list@ == old(list)@,
            all == texts(list@),
            insert_distinct(all, text@) == insert_distinct(all.take(p as int), text@) + all.skip(
                p as int,
            ),
        ensures
            p <= list@.len(),
            list@ == old(list)@,
            insert_distinct(all, text@) == all.take(p as int).push(text@) + all.skip(p as int),
        decreases p,
    {
        let ghost here = all.take(p as int);
        assert(here.last() == list@[p - 1]@);
        if is_before(list[p - 1].as_str(), text.as_str()) {
            break;
        }
        if same(list[p - 1].as_str(), text.as_str()) {
            assert(here + all.skip(p as int) =~= all);
            return ;
        }
        assert(here.drop_last() =~= all.take(p - 1));
        assert(insert_distinct(all.take(p - 1), text@).push(all[p - 1]) + all.skip(p as int)
            =~= insert_distinct(all.take(p - 1), text@) + all.skip(p - 1));
        p -= 1;
    }
    list.insert(p, text);
    assert(texts(list@) =~= all.take(p as int).push(text@) + all.skip(p as int));
}

/// The texts of a list in ascending order, each once.
pub fn sort_distinct(list: &Vec<String>) -> (r: Vec<String>)
    ensures
        texts(r@) == sorted_distinct(texts(list@)),
{
    let ghost all = texts(list@);
    let mut r: Vec<String> = Vec::new();
    let mut i: usize = 0;
    assert(texts(r@) =~= sorted_distinct(all.take(0)));
    while i < list.len()
        invariant
            i <= list@.len(),
            all == texts(list@),
            texts(r@) == sorted_distinct(all.take(i as int)),
        decreases list@.len() - i,
    {
        add_distinct(&mut r, list[i].clone());
        assert(all.take(i + 1).drop_last() =~= all.take(i as int));
        i += 1;
    }
    assert(all.take(i as int) =~= all);
    r
}

/// What is left at the front does not satisfy `p`.
pub(crate) proof fn front_is_clean(text: Seq<char>, p: spec_fn(char) -> bool)
    ensures
        skip_front(text, p).len() > 0 ==> !p(skip_front(text, p)[0]),
    decreases text.len(),
{
    if text.len() > 0 && p(text[0]) {
        front_is_clean(text.drop_first(), p);
    }
}

/// What is left at the back does not satisfy `p`, and the front is as it was.
pub(crate) proof fn back_is_clean(text: Seq<char>, p: spec_fn(char) -> bool)
    ensures
        skip_back(text, p).len() > 0 ==> !p(skip_back(text, p).last()) && skip_back(text, p)[0]
            == text[0],
    decreases text.len(),
{
    if text.len() > 0 && p(text.last()) {
        back_is_clean(text.drop_last(), p);
    }
}

/// Trimming a text twice is trimming it once.
pub proof fn trimmed_is_stable(text: Seq<char>)
    ensures
        trimmed(trimmed(text)) == trimmed(text),
{
    let p = |c: char| is_white_space(c);
    front_is_clean(text, p);
    back_is_clean(skip_front(text, p), p);
}

/// Whether `n` characters stand before the first that does not satisfy `p`.
pub open spec fn run_ends_at(text: Seq<char>, p: spec_fn(char) -> bool, n: int) -> bool {
    &&& 0 <= n <= text.len()
    &&& forall|k: int| 0 <= k < n ==> p(#[trigger] text[k])
    &&& n < text.len() ==> !p(text[n])
}

/// Skipping at the front drops exactly the characters before the first that
/// does not satisfy `p`.
pub proof fn front_is_skipped(text: Seq<char>, p: spec_fn(char) -> bool, n: int)
    requires
        run_ends_at(text, p, n),
    ensures
        skip_front(text, p) == text.skip(n),
    decreases n,
{
    if n == 0 {
        assert(text.skip(0) =~= text);
    } else {
        assert(p(text[0]));
        let rest = text.drop_first();
        assert forall|k: int| 0 <= k < n - 1 implies p(#[trigger] rest[k]) by {
            assert(rest[k] == text[k + 1]);
        }
        front_is_skipped(rest, p, n - 1);
        assert(rest.skip(n - 1) =~= text.skip(n));
    }
}

/// Skipping at the back drops exactly the characters behind the last that does
/// not satisfy `p`.
pub proof fn back_is_skipped(text: Seq<char>, p: spec_fn(char) -> bool, n: int)
    requires
        0 <= n <= text.len(),
        forall|k: int| n <= k < text.len() ==> p(#[trigger] text[k]),
        n > 0 ==> !p(text[n - 1]),
    ensures
        skip_back(text, p) == text.take(n),
    decreases text.len() - n,
{
    if n == text.len() {
        assert(text.take(n) =~= text);
    } else {
        assert(p(text[text.len() - 1]));
        let rest = text.drop_last();
        assert forall|k: int| n <= k < rest.len() implies p(#[trigger] rest[k]) by {
            assert(rest[k] == text[k]);
        }
        back_is_skipped(rest, p, n);
        assert(rest.take(n) =~= text.take(n));
    }
}

/// Trimming takes white space off both ends and nothing else: what begins and
/// ends with other characters comes out whole, whatever white space is around
/// it.
pub proof fn trimming_leaves_the_core(front: Seq<char>, core: Seq<char>, back: Seq<char>)
    requires
        forall|k: int| 0 <= k < front.len() ==> is_white_space(#[trigger] front[k]),
        forall|k: int| 0 <= k < back.len() ==> is_white_space(#[trigger] back[k]),
        core.len() > 0 ==> !is_white_space(core[0]) && !is_white_space(core.last()),
    ensures
        trimmed(front + core + back) == core,
{
    let p = |c: char| is_white_space(c);
    let whole = front + core + back;
    if core.len() > 0 {
        assert forall|k: int| 0 <= k < front.len() implies p(#[trigger] whole[k]) by {
            assert(whole[k] == front[k]);
        }
        assert(whole[front.len() as int] == core[0]);
        front_is_skipped(whole, p, front.len() as int);
        let rest = core + back;
        assert(whole.skip(front.len() as int) =~= rest);
        assert forall|k: int| core.len() <= k < rest.len() implies p(#[trigger] rest[k]) by {
            assert(rest[k] == back[k - core.len()]);
        }
        assert(rest[core.len() - 1] == core.last());
        back_is_skipped(rest, p, core.len() as int);
        assert(rest.take(core.len() as int) =~= core);
    } else {
        assert forall|k: int| 0 <= k < whole.len() implies p(#[trigger] whole[k]) by {
            if k < front.len() {
                assert(whole[k] == front[k]);
            } else {
                assert(whole[k] == back[k - front.len()]);
            }
        }
        front_is_skipped(whole, p, whole.len() as int);
        assert(whole.skip(whole.len() as int) =~= core);
        back_is_skipped(core, p, 0);
        assert(core.take(0) =~= core);
    }
}

/// A text holds a part exactly where it can be cut into something, the part and
/// something.
pub proof fn containing_is_being_cut(text: Seq<char>, part: Seq<char>)
    ensures
        contains_text(text, part) <==> exists|front: Seq<char>, back: Seq<char>|
            text == #[trigger] (front + part + back),
{
    if contains_text(text, part) {
        let at = choose|at: int| stands_at(text, part, at);
        let (front, back) = (text.take(at), text.skip(at + part.len()));
        assert(text =~= front + part + back);
    }
    if exists|front: Seq<char>, back: Seq<char>| text == #[trigger] (front + part + back) {
        let (front, back) = choose|front: Seq<char>, back: Seq<char>|
            text == #[trigger] (front + part + back);
        let at = front.len() as int;
        assert(text.subrange(at, at + part.len()) =~= part);
        assert(stands_at(text, part, at));
    }
}

/// A part stands in a text between what is before it and what is behind it.
pub proof fn parts_stand_in_between(front: Seq<char>, part: Seq<char>, back: Seq<char>)
    ensures
        stands_at(front + part + back, part, front.len() as int),
        contains_text(front + part + back, part),
{
    let text = front + part + back;
    let at = front.len() as int;
    assert(text.subrange(at, at + part.len()) =~= part);
    assert(stands_at(text, part, at));
}

/// A leading prefix goes, however often it is repeated, and a text that begins
/// otherwise stays as it is.
pub proof fn prefixes_are_skipped(text: Seq<char>, prefix: Seq<char>)
    requires
        prefix.len() > 0,
    ensures
        skip_prefixes(prefix + text, prefix) == skip_prefixes(text, prefix),
        text.len() < prefix.len() || text.take(prefix.len() as int) != prefix ==> skip_prefixes(
            text,
            prefix,
        ) == text,
{
    let longer = prefix + text;
    assert(longer.subrange(0, prefix.len() as int) =~= prefix);
    assert(stands_at(longer, prefix, 0));
    assert(longer.skip(prefix.len() as int) =~= text);
    if stands_at(text, prefix, 0) {
        assert(text.subrange(0, prefix.len() as int) =~= text.take(prefix.len() as int));
    }
}

/// Replacing works on each character by itself.
pub proof fn replacing_goes_character_by_character(
    a: Seq<char>,
    b: Seq<char>,
    c: char,
    x: char,
    by: Seq<char>,
)
    ensures
        replaced(Seq::empty(), c, by) == Seq::<char>::empty(),
        replaced(seq![x], c, by) == if x == c {
            by
        } else {
            seq![x]
        },
        replaced(a + b, c, by) == replaced(a, c, by) + replaced(b, c, by),
    decreases b.len(),
{
    assert(seq![x].drop_last() =~= Seq::<char>::empty());
    assert(replaced(seq![x].drop_last(), c, by) =~= Seq::<char>::empty());
    assert(seq![x].last() == x);
    let one = if x == c {
        by
    } else {
        seq![x]
    };
    assert(Seq::<char>::empty() + one =~= one);
    if b.len() == 0 {
        assert(a + b =~= a);
        assert(replaced(a, c, by) + replaced(b, c, by) =~= replaced(a, c, by));
    } else {
        replacing_goes_character_by_character(a, b.drop_last(), c, x, by);
        assert((a + b).drop_last() =~= a + b.drop_last());
        assert((a + b).last() == b.last());
        let last = if b.last() == c {
            by
        } else {
            seq![b.last()]
        };
        assert(replaced(a, c, by) + replaced(b.drop_last(), c, by) + last =~= replaced(a, c, by) + (
        replaced(b.drop_last(), c, by) + last));
    }
}

/// What is left when one character is replaced by nothing: the text without it.
pub proof fn replacing_by_nothing_filters(text: Seq<char>, c: char)
    ensures
        replaced(text, c, Seq::empty()) == text.filter(|x: char| x != c),
    decreases text.len(),
{
    reveal(Seq::filter);
    if text.len() > 0 {
        replacing_by_nothing_filters(text.drop_last(), c);
        let rest = text.drop_last().filter(|x: char| x != c);
        assert(rest + Seq::<char>::empty() =~= rest);
        assert(rest + seq![text.last()] =~= rest.push(text.last()));
    }
}

/// The number that decimal digits spell.
pub open spec fn spelled(digits: Seq<char>) -> int
    decreases digits.len(),
{
    if digits.len() == 0 {
        0
    } else {
        spelled(digits.drop_last()) * 10 + (digits.last() as int - '0' as int)
    }
}

/// Whether a text consists of decimal digits, at least one.
pub open spec fn all_digits(text: Seq<char>) -> bool {
    text.len() > 0 && forall|i: int| 0 <= i < text.len() ==> '0' <= #[trigger] text[i] <= '9'
}

/// The decimal of a number spells that number, in digits, and begins with a
/// zero only where it is the number zero.
pub proof fn decimal_spells_the_number(n: nat)
    ensures
        all_digits(decimal(n)),
        spelled(decimal(n)) == n,
        n > 0 ==> decimal(n)[0] != '0',
        n == 0 ==> decimal(n).len() == 1,
    decreases n,
{
    reveal_with_fuel(spelled, 2);
    if n < 10 {
        assert(decimal(n).drop_last() =~= Seq::<char>::empty());
    } else {
        decimal_spells_the_number(n / 10);
        assert(decimal(n).drop_last() =~= decimal(n / 10));
    }
}

/// Padding with zeros changes the width of a number and not what it spells.
pub proof fn padding_keeps_the_number(n: nat, width: nat)
    ensures
        all_digits(zero_padded(n, width)),
        spelled(zero_padded(n, width)) == n,
        zero_padded(n, width).len() == if decimal(n).len() < width {
            width
        } else {
            decimal(n).len()
        },
{
    decimal_spells_the_number(n);
    if decimal(n).len() < width {
        zeros_spell_nothing((width - decimal(n).len()) as nat, decimal(n));
    }
}

proof fn zeros_spell_nothing(n: nat, digits: Seq<char>)
    ensures
        spelled(zeros(n) + digits) == spelled(digits),
    decreases n + digits.len(),
{
    let whole = zeros(n) + digits;
    if digits.len() > 0 {
        zeros_spell_nothing(n, digits.drop_last());
        assert(whole.drop_last() =~= zeros(n) + digits.drop_last());
    } else if n > 0 {
        zeros_spell_nothing((n - 1) as nat, digits);
        assert(whole.drop_last() =~= zeros((n - 1) as nat) + digits);
    } else {
        assert(whole =~= digits);
    }
}

/// Joining two lists is joining each, with the separator in between.
pub proof fn joining_goes_list_by_list(
    a: Seq<Seq<char>>,
    b: Seq<Seq<char>>,
    text: Seq<char>,
    separator: Seq<char>,
)
    ensures
        joined(Seq::empty(), separator) == Seq::<char>::empty(),
        joined(seq![text], separator) == text,
        a.len() > 0 && b.len() > 0 ==> joined(a + b, separator) == joined(a, separator) + separator
            + joined(b, separator),
    decreases b.len(),
{
    if a.len() > 0 && b.len() > 0 {
        assert((a + b).drop_last() =~= a + b.drop_last());
        assert((a + b).last() == b.last());
        if b.len() == 1 {
            assert(a + b.drop_last() =~= a);
            assert(b.last() == b[0]);
        } else {
            joining_goes_list_by_list(a, b.drop_last(), text, separator);
            let (x, y) = (joined(a, separator), joined(b.drop_last(), separator));
            assert(x + separator + y + separator + b.last() =~= x + separator + (y + separator
                + b.last()));
        }
    }
}

/// Two texts stand in the order of the first characters in which they differ,
/// and a text stands before every longer one that begins with it.
pub proof fn the_first_difference_decides(
    common: Seq<char>,
    x: char,
    y: char,
    a: Seq<char>,
    b: Seq<char>,
)
    ensures
        (x as u32) < (y as u32) ==> before(common + seq![x] + a, common + seq![y] + b),
        before(common, common + seq![x] + a),
    decreases common.len(),
{
    let (p, q) = (common + seq![x] + a, common + seq![y] + b);
    if common.len() == 0 {
        assert(p[0] == x && q[0] == y);
    } else {
        let rest = common.drop_first();
        the_first_difference_decides(rest, x, y, a, b);
        assert(p[0] == common[0] && q[0] == common[0]);
        assert(p.drop_first() =~= rest + seq![x] + a);
        assert(q.drop_first() =~= rest + seq![y] + b);
    }
}

/// A list of strings is viewed string by string.
pub proof fn lists_hold_their_texts(parts: Seq<String>, i: int)
    ensures
        texts(parts).len() == parts.len(),
        0 <= i < parts.len() ==> texts(parts)[i] == parts[i]@,
{
}

} // verus!
