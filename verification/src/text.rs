//! Reading and writing the small texts of a configuration: decimal numbers,
//! lists, and words with white space around them.

use vstd::prelude::*;
use vstd::string::{StrSliceExecFns, StringExecFns};

verus! {

// ---------------------------------------------------------------------------
// Characters
// ---------------------------------------------------------------------------

/// The characters of `text`, in order.
pub fn chars_of(text: &str) -> (chars: Vec<char>)
    ensures
        chars@ == text@,
{
    let mut chars: Vec<char> = Vec::new();
    for c in it: text.chars()
        invariant
            chars@ == it.seq().take(it.index() as int),
            it.seq() == text@,
    {
        chars.push(c);
        assert(chars@ =~= it.seq().take(it.index() as int + 1));
    }
    assert(chars@ =~= text@);
    chars
}

/// Whether `a` and `b` are the same text.
pub fn same_text(a: &str, b: &str) -> (same: bool)
    ensures
        same == (a@ == b@),
{
    let x: Vec<char> = chars_of(a);
    let y: Vec<char> = chars_of(b);
    if x.len() != y.len() {
        return false;
    }
    for i in 0..x.len()
        invariant
            x@ == a@,
            y@ == b@,
            x@.len() == y@.len(),
            forall|j: int| 0 <= j < i ==> x@[j] == y@[j],
    {
        if x[i] != y[i] {
            return false;
        }
    }
    assert(a@ =~= b@);
    true
}

/// Whether a character is white space: it has the Unicode property `White_Space`.
pub open spec fn white_space(c: char) -> bool {
    let u = c as u32;
    ||| 0x9 <= u <= 0xd
    ||| u == 0x20
    ||| u == 0x85
    ||| u == 0xa0
    ||| u == 0x1680
    ||| 0x2000 <= u <= 0x200a
    ||| u == 0x2028
    ||| u == 0x2029
    ||| u == 0x202f
    ||| u == 0x205f
    ||| u == 0x3000
}

/// Tells whether a character is white space.
pub fn is_white_space(c: char) -> (yes: bool)
    ensures
        yes == white_space(c),
{
    let u: u32 = c as u32;
    (0x9 <= u && u <= 0xd) || u == 0x20 || u == 0x85 || u == 0xa0 || u == 0x1680 || (0x2000 <= u
        && u <= 0x200a) || u == 0x2028 || u == 0x2029 || u == 0x202f || u == 0x205f || u == 0x3000
}

/// `text` without the white space in front of it.
pub open spec fn without_front_space(text: Seq<char>) -> Seq<char>
    decreases text.len(),
{
    if text.len() > 0 && white_space(text.first()) {
        without_front_space(text.drop_first())
    } else {
        text
    }
}

/// `text` without the white space behind it.
pub open spec fn without_back_space(text: Seq<char>) -> Seq<char>
    decreases text.len(),
{
    if text.len() > 0 && white_space(text.last()) {
        without_back_space(text.drop_last())
    } else {
        text
    }
}

/// `text` without the white space around it.
pub open spec fn trimmed(text: Seq<char>) -> Seq<char> {
    without_back_space(without_front_space(text))
}

/// `text` without the white space around it.
pub fn trim(text: &str) -> (inner: &str)
    ensures
        inner@ == trimmed(text@),
{
    let chars: Vec<char> = chars_of(text);
    let n: usize = chars.len();
    let mut start: usize = 0;
    assert(text@.subrange(0, n as int) =~= text@);
    while start < n && is_white_space(chars[start])
        invariant
            chars@ == text@,
            n == chars@.len(),
            start <= n,
            without_front_space(text@) == without_front_space(
                text@.subrange(start as int, n as int),
            ),
        decreases n - start,
    {
        assert(text@.subrange(start as int, n as int).drop_first() =~= text@.subrange(
            start as int + 1,
            n as int,
        ));
        start = start + 1;
    }
    let ghost rest = text@.subrange(start as int, n as int);
    assert(without_front_space(text@) == rest);
    let mut end: usize = n;
    while start < end && is_white_space(chars[end - 1])
        invariant
            chars@ == text@,
            n == chars@.len(),
            start <= end <= n,
            without_back_space(rest) == without_back_space(
                text@.subrange(start as int, end as int),
            ),
        decreases end,
    {
        assert(text@.subrange(start as int, end as int).drop_last() =~= text@.subrange(
            start as int,
            end as int - 1,
        ));
        end = end - 1;
    }
    text.substring_char(start, end)
}

// ---------------------------------------------------------------------------
// Splitting
// ---------------------------------------------------------------------------

/// The place of the first `c` in `text`, or the length of `text` if there is
/// none.
pub open spec fn first_place(text: Seq<char>, c: char) -> int
    decreases text.len(),
{
    if text.len() == 0 || text.first() == c {
        0
    } else {
        1 + first_place(text.drop_first(), c)
    }
}

/// The place of the last `c` in `text`, or -1 if there is none.
pub open spec fn last_place(text: Seq<char>, c: char) -> int
    decreases text.len(),
{
    if text.len() == 0 {
        -1
    } else if text.last() == c {
        text.len() - 1
    } else {
        last_place(text.drop_last(), c)
    }
}

/// A place is within the text or at its end.
pub proof fn lemma_first_place(text: Seq<char>, c: char)
    ensures
        0 <= first_place(text, c) <= text.len(),
        first_place(text, c) < text.len() ==> text[first_place(text, c)] == c,
        forall|i: int| 0 <= i < first_place(text, c) ==> text[i] != c,
    decreases text.len(),
{
    if text.len() > 0 && text.first() != c {
        let rest = text.drop_first();
        lemma_first_place(rest, c);
        assert forall|i: int| 0 <= i < first_place(text, c) implies text[i] != c by {
            if i > 0 {
                assert(text[i] == rest[i - 1]);
            }
        }
    }
}

/// The place that [`first_place`] finds is the only one with these properties.
proof fn lemma_first_place_is(text: Seq<char>, c: char, at: int)
    requires
        0 <= at <= text.len(),
        at < text.len() ==> text[at] == c,
        forall|i: int| 0 <= i < at ==> text[i] != c,
    ensures
        first_place(text, c) == at,
{
    lemma_first_place(text, c);
}

/// The place of the last `c` is within the text, and none comes after it.
pub proof fn lemma_last_place(text: Seq<char>, c: char)
    ensures
        -1 <= last_place(text, c) < text.len(),
        last_place(text, c) >= 0 ==> text[last_place(text, c)] == c,
        forall|i: int| last_place(text, c) < i < text.len() ==> text[i] != c,
    decreases text.len(),
{
    if text.len() > 0 && text.last() != c {
        let front = text.drop_last();
        lemma_last_place(front, c);
        assert forall|i: int| last_place(text, c) < i < text.len() implies text[i] != c by {
            if i < text.len() - 1 {
                assert(text[i] == front[i]);
            }
        }
    }
}

/// Finds the first `c` in the characters from `from` on.
fn find_from(chars: &Vec<char>, from: usize, c: char) -> (at: usize)
    requires
        from <= chars@.len(),
    ensures
        from <= at <= chars@.len(),
        at == from + first_place(chars@.skip(from as int), c),
{
    let mut at: usize = from;
    while at < chars.len() && chars[at] != c
        invariant
            from <= at <= chars@.len(),
            forall|i: int| from <= i < at ==> chars@[i] != c,
        decreases chars@.len() - at,
    {
        at = at + 1;
    }
    proof {
        let rest = chars@.skip(from as int);
        assert forall|i: int| 0 <= i < at - from implies rest[i] != c by {
            assert(rest[i] == chars@[from + i]);
        }
        lemma_first_place_is(rest, c, at - from);
    }
    at
}

/// What stands before and after the first `c`, if there is one.
pub open spec fn split_at_first(text: Seq<char>, c: char) -> Option<(Seq<char>, Seq<char>)> {
    let at = first_place(text, c);
    if at < text.len() {
        Some((text.take(at), text.skip(at + 1)))
    } else {
        None
    }
}

/// Splits `text` at the first `c`.
pub fn split_first<'a>(text: &'a str, c: char) -> (parts: Option<(&'a str, &'a str)>)
    ensures
        parts is Some <==> split_at_first(text@, c) is Some,
        parts matches Some(p) ==> (p.0@, p.1@) == split_at_first(text@, c)->0,
{
    let chars: Vec<char> = chars_of(text);
    assert(chars@.skip(0) =~= text@);
    let at: usize = find_from(&chars, 0, c);
    let n: usize = chars.len();
    if at < n {
        let front: &str = text.substring_char(0, at);
        let back: &str = text.substring_char(at + 1, n);
        assert(front@ =~= text@.take(at as int));
        assert(back@ =~= text@.skip(at as int + 1));
        Some((front, back))
    } else {
        None
    }
}

/// What stands before and after the last `c`, if there is one.
pub open spec fn split_at_last(text: Seq<char>, c: char) -> Option<(Seq<char>, Seq<char>)> {
    let at = last_place(text, c);
    if at >= 0 {
        Some((text.take(at), text.skip(at + 1)))
    } else {
        None
    }
}

/// Splits `text` at the last `c`.
pub fn split_last<'a>(text: &'a str, c: char) -> (parts: Option<(&'a str, &'a str)>)
    ensures
        parts is Some <==> split_at_last(text@, c) is Some,
        parts matches Some(p) ==> (p.0@, p.1@) == split_at_last(text@, c)->0,
{
    let chars: Vec<char> = chars_of(text);
    let n: usize = chars.len();
    let mut end: usize = n;
    assert(text@.take(n as int) =~= text@);
    while end > 0
        invariant
            chars@ == text@,
            n == chars@.len(),
            end <= n,
            last_place(text@, c) == last_place(text@.take(end as int), c),
        decreases end,
    {
        let ghost front = text@.take(end as int);
        assert(front.last() == chars@[end as int - 1]);
        if chars[end - 1] == c {
            let head: &str = text.substring_char(0, end - 1);
            let tail: &str = text.substring_char(end, n);
            assert(head@ =~= text@.take(end as int - 1));
            assert(tail@ =~= text@.skip(end as int));
            return Some((head, tail));
        }
        assert(front.drop_last() =~= text@.take(end as int - 1));
        end = end - 1;
    }
    None
}

/// The pieces of `text` between the `c`s.
pub open spec fn pieces(text: Seq<char>, c: char) -> Seq<Seq<char>>
    decreases text.len(),
{
    let at = first_place(text, c);
    if at < text.len() {
        proof {
            lemma_first_place(text, c);
        }
        seq![text.take(at)] + pieces(text.skip(at + 1), c)
    } else {
        seq![text]
    }
}

/// Splits `text` at every `c`.
pub fn split_all<'a>(text: &'a str, c: char) -> (list: Vec<&'a str>)
    ensures
        list@.len() == pieces(text@, c).len(),
        forall|i: int| 0 <= i < list@.len() ==> (#[trigger] list@[i])@ == pieces(text@, c)[i],
{
    let chars: Vec<char> = chars_of(text);
    let n: usize = chars.len();
    let mut list: Vec<&'a str> = Vec::new();
    let mut from: usize = 0;
    assert(text@.skip(0) =~= text@);
    loop
        invariant
            chars@ == text@,
            n == chars@.len(),
            from <= n,
            pieces(text@, c).len() == list@.len() + pieces(text@.skip(from as int), c).len(),
            forall|i: int| 0 <= i < list@.len() ==> (#[trigger] list@[i])@ == pieces(text@, c)[i],
            forall|i: int|
                0 <= i < pieces(text@.skip(from as int), c).len() ==> pieces(text@, c)[list@.len()
                    + i] == #[trigger] pieces(text@.skip(from as int), c)[i],
        decreases n - from,
    {
        let at: usize = find_from(&chars, from, c);
        let piece: &'a str = text.substring_char(from, at);
        let ghost rest = text@.skip(from as int);
        let ghost before = list@.len() as int;
        assert(piece@ =~= rest.take(at - from));
        assert(pieces(rest, c)[0] == piece@) by {
            if at == n {
                assert(rest.take(at - from) =~= rest);
            }
        }
        list.push(piece);
        if at == n {
            assert(pieces(rest, c).len() == 1);
            return list;
        }
        proof {
            let next = text@.skip(at as int + 1);
            assert(rest.skip(at - from + 1) =~= next);
            assert(pieces(rest, c) =~= seq![piece@] + pieces(next, c));
            assert forall|i: int| 0 <= i < pieces(next, c).len() implies pieces(text@, c)[list@.len()
                + i] == #[trigger] pieces(next, c)[i] by {
                assert(pieces(rest, c)[i + 1] == pieces(next, c)[i]);
            }
        }
        from = at + 1;
    }
}

// ---------------------------------------------------------------------------
// Numbers
// ---------------------------------------------------------------------------

/// Whether a character is a decimal digit.
pub open spec fn is_digit(c: char) -> bool {
    '0' <= c && c <= '9'
}

/// The number that a row of digits writes.
pub open spec fn value_of(digits: Seq<char>) -> int
    decreases digits.len(),
{
    if digits.len() == 0 {
        0
    } else {
        value_of(digits.drop_last()) * 10 + (digits.last() as int - '0' as int)
    }
}

/// The digits of a number, behind a plus sign that may be left out.
pub open spec fn unsigned_digits(text: Seq<char>) -> Seq<char> {
    if text.len() > 0 && text.first() == '+' {
        text.drop_first()
    } else {
        text
    }
}

/// The number up to `max` that `text` writes: one or more decimal digits, with
/// or without a plus sign in front.
pub open spec fn number(text: Seq<char>, max: int) -> Option<int> {
    let digits = unsigned_digits(text);
    if digits.len() > 0 && (forall|i: int| 0 <= i < digits.len() ==> is_digit(#[trigger] digits[i]))
        && value_of(digits) <= max {
        Some(value_of(digits))
    } else {
        None
    }
}

/// A row of digits writes no less than its front does.
proof fn lemma_value_of_front(digits: Seq<char>, k: int)
    requires
        0 <= k <= digits.len(),
        forall|i: int| 0 <= i < digits.len() ==> is_digit(#[trigger] digits[i]),
    ensures
        0 <= value_of(digits.take(k)) <= value_of(digits),
    decreases digits.len(),
{
    if k == digits.len() {
        assert(digits.take(k) =~= digits);
        if digits.len() > 0 {
            lemma_value_of_front(digits.drop_last(), k - 1);
            assert(is_digit(digits.last()));
            assert(digits.drop_last().take(k - 1) =~= digits.drop_last());
        }
    } else {
        lemma_value_of_front(digits.drop_last(), k);
        assert(digits.drop_last().take(k) =~= digits.take(k));
        assert(is_digit(digits.last()));
    }
}

/// Reads a number up to `max`.
pub fn parse_number(text: &str, max: u64) -> (read: Option<u64>)
    ensures
        read is Some <==> number(text@, max as int) is Some,
        read matches Some(n) ==> n == number(text@, max as int)->0,
{
    let chars: Vec<char> = chars_of(text);
    let n: usize = chars.len();
    let from: usize = if n > 0 && chars[0] == '+' { 1 } else { 0 };
    let ghost digits = unsigned_digits(text@);
    assert(digits =~= text@.skip(from as int));
    if from == n {
        return None;
    }
    let mut value: u64 = 0;
    let mut i: usize = from;
    assert(digits.take(0) =~= Seq::<char>::empty());
    while i < n
        invariant
            chars@ == text@,
            n == chars@.len(),
            from <= i <= n,
            from < n,
            digits == text@.skip(from as int),
            digits == unsigned_digits(text@),
            value == value_of(digits.take(i - from)),
            value <= max,
            forall|j: int| 0 <= j < i - from ==> is_digit(#[trigger] digits[j]),
        decreases n - i,
    {
        let c: char = chars[i];
        assert(digits[i - from] == c);
        if c < '0' || c > '9' {
            assert(!is_digit(digits[i - from]));
            return None;
        }
        let digit: u64 = (c as u32 - '0' as u32) as u64;
        let wide: u128 = value as u128 * 10 + digit as u128;
        proof {
            let longer = digits.take(i - from + 1);
            assert(longer.drop_last() =~= digits.take(i - from));
            assert(longer.last() == c);
            assert(wide == value_of(longer));
        }
        if wide > max as u128 {
            proof {
                if forall|j: int| 0 <= j < digits.len() ==> is_digit(#[trigger] digits[j]) {
                    lemma_value_of_front(digits, i - from + 1);
                }
            }
            return None;
        }
        value = wide as u64;
        i = i + 1;
    }
    assert(digits.take(n - from) =~= digits);
    Some(value)
}

/// The decimal digits of `n`.
pub open spec fn decimal(n: nat) -> Seq<char>
    decreases n,
{
    if n < 10 {
        seq![('0' as int + n) as char]
    } else {
        decimal(n / 10).push(('0' as int + n % 10) as char)
    }
}

/// The decimal digits of a number are digits, at least one, and write that number,
/// so that it is read back as it was written.
pub proof fn decimal_reads_back(n: nat)
    ensures
        decimal(n).len() > 0,
        forall|i: int| 0 <= i < decimal(n).len() ==> is_digit(#[trigger] decimal(n)[i]),
        value_of(decimal(n)) == n,
        forall|max: int| n <= max ==> #[trigger] number(decimal(n), max) == Some(n as int),
    decreases n,
{
    let digits = decimal(n);
    if n >= 10 {
        decimal_reads_back(n / 10);
        assert(digits.drop_last() =~= decimal(n / 10));
        assert forall|i: int| 0 <= i < digits.len() implies is_digit(#[trigger] digits[i]) by {
            if i < digits.len() - 1 {
                assert(digits[i] == decimal(n / 10)[i]);
            }
        }
    } else {
        assert(digits.drop_last() =~= Seq::<char>::empty());
        assert(value_of(digits.drop_last()) == 0);
    }
    assert(digits.last() as int == '0' as int + n % 10);
    assert(value_of(digits) == value_of(digits.drop_last()) * 10 + (digits.last() as int
        - '0' as int));
    assert(is_digit(digits[0]));
    assert(unsigned_digits(digits) == digits);
}

/// The text of one decimal digit.
fn digit_text(d: u64) -> (text: &'static str)
    requires
        d < 10,
    ensures
        text@ == seq![('0' as int + d) as char],
{
    proof {
        reveal_strlit("0");
        reveal_strlit("1");
        reveal_strlit("2");
        reveal_strlit("3");
        reveal_strlit("4");
        reveal_strlit("5");
        reveal_strlit("6");
        reveal_strlit("7");
        reveal_strlit("8");
        reveal_strlit("9");
    }
    let text: &'static str = match d {
        0 => "0",
        1 => "1",
        2 => "2",
        3 => "3",
        4 => "4",
        5 => "5",
        6 => "6",
        7 => "7",
        8 => "8",
        _ => "9",
    };
    assert(text@ =~= seq![('0' as int + d) as char]);
    text
}

/// Writes `n` in decimal behind `out`.
pub fn push_decimal(out: &mut String, n: u64)
    ensures
        final(out)@ == old(out)@ + decimal(n as nat),
    decreases n,
{
    let ghost before = out@;
    if n < 10 {
        out.append(digit_text(n));
    } else {
        push_decimal(out, n / 10);
        out.append(digit_text(n % 10));
        assert(out@ =~= before + decimal(n as nat));
    }
}

/// The text of a truth value.
pub open spec fn bool_text(b: bool) -> Seq<char> {
    if b {
        "true"@
    } else {
        "false"@
    }
}

/// Writes a truth value behind `out`.
pub fn push_bool(out: &mut String, b: bool)
    ensures
        final(out)@ == old(out)@ + bool_text(b),
{
    if b {
        out.append("true");
    } else {
        out.append("false");
    }
}

// ---------------------------------------------------------------------------
// Lower case
// ---------------------------------------------------------------------------

/// The text that `str::to_lowercase` of the standard library makes of `text`.
pub uninterp spec fn lowercase(text: Seq<char>) -> Seq<char>;

/// The lower-case form of an ASCII character.
pub open spec fn ascii_lower(c: char) -> char {
    if 'A' <= c && c <= 'Z' {
        (c as int + 32) as char
    } else {
        c
    }
}

/// Calls `str::to_lowercase`, which maps a text to lower case by the Unicode
/// tables. Of a text of ASCII characters alone it is claimed that the letters
/// `A` to `Z` become `a` to `z` and the others stay.
#[verifier::external_body]
pub(crate) fn to_lower(text: &str) -> (lower: String)
    ensures
        lower@ == lowercase(text@),
        vstd::utf8::is_ascii_chars(text@) ==> lower@ == text@.map_values(|c: char| ascii_lower(c)),
{
    text.to_lowercase()
}

// ---------------------------------------------------------------------------
// Laws
// ---------------------------------------------------------------------------

/// Trimming takes white space alone off either end, and all of it: what is left is
/// empty or begins and ends with something else.
pub proof fn trimming_takes_white_space_off_the_ends(text: Seq<char>) -> (cut: (int, int))
    ensures
        0 <= cut.0 <= cut.1 <= text.len(),
        trimmed(text) == text.subrange(cut.0, cut.1),
        forall|i: int| 0 <= i < cut.0 ==> white_space(#[trigger] text[i]),
        forall|i: int| cut.1 <= i < text.len() ==> white_space(#[trigger] text[i]),
        cut.0 < cut.1 ==> !white_space(text[cut.0]) && !white_space(text[cut.1 - 1]),
{
    let start = lemma_front_space(text);
    let rest = without_front_space(text);
    let kept = lemma_back_space(rest);
    assert(rest.take(kept) =~= text.subrange(start, start + kept));
    assert forall|i: int| start + kept <= i < text.len() implies white_space(
        #[trigger] text[i],
    ) by {
        assert(text[i] == rest[i - start]);
    }
    (start, start + kept)
}

/// How much white space stands in front of a text.
proof fn lemma_front_space(text: Seq<char>) -> (n: int)
    ensures
        0 <= n <= text.len(),
        without_front_space(text) == text.skip(n),
        forall|i: int| 0 <= i < n ==> white_space(#[trigger] text[i]),
        n < text.len() ==> !white_space(text[n]),
    decreases text.len(),
{
    if text.len() > 0 && white_space(text.first()) {
        let rest = text.drop_first();
        let m = lemma_front_space(rest);
        assert(rest.skip(m) =~= text.skip(m + 1));
        assert forall|i: int| 0 <= i < m + 1 implies white_space(#[trigger] text[i]) by {
            if i > 0 {
                assert(text[i] == rest[i - 1]);
            }
        }
        m + 1
    } else {
        assert(text.skip(0) =~= text);
        0
    }
}

/// How much of a text is left without the white space behind it.
proof fn lemma_back_space(text: Seq<char>) -> (n: int)
    ensures
        0 <= n <= text.len(),
        without_back_space(text) == text.take(n),
        forall|i: int| n <= i < text.len() ==> white_space(#[trigger] text[i]),
        n > 0 ==> !white_space(text[n - 1]),
    decreases text.len(),
{
    if text.len() > 0 && white_space(text.last()) {
        let front = text.drop_last();
        let m = lemma_back_space(front);
        assert(front.take(m) =~= text.take(m));
        assert forall|i: int| m <= i < text.len() implies white_space(#[trigger] text[i]) by {
            if i < text.len() - 1 {
                assert(text[i] == front[i]);
            }
        }
        m
    } else {
        assert(text.take(text.len() as int) =~= text);
        text.len() as int
    }
}

/// A text that is put together from a front without `c`, one `c` and anything is split
/// into these at its first `c`; one without `c` is not split.
pub proof fn first_split_undoes_joining(front: Seq<char>, c: char, back: Seq<char>)
    requires
        !front.contains(c),
    ensures
        split_at_first(front.push(c) + back, c) == Some((front, back)),
        split_at_first(front, c) is None,
{
    let text = front.push(c) + back;
    assert forall|i: int| 0 <= i < front.len() implies text[i] != c by {
        assert(front.contains(front[i]));
    }
    assert(text[front.len() as int] == c);
    lemma_first_place_is(text, c, front.len() as int);
    assert(text.take(front.len() as int) =~= front);
    assert(text.skip(front.len() as int + 1) =~= back);
    assert forall|i: int| 0 <= i < front.len() implies front[i] != c by {
        assert(front.contains(front[i]));
    }
    lemma_first_place_is(front, c, front.len() as int);
}

/// A text that is put together from anything, one `c` and a back without `c` is split
/// into these at its last `c`; one without `c` is not split.
pub proof fn last_split_undoes_joining(front: Seq<char>, c: char, back: Seq<char>)
    requires
        !back.contains(c),
    ensures
        split_at_last(front.push(c) + back, c) == Some((front, back)),
        split_at_last(back, c) is None,
{
    let text = front.push(c) + back;
    lemma_last_place(text, c);
    let at = last_place(text, c);
    assert(text[front.len() as int] == c);
    if at > front.len() {
        assert(text[at] == back[at - front.len() - 1]);
        assert(back.contains(text[at]));
    }
    assert(at == front.len());
    assert(text.take(at) =~= front);
    assert(text.skip(at + 1) =~= back);
    lemma_last_place(back, c);
    if last_place(back, c) >= 0 {
        assert(back.contains(back[last_place(back, c)]));
    }
}

/// A text without `c` is one piece, and a front without `c` and one `c` put one piece
/// in front of those of the rest.
pub proof fn pieces_stand_between_separators(front: Seq<char>, c: char, back: Seq<char>)
    requires
        !front.contains(c),
    ensures
        pieces(front, c) == seq![front],
        pieces(front.push(c) + back, c) == seq![front] + pieces(back, c),
{
    first_split_undoes_joining(front, c, back);
    let text = front.push(c) + back;
    lemma_first_place(front, c);
    lemma_first_place(text, c);
    assert(pieces(front, c) == seq![front]);
}

/// A digit behind a row of digits counts one, and what stands before it ten times as
/// much as it did.
pub proof fn digit_behind_digits(digits: Seq<char>, digit: int)
    requires
        0 <= digit <= 9,
    ensures
        value_of(Seq::<char>::empty()) == 0,
        value_of(digits.push((48 + digit) as char)) == 10 * value_of(digits) + digit,
{
    let longer = digits.push((48 + digit) as char);
    assert(longer.drop_last() =~= digits);
    assert(longer.last() as int == 48 + digit);
}

/// What is read as a number: digits alone, at least one and any number of them, that
/// write no more than the limit; a plus sign in front changes nothing.
pub proof fn numbers_are_digits_within_the_limit(digits: Seq<char>, max: int)
    ensures
        (digits.len() > 0 && (forall|i: int|
            0 <= i < digits.len() ==> 48 <= (#[trigger] digits[i]) as int <= 57)) ==> {
            &&& number(digits, max) == (if value_of(digits) <= max {
                Some(value_of(digits))
            } else {
                None
            })
            &&& number(seq!['+'] + digits, max) == number(digits, max)
        },
        (digits.len() == 0 || (exists|i: int|
            0 <= i < digits.len() && !(48 <= (#[trigger] digits[i]) as int <= 57))) ==> {
            &&& digits.len() == 0 || digits[0] != '+' ==> number(digits, max) is None
            &&& number(seq!['+'] + digits, max) is None
        },
{
    let signed = seq!['+'] + digits;
    assert(signed.drop_first() =~= digits);
    assert(unsigned_digits(signed) == digits);
    if digits.len() > 0 && (forall|i: int|
        0 <= i < digits.len() ==> 48 <= (#[trigger] digits[i]) as int <= 57) {
        assert(48 <= digits[0] as int <= 57);
        assert(unsigned_digits(digits) == digits);
        assert forall|i: int| 0 <= i < digits.len() implies is_digit(#[trigger] digits[i]) by {
            assert(48 <= digits[i] as int <= 57);
        }
    } else if digits.len() > 0 {
        let i = choose|i: int|
            0 <= i < digits.len() && !(48 <= (#[trigger] digits[i]) as int <= 57);
        assert(!is_digit(digits[i]));
    }
}

/// A number is written without zeros in front.
pub proof fn decimal_has_no_leading_zero(n: nat)
    ensures
        n > 0 ==> decimal(n)[0] != '0',
        decimal(0) == seq!['0'],
    decreases n,
{
    if n >= 10 {
        decimal_has_no_leading_zero(n / 10);
        decimal_reads_back(n / 10);
    }
}

/// Lower case moves the 26 letters from `A` on by 32 and leaves every other character.
pub proof fn lower_case_moves_capitals_alone(c: char)
    ensures
        65 <= c as int <= 90 ==> ascii_lower(c) as int == c as int + 32,
        !(65 <= c as int <= 90) ==> ascii_lower(c) == c,
        bool_text(true) == seq!['t', 'r', 'u', 'e'],
        bool_text(false) == seq!['f', 'a', 'l', 's', 'e'],
{
    reveal_strlit("true");
    reveal_strlit("false");
    assert("true"@ =~= seq!['t', 'r', 'u', 'e']);
    assert("false"@ =~= seq!['f', 'a', 'l', 's', 'e']);
}

} // verus!
