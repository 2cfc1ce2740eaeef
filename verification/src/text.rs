//! Text primitives: decimal numbers, comparison, slicing and trimming of strings.
//!
//! A string is specified by its sequence of characters. Everything here is stated over such
//! sequences, so a message or a rendered document can be given exactly in a contract.

use vstd::prelude::*;

verus! {

broadcast use vstd::string::group_string_axioms;

/// `String::push` appends one character at the end.
pub assume_specification[ String::push ](text: &mut String, c: char)
    ensures
        final(text)@ == old(text)@.push(c),
;

/// The outcome of comparing two values of an ordered type.
#[derive(Debug, Clone, Copy, PartialEq, Eq, Structural)]
pub enum Rank {
    Before,
    Same,
    After,
}

/// The character of a decimal digit.
pub open spec fn digit(d: nat) -> char {
    ('0' as int + d) as char
}

/// A natural number in decimal, without leading zeros.
pub open spec fn decimal(n: nat) -> Seq<char>
    decreases n,
{
    if n < 10 {
        seq![digit(n)]
    } else {
        decimal(n / 10).push(digit(n % 10))
    }
}

fn digit_char(d: u64) -> (c: char)
    requires
        d < 10,
    ensures
        c == digit(d as nat),
{
    match d {
        0 => '0',
        1 => '1',
        2 => '2',
        3 => '3',
        4 => '4',
        5 => '5',
        6 => '6',
        7 => '7',
        8 => '8',
        _ => '9',
    }
}

/// Appends a number in decimal.
pub fn push_decimal(out: &mut String, n: u64)
    ensures
        final(out)@ == old(out)@ + decimal(n as nat),
    decreases n,
{
    if n >= 10 {
        push_decimal(out, n / 10);
    }
    out.push(digit_char(n % 10));
    proof {
        if n >= 10 {
            assert(old(out)@ + decimal((n / 10) as nat).push(digit((n % 10) as nat)) =~= (old(out)@
                + decimal((n / 10) as nat)).push(digit((n % 10) as nat)));
        } else {
            assert(old(out)@ + seq![digit(n as nat)] =~= old(out)@.push(digit(n as nat)));
        }
    }
}

/// Appends a wide number in decimal.
pub fn push_wide_decimal(out: &mut String, n: u128)
    ensures
        final(out)@ == old(out)@ + decimal(n as nat),
    decreases n,
{
    if n >= 10 {
        push_wide_decimal(out, n / 10);
    }
    out.push(digit_char((n % 10) as u64));
    proof {
        if n >= 10 {
            assert(old(out)@ + decimal((n / 10) as nat).push(digit((n % 10) as nat)) =~= (old(out)@
                + decimal((n / 10) as nat)).push(digit((n % 10) as nat)));
        } else {
            assert(old(out)@ + seq![digit(n as nat)] =~= old(out)@.push(digit(n as nat)));
        }
    }
}

/// A number in decimal.
pub fn decimal_text(n: u64) -> (text: String)
    ensures
        text@ == decimal(n as nat),
{
    let mut text = String::new();
    push_decimal(&mut text, n);
    assert(Seq::<char>::empty() + decimal(n as nat) =~= decimal(n as nat));
    text
}

/// What a sequence of strings denotes.
pub open spec fn texts(strings: Seq<String>) -> Seq<Seq<char>> {
    strings.map_values(|text: String| text@)
}

/// The characters of a string.
pub fn chars_of(text: &str) -> (chars: Vec<char>)
    ensures
        chars@ == text@,
{
    let mut chars: Vec<char> = Vec::new();
    for c in iter: text.chars()
        invariant
            chars@ == text@.take(iter.index()),
            iter.seq() == text@,
    {
        chars.push(c);
    }
    assert(text@.take(text@.len() as int) =~= text@);
    chars
}

/// The string made of the characters from `from` up to `to`.
pub fn text_between(chars: &[char], from: usize, to: usize) -> (text: String)
    requires
        from <= to <= chars@.len(),
    ensures
        text@ == chars@.subrange(from as int, to as int),
{
    let mut text = String::new();
    let mut i: usize = from;
    while i < to
        invariant
            from <= i <= to <= chars@.len(),
            text@ == chars@.subrange(from as int, i as int),
        decreases to - i,
    {
        text.push(chars[i]);
        i = i + 1;
        assert(chars@.subrange(from as int, i as int) =~= chars@.subrange(
            from as int,
            i - 1,
        ).push(chars@[i - 1]));
    }
    text
}

/// Whether two strings hold the same characters.
pub fn same_text(a: &str, b: &str) -> (same: bool)
    ensures
        same == (a@ == b@),
{
    let left = chars_of(a);
    let right = chars_of(b);
    if left.len() != right.len() {
        return false;
    }
    let mut i: usize = 0;
    while i < left.len()
        invariant
            left@ == a@,
            right@ == b@,
            left.len() == right.len(),
            i <= left.len(),
            forall|j: int| 0 <= j < i ==> left@[j] == right@[j],
        decreases left.len() - i,
    {
        if left[i] != right[i] {
            return false;
        }
        i = i + 1;
    }
    assert(a@ =~= b@);
    true
}

/// Strict dictionary order on character sequences, by code point.
pub open spec fn text_before(a: Seq<char>, b: Seq<char>) -> bool
    decreases a.len(),
{
    if b.len() == 0 {
        false
    } else if a.len() == 0 {
        true
    } else if a[0] != b[0] {
        (a[0] as int) < b[0] as int
    } else {
        text_before(a.drop_first(), b.drop_first())
    }
}

/// Dictionary order is a strict total order.
pub proof fn lemma_text_order(a: Seq<char>, b: Seq<char>, c: Seq<char>)
    ensures
        !text_before(a, a),
        text_before(a, b) && text_before(b, c) ==> text_before(a, c),
        a == b || text_before(a, b) || text_before(b, a),
    decreases a.len() + b.len() + c.len(),
{
    if a.len() > 0 {
        lemma_text_order(
            a.drop_first(),
            if b.len() > 0 {
                b.drop_first()
            } else {
                b
            },
            if c.len() > 0 {
                c.drop_first()
            } else {
                c
            },
        );
    }
    if a.len() == 0 && b.len() == 0 {
        assert(a =~= b);
    } else if a.len() > 0 && b.len() > 0 && a[0] == b[0] && a.drop_first() == b.drop_first() {
        assert(a =~= seq![a[0]] + a.drop_first());
        assert(b =~= seq![b[0]] + b.drop_first());
    }
}

proof fn lemma_first_difference(a: Seq<char>, b: Seq<char>, at: int)
    requires
        0 <= at <= a.len(),
        at <= b.len(),
        forall|i: int| 0 <= i < at ==> a[i] == b[i],
    ensures
        text_before(a, b) == text_before(
            a.subrange(at, a.len() as int),
            b.subrange(at, b.len() as int),
        ),
    decreases at,
{
    if at == 0 {
        assert(a.subrange(0, a.len() as int) =~= a);
        assert(b.subrange(0, b.len() as int) =~= b);
    } else {
        lemma_first_difference(a.drop_first(), b.drop_first(), at - 1);
        assert(a.drop_first().subrange(at - 1, a.len() - 1) =~= a.subrange(at, a.len() as int));
        assert(b.drop_first().subrange(at - 1, b.len() - 1) =~= b.subrange(at, b.len() as int));
    }
}

/// Compares two strings in dictionary order.
pub fn compare_text(a: &str, b: &str) -> (rank: Rank)
    ensures
        match rank {
            Rank::Before => text_before(a@, b@),
            Rank::Same => a@ == b@,
            Rank::After => text_before(b@, a@),
        },
{
    let left = chars_of(a);
    let right = chars_of(b);
    let mut i: usize = 0;
    while i < left.len() && i < right.len()
        invariant
            left@ == a@,
            right@ == b@,
            i <= left.len(),
            i <= right.len(),
            forall|j: int| 0 <= j < i ==> left@[j] == right@[j],
        decreases left.len() - i,
    {
        if left[i] != right[i] {
            proof {
                lemma_first_difference(a@, b@, i as int);
                lemma_first_difference(b@, a@, i as int);
            }
            if left[i] < right[i] {
                return Rank::Before;
            }
            return Rank::After;
        }
        i = i + 1;
    }
    proof {
        lemma_first_difference(a@, b@, i as int);
        lemma_first_difference(b@, a@, i as int);
    }
    if left.len() < right.len() {
        Rank::Before
    } else if left.len() > right.len() {
        Rank::After
    } else {
        assert(a@ =~= b@);
        Rank::Same
    }
}

/// Sequences written one after another with a separator between them.
pub open spec fn joined(parts: Seq<Seq<char>>, separator: Seq<char>) -> Seq<char>
    decreases parts.len(),
{
    if parts.len() == 0 {
        Seq::empty()
    } else if parts.len() == 1 {
        parts[0]
    } else {
        joined(parts.drop_last(), separator) + separator + parts.last()
    }
}

/// Joins strings with a separator between them.
pub fn join_texts(parts: &[String], separator: &str) -> (text: String)
    ensures
        text@ == joined(texts(parts@), separator@),
{
    let mut text = String::new();
    let mut i: usize = 0;
    let ghost all = texts(parts@);
    while i < parts.len()
        invariant
            i <= parts.len(),
            all == texts(parts@),
            text@ == joined(all.take(i as int), separator@),
        decreases parts.len() - i,
    {
        if i > 0 {
            text.append(separator);
        }
        text.append(parts[i].as_str());
        proof {
            assert(all.take(i + 1).drop_last() =~= all.take(i as int));
            if i == 0 {
                assert(Seq::<char>::empty() + all[0] =~= all[0]);
            }
        }
        i = i + 1;
    }
    assert(all.take(i as int) =~= all);
    text
}

/// A copy of some strings.
pub fn copy_texts(strings: &[String]) -> (copies: Vec<String>)
    ensures
        copies@ == strings@,
{
    let mut copies: Vec<String> = Vec::new();
    let mut i: usize = 0;
    while i < strings.len()
        invariant
            i <= strings.len(),
            copies@ == strings@.take(i as int),
        decreases strings.len() - i,
    {
        copies.push(strings[i].clone());
        i = i + 1;
        assert(strings@.take(i as int) =~= strings@.take(i - 1).push(strings@[i - 1]));
    }
    assert(strings@.take(i as int) =~= strings@);
    copies
}

/// Whether a character has the Unicode `White_Space` property.
pub open spec fn white(c: char) -> bool {
    let u = c as int;
    9 <= u <= 13 || u == 0x20 || u == 0x85 || u == 0xa0 || u == 0x1680 || 0x2000 <= u <= 0x200a || u
        == 0x2028 || u == 0x2029 || u == 0x202f || u == 0x205f || u == 0x3000
}

/// Whether a character has the Unicode `White_Space` property.
pub fn is_white(c: char) -> (yes: bool)
    ensures
        yes == white(c),
{
    let u: u32 = c as u32;
    (9 <= u && u <= 13) || u == 0x20 || u == 0x85 || u == 0xa0 || u == 0x1680 || (0x2000 <= u && u
        <= 0x200a) || u == 0x2028 || u == 0x2029 || u == 0x202f || u == 0x205f || u == 0x3000
}

/// Characters without leading whitespace.
pub open spec fn trimmed_start(s: Seq<char>) -> Seq<char>
    decreases s.len(),
{
    if s.len() > 0 && white(s[0]) {
        trimmed_start(s.drop_first())
    } else {
        s
    }
}

/// Characters without trailing whitespace.
pub open spec fn trimmed_end(s: Seq<char>) -> Seq<char>
    decreases s.len(),
{
    if s.len() > 0 && white(s.last()) {
        trimmed_end(s.drop_last())
    } else {
        s
    }
}

/// Characters without leading and trailing whitespace.
pub open spec fn trimmed(s: Seq<char>) -> Seq<char> {
    trimmed_end(trimmed_start(s))
}

/// A string without leading and trailing whitespace.
pub fn trim(text: &str) -> (inner: String)
    ensures
        inner@ == trimmed(text@),
{
    let chars = chars_of(text);
    let mut from: usize = 0;
    let ghost all = chars@;
    assert(all.subrange(0, all.len() as int) =~= all);
    while from < chars.len() && is_white(chars[from])
        invariant
            from <= chars.len(),
            all == chars@,
            trimmed_start(all) == trimmed_start(all.subrange(from as int, all.len() as int)),
        decreases chars.len() - from,
    {
        assert(all.subrange(from as int, all.len() as int).drop_first() =~= all.subrange(
            from + 1,
            all.len() as int,
        ));
        from = from + 1;
    }
    let ghost body = all.subrange(from as int, all.len() as int);
    assert(trimmed_start(all) == body);
    let mut to: usize = chars.len();
    while from < to && is_white(chars[to - 1])
        invariant
            from <= to <= chars.len(),
            all == chars@,
            trimmed_end(body) == trimmed_end(all.subrange(from as int, to as int)),
        decreases to,
    {
        assert(all.subrange(from as int, to as int).drop_last() =~= all.subrange(
            from as int,
            to - 1,
        ));
        to = to - 1;
    }
    text_between(chars.as_slice(), from, to)
}

/// The lower-case form of an ASCII letter; any other character as it is.
pub open spec fn ascii_lower(c: char) -> char {
    if 'A' <= c <= 'Z' {
        (c as int + 32) as char
    } else {
        c
    }
}

/// Characters with ASCII letters in lower case.
pub open spec fn ascii_lowered(s: Seq<char>) -> Seq<char> {
    s.map_values(|c: char| ascii_lower(c))
}

fn lower_char(c: char) -> (lower: char)
    ensures
        lower == ascii_lower(c),
{
    if 'A' <= c && c <= 'Z' {
        let shifted: u8 = c as u8 + 32;
        shifted as char
    } else {
        c
    }
}

/// A string with ASCII letters in lower case.
pub fn to_lower(text: &str) -> (lower: String)
    ensures
        lower@ == ascii_lowered(text@),
{
    let chars = chars_of(text);
    let mut lower = String::new();
    let mut i: usize = 0;
    while i < chars.len()
        invariant
            i <= chars.len(),
            chars@ == text@,
            lower@ == ascii_lowered(text@.take(i as int)),
        decreases chars.len() - i,
    {
        lower.push(lower_char(chars[i]));
        i = i + 1;
        assert(ascii_lowered(text@.take(i as int)) =~= ascii_lowered(text@.take(i - 1)).push(
            ascii_lower(text@[i - 1]),
        ));
    }
    assert(text@.take(i as int) =~= text@);
    lower
}

/// Whether a character is an ASCII digit.
pub open spec fn is_digit(c: char) -> bool {
    '0' <= c <= '9'
}

/// Whether every character is an ASCII digit.
pub open spec fn all_digits(s: Seq<char>) -> bool {
    forall|i: int| 0 <= i < s.len() ==> is_digit(#[trigger] s[i])
}

/// The number that decimal digits denote.
pub open spec fn digits_value(s: Seq<char>) -> nat
    decreases s.len(),
{
    if s.len() == 0 {
        0
    } else {
        digits_value(s.drop_last()) * 10 + (s.last() as nat - '0' as nat) as nat
    }
}

/// The number a string denotes: decimal digits, at least one, after an optional plus sign, that
/// fit in 64 bits.
pub open spec fn unsigned_number(s: Seq<char>) -> Option<u64> {
    let digits = if s.len() > 0 && s[0] == '+' {
        s.drop_first()
    } else {
        s
    };
    if digits.len() > 0 && all_digits(digits) && digits_value(digits) <= u64::MAX {
        Some(digits_value(digits) as u64)
    } else {
        None
    }
}

proof fn lemma_digits_value_grows(s: Seq<char>, i: int)
    requires
        0 <= i <= s.len(),
        all_digits(s),
    ensures
        digits_value(s.take(i)) <= digits_value(s),
    decreases s.len() - i,
{
    if i == s.len() {
        assert(s.take(i) =~= s);
    } else {
        lemma_digits_value_grows(s, i + 1);
        assert(s.take(i + 1).drop_last() =~= s.take(i));
        assert(is_digit(s[i]));
    }
}

/// Parses a string as an unsigned 64-bit number.
pub fn parse_unsigned(text: &str) -> (number: Option<u64>)
    ensures
        number == unsigned_number(text@),
{
    let chars = chars_of(text);
    let from: usize = if chars.len() > 0 && chars[0] == '+' {
        1
    } else {
        0
    };
    let ghost digits = if text@.len() > 0 && text@[0] == '+' {
        text@.drop_first()
    } else {
        text@
    };
    assert(digits =~= text@.subrange(from as int, text@.len() as int));
    if from == chars.len() {
        return None;
    }
    let mut value: u64 = 0;
    let mut i: usize = from;
    assert(digits.take(0) =~= Seq::<char>::empty());
    while i < chars.len()
        invariant
            from <= i <= chars.len(),
            chars@ == text@,
            digits == text@.subrange(from as int, text@.len() as int),
            unsigned_number(text@) == (if digits.len() > 0 && all_digits(digits) && digits_value(
                digits,
            ) <= u64::MAX {
                Some(digits_value(digits) as u64)
            } else {
                None
            }),
            all_digits(digits.take(i - from)),
            value == digits_value(digits.take(i - from)),
        decreases chars.len() - i,
    {
        let c = chars[i];
        assert(c == digits[i - from]);
        if !('0' <= c && c <= '9') {
            assert(!is_digit(digits[i - from]));
            return None;
        }
        let digit: u64 = c as u64 - 48;
        proof {
            assert(digits.take(i - from + 1).drop_last() =~= digits.take(i - from));
            if all_digits(digits) {
                lemma_digits_value_grows(digits, i - from + 1);
            }
            assert forall|j: int| 0 <= j < i - from + 1 implies is_digit(
                #[trigger] digits.take(i - from + 1)[j],
            ) by {
                if j < i - from {
                    assert(is_digit(digits.take(i - from)[j]));
                }
            }
        }
        value = match value.checked_mul(10) {
            Some(tens) => match tens.checked_add(digit) {
                Some(sum) => sum,
                None => {
                    return None;
                },
            },
            None => {
                return None;
            },
        };
        i = i + 1;
    }
    assert(digits.take(i - from) =~= digits);
    Some(value)
}

/// Whether a sequence begins with another.
pub open spec fn begins_with(s: Seq<char>, prefix: Seq<char>) -> bool {
    prefix.len() <= s.len() && s.take(prefix.len() as int) == prefix
}

/// What follows a prefix.
pub fn strip_prefix(text: &str, prefix: &str) -> (rest: Option<String>)
    ensures
        match rest {
            Some(rest) => begins_with(text@, prefix@) && rest@ == text@.skip(
                prefix@.len() as int,
            ),
            None => !begins_with(text@, prefix@),
        },
{
    let chars = chars_of(text);
    let head = chars_of(prefix);
    if chars.len() < head.len() {
        return None;
    }
    let mut i: usize = 0;
    while i < head.len()
        invariant
            i <= head.len() <= chars.len(),
            chars@ == text@,
            head@ == prefix@,
            forall|j: int| 0 <= j < i ==> chars@[j] == head@[j],
        decreases head.len() - i,
    {
        if chars[i] != head[i] {
            assert(text@.take(prefix@.len() as int)[i as int] != prefix@[i as int]);
            return None;
        }
        i = i + 1;
    }
    assert(text@.take(prefix@.len() as int) =~= prefix@);
    let rest = text_between(chars.as_slice(), head.len(), chars.len());
    assert(rest@ =~= text@.skip(prefix@.len() as int));
    Some(rest)
}

/// Whether a string begins with a prefix.
pub fn starts_with(text: &str, prefix: &str) -> (yes: bool)
    ensures
        yes == begins_with(text@, prefix@),
{
    strip_prefix(text, prefix).is_some()
}

/// Where a character first occurs, or the length if it does not.
pub open spec fn first_place(s: Seq<char>, c: char) -> int
    decreases s.len(),
{
    if s.len() == 0 || s[0] == c {
        0
    } else {
        1 + first_place(s.drop_first(), c)
    }
}

/// The place where a character first occurs is where everything before it is something else.
pub proof fn lemma_first_place(s: Seq<char>, c: char)
    ensures
        0 <= first_place(s, c) <= s.len(),
        first_place(s, c) < s.len() ==> s[first_place(s, c)] == c,
        forall|i: int| 0 <= i < first_place(s, c) ==> s[i] != c,
        s.contains(c) == (first_place(s, c) < s.len()),
    decreases s.len(),
{
    if s.len() > 0 && s[0] != c {
        lemma_first_place(s.drop_first(), c);
        assert forall|i: int| 0 <= i < first_place(s, c) implies s[i] != c by {
            if i > 0 {
                assert(s.drop_first()[i - 1] == s[i]);
            }
        }
        if s.contains(c) {
            let i = choose|i: int| 0 <= i < s.len() && s[i] == c;
            assert(s.drop_first()[i - 1] == c);
        }
        if s.drop_first().contains(c) {
            let i = choose|i: int| 0 <= i < s.len() - 1 && s.drop_first()[i] == c;
            assert(s[i + 1] == c);
        }
    }
}

/// Where a character first occurs among characters, from a place on.
pub fn find_char(chars: &[char], from: usize, c: char) -> (at: usize)
    requires
        from <= chars@.len(),
    ensures
        from <= at <= chars@.len(),
        at == from + first_place(chars@.skip(from as int), c),
{
    let mut at: usize = from;
    let ghost rest = chars@.skip(from as int);
    proof {
        lemma_first_place(rest, c);
    }
    while at < chars.len() && chars[at] != c
        invariant
            from <= at <= chars@.len(),
            rest == chars@.skip(from as int),
            forall|j: int| from <= j < at ==> chars@[j] != c,
            0 <= first_place(rest, c) <= rest.len(),
            first_place(rest, c) < rest.len() ==> rest[first_place(rest, c)] == c,
            forall|i: int| 0 <= i < first_place(rest, c) ==> rest[i] != c,
        decreases chars.len() - at,
    {
        at = at + 1;
    }
    proof {
        let p = first_place(rest, c);
        if p < at - from {
            assert(chars@[from + p] == rest[p]);
        }
        if at - from < p {
            assert(rest[at - from] == chars@[at as int]);
        }
    }
    at
}

/// The pieces of a sequence between separators; one more than there are separators.
pub open spec fn split(s: Seq<char>, separator: char) -> Seq<Seq<char>>
    decreases s.len(),
{
    let at = first_place(s, separator);
    if 0 <= at < s.len() {
        seq![s.take(at)] + split(s.skip(at + 1), separator)
    } else {
        seq![s]
    }
}

/// The pieces of a string between separators.
pub fn split_text(text: &str, separator: char) -> (pieces: Vec<String>)
    ensures
        texts(pieces@) == split(text@, separator),
{
    let chars = chars_of(text);
    let mut pieces: Vec<String> = Vec::new();
    let mut from: usize = 0;
    let ghost all = chars@;
    assert(all.skip(0) =~= all);
    assert(texts(pieces@) + split(all, separator) =~= split(all, separator));
    loop
        invariant
            from <= chars.len(),
            all == chars@,
            all == text@,
            texts(pieces@) + split(all.skip(from as int), separator) == split(all, separator),
        decreases chars.len() - from,
    {
        let at = find_char(chars.as_slice(), from, separator);
        let ghost rest = all.skip(from as int);
        let ghost earlier = pieces@;
        proof {
            lemma_first_place(rest, separator);
        }
        let piece = text_between(chars.as_slice(), from, at);
        assert(piece@ =~= rest.take(at - from));
        pieces.push(piece);
        assert(texts(pieces@) =~= texts(earlier).push(rest.take(at - from)));
        if at == chars.len() {
            assert(rest.take(at - from) =~= rest);
            assert(texts(pieces@) =~= texts(earlier) + split(rest, separator));
            return pieces;
        }
        assert(rest.skip(at - from + 1) =~= all.skip(at + 1));
        assert(texts(pieces@) + split(all.skip(at + 1), separator) =~= texts(earlier) + split(
            rest,
            separator,
        ));
        from = at + 1;
    }
}

/// Where a character last occurs, or -1 if it does not.
pub open spec fn last_place(s: Seq<char>, c: char) -> int
    decreases s.len(),
{
    if s.len() == 0 {
        -1
    } else if s.last() == c {
        s.len() - 1
    } else {
        last_place(s.drop_last(), c)
    }
}

/// What follows the last occurrence of a character, or nothing if it does not occur.
pub fn after_last(text: &str, c: char) -> (rest: String)
    ensures
        rest@ == (if last_place(text@, c) < 0 {
            Seq::<char>::empty()
        } else {
            text@.skip(last_place(text@, c) + 1)
        }),
{
    let chars = chars_of(text);
    let mut i: usize = chars.len();
    assert(text@.take(text@.len() as int) =~= text@);
    while i > 0
        invariant
            i <= chars.len(),
            chars@ == text@,
            last_place(text@, c) == last_place(text@.take(i as int), c),
        decreases i,
    {
        assert(text@.take(i as int).drop_last() =~= text@.take(i - 1));
        assert(text@.take(i as int).last() == text@[i - 1]);
        if chars[i - 1] == c {
            let rest = text_between(chars.as_slice(), i, chars.len());
            assert(rest@ =~= text@.skip(i as int));
            return rest;
        }
        i = i - 1;
    }
    String::new()
}

/// Characters without leading occurrences of a character.
pub open spec fn without_leading(s: Seq<char>, c: char) -> Seq<char>
    decreases s.len(),
{
    if s.len() > 0 && s[0] == c {
        without_leading(s.drop_first(), c)
    } else {
        s
    }
}

/// A string without leading occurrences of a character.
pub fn trim_leading(text: &str, c: char) -> (rest: String)
    ensures
        rest@ == without_leading(text@, c),
{
    let chars = chars_of(text);
    let mut from: usize = 0;
    assert(text@.skip(0) =~= text@);
    while from < chars.len() && chars[from] == c
        invariant
            from <= chars.len(),
            chars@ == text@,
            without_leading(text@, c) == without_leading(text@.skip(from as int), c),
        decreases chars.len() - from,
    {
        assert(text@.skip(from as int).drop_first() =~= text@.skip(from + 1));
        from = from + 1;
    }
    let rest = text_between(chars.as_slice(), from, chars.len());
    assert(rest@ =~= text@.skip(from as int));
    rest
}

/// The decimal text of a number reads back as that number: it is made of digits, at least one,
/// without leading zeros.
pub proof fn a_decimal_denotes_its_number(n: nat)
    ensures
        decimal(n).len() > 0,
        all_digits(decimal(n)),
        digits_value(decimal(n)) == n,
        n > 0 ==> decimal(n)[0] != '0',
        n <= u64::MAX ==> unsigned_number(decimal(n)) == Some(n as u64),
    decreases n,
{
    if n < 10 {
        assert(decimal(n).drop_last() =~= Seq::<char>::empty());
        assert(digits_value(decimal(n).drop_last()) == 0);
        assert(digits_value(decimal(n)) == n);
    } else {
        a_decimal_denotes_its_number(n / 10);
        let head = decimal(n / 10);
        let text = decimal(n);
        assert(text.drop_last() =~= head);
        assert(text.last() == digit(n % 10));
        assert forall|i: int| 0 <= i < text.len() implies is_digit(#[trigger] text[i]) by {
            if i < head.len() {
                assert(text[i] == head[i]);
                assert(is_digit(head[i]));
            }
        }
        assert(text[0] == head[0]);
        assert(digits_value(text) == digits_value(head) * 10 + n % 10);
    }
    assert(is_digit(decimal(n)[0]));
}

/// Different numbers have different decimal texts.
pub proof fn decimals_tell_numbers_apart(a: nat, b: nat)
    ensures
        decimal(a) == decimal(b) <==> a == b,
{
    a_decimal_denotes_its_number(a);
    a_decimal_denotes_its_number(b);
}

/// A digit written behind digits shifts them by one place; a number is read from digits only, and
/// a plus sign before them changes nothing.
pub proof fn digits_denote_by_place(s: Seq<char>, c: char)
    requires
        s.len() > 0,
        all_digits(s),
        is_digit(c),
    ensures
        digits_value(s.push(c)) == 10 * digits_value(s) + (c as int - 48),
        digits_value(seq![c]) == c as int - 48,
        digits_value(s) <= u64::MAX ==> unsigned_number(s) == Some(digits_value(s) as u64),
        digits_value(s) > u64::MAX ==> unsigned_number(s) is None,
        unsigned_number(seq!['+'] + s) == unsigned_number(s),
        unsigned_number(seq!['-'] + s) is None,
        unsigned_number(s + seq![' ']) is None,
{
    assert(s.push(c).drop_last() =~= s);
    assert(seq![c].drop_last() =~= Seq::<char>::empty());
    assert(digits_value(seq![c].drop_last()) == 0);
    assert(is_digit(s[0]));
    assert((seq!['+'] + s).drop_first() =~= s);
    let minus = seq!['-'] + s;
    assert(!is_digit(minus[0]));
    let spaced = s + seq![' '];
    assert(spaced[0] == s[0]);
    assert(!is_digit(spaced[spaced.len() - 1]));
}

/// Trimming removes whitespace at the ends and nothing else: what is left neither begins nor ends
/// with whitespace, and what was removed was all whitespace.
pub proof fn trimming_removes_only_outer_whitespace(s: Seq<char>)
    ensures
        trimmed(s).len() > 0 ==> !white(trimmed(s)[0]) && !white(trimmed(s).last()),
        exists|from: int, to: int|
            #![trigger s.subrange(from, to)]
            0 <= from <= to <= s.len() && trimmed(s) == s.subrange(from, to) && (forall|i: int|
                0 <= i < from ==> white(#[trigger] s[i])) && (forall|i: int|
                to <= i < s.len() ==> white(#[trigger] s[i])),
{
    lemma_trimmed_start(s);
    let body = trimmed_start(s);
    let from = s.len() - body.len();
    lemma_trimmed_end(body);
    let to = from + trimmed_end(body).len();
    assert(trimmed(s) =~= s.subrange(from, to));
    assert forall|i: int| to <= i < s.len() implies white(#[trigger] s[i]) by {
        assert(body[i - from] == s[i]);
    }
}

proof fn lemma_trimmed_start(s: Seq<char>)
    ensures
        trimmed_start(s).len() <= s.len(),
        trimmed_start(s) == s.skip(s.len() - trimmed_start(s).len()),
        trimmed_start(s).len() > 0 ==> !white(trimmed_start(s)[0]),
        forall|i: int| 0 <= i < s.len() - trimmed_start(s).len() ==> white(#[trigger] s[i]),
    decreases s.len(),
{
    if s.len() > 0 && white(s[0]) {
        let rest = s.drop_first();
        lemma_trimmed_start(rest);
        let removed = rest.len() - trimmed_start(rest).len();
        assert(rest.skip(removed) =~= s.skip(removed + 1));
        assert forall|i: int| 0 <= i < removed + 1 implies white(#[trigger] s[i]) by {
            if i > 0 {
                assert(rest[i - 1] == s[i]);
            }
        }
    } else {
        assert(s.skip(0) =~= s);
    }
}

proof fn lemma_trimmed_end(s: Seq<char>)
    ensures
        trimmed_end(s).len() <= s.len(),
        trimmed_end(s) == s.take(trimmed_end(s).len() as int),
        trimmed_end(s).len() > 0 ==> !white(trimmed_end(s).last()),
        forall|i: int| trimmed_end(s).len() <= i < s.len() ==> white(#[trigger] s[i]),
    decreases s.len(),
{
    if s.len() > 0 && white(s.last()) {
        let rest = s.drop_last();
        lemma_trimmed_end(rest);
        assert(rest.take(trimmed_end(rest).len() as int) =~= s.take(trimmed_end(rest).len() as int));
        assert forall|i: int| trimmed_end(rest).len() <= i < s.len() implies white(
            #[trigger] s[i],
        ) by {
            if i < s.len() - 1 {
                assert(rest[i] == s[i]);
            }
        }
    } else {
        assert(s.take(s.len() as int) =~= s);
    }
}

/// Whitespace is what ASCII and Unicode call so: tab, line feed, vertical tab, form feed, carriage
/// return and space are, every other visible ASCII character is not.
pub proof fn ascii_whitespace_is_known(c: char)
    ensures
        c == ' ' || c == '\t' || c == '\n' || c == '\r' ==> white(c),
        33 <= c as int <= 126 ==> !white(c),
        c as int <= 127 ==> (white(c) <==> (c as int == 32 || 9 <= c as int <= 13)),
{
}

/// Lowering touches capital ASCII letters only, keeps the length, and is done after one pass.
pub proof fn lowering_is_idempotent(s: Seq<char>)
    ensures
        ascii_lowered(s).len() == s.len(),
        ascii_lowered(ascii_lowered(s)) == ascii_lowered(s),
        forall|i: int|
            0 <= i < s.len() && 'A' <= s[i] <= 'Z' ==> (#[trigger] ascii_lowered(s)[i]) as int
                == s[i] as int + 32,
        forall|i: int|
            0 <= i < s.len() && !('A' <= s[i] <= 'Z') ==> #[trigger] ascii_lowered(s)[i] == s[i],
{
    assert(ascii_lowered(ascii_lowered(s)) =~= ascii_lowered(s));
}

/// The pieces of a text hold no separator, and joined by it they are the text again.
pub proof fn splitting_is_undone_by_joining(s: Seq<char>, separator: char)
    ensures
        split(s, separator).len() > 0,
        joined(split(s, separator), seq![separator]) == s,
        forall|i: int|
            0 <= i < split(s, separator).len() ==> !(#[trigger] split(s, separator)[i]).contains(
                separator,
            ),
    decreases s.len(),
{
    lemma_first_place(s, separator);
    let at = first_place(s, separator);
    if at < s.len() {
        let rest = s.skip(at + 1);
        splitting_is_undone_by_joining(rest, separator);
        let pieces = split(rest, separator);
        lemma_joined_front(s.take(at), pieces, seq![separator]);
        assert(split(s, separator) =~= seq![s.take(at)] + pieces);
        assert(s.take(at) + seq![separator] + rest =~= s);
        assert forall|i: int| 0 <= i < split(s, separator).len() implies !(#[trigger] split(
            s,
            separator,
        )[i]).contains(separator) by {
            if i > 0 {
                assert(split(s, separator)[i] == pieces[i - 1]);
            }
        }
    } else {
        assert(split(s, separator) =~= seq![s]);
        assert(!s.contains(separator));
    }
}

proof fn lemma_joined_front(first: Seq<char>, parts: Seq<Seq<char>>, separator: Seq<char>)
    requires
        parts.len() > 0,
    ensures
        joined(seq![first] + parts, separator) == first + separator + joined(parts, separator),
    decreases parts.len(),
{
    let all = seq![first] + parts;
    if parts.len() == 1 {
        assert(all.drop_last() =~= seq![first]);
        assert(joined(all.drop_last(), separator) == first);
        assert(joined(all, separator) =~= first + separator + parts[0]);
    } else {
        lemma_joined_front(first, parts.drop_last(), separator);
        assert(all.drop_last() =~= seq![first] + parts.drop_last());
        assert(all.last() == parts.last());
        assert(joined(all, separator) =~= first + separator + joined(parts, separator));
    }
}

/// Dictionary order is decided by the first difference; a proper prefix comes first.
pub proof fn the_first_difference_decides(a: Seq<char>, b: Seq<char>, at: int)
    requires
        0 <= at <= a.len(),
        at < b.len(),
        forall|i: int| 0 <= i < at ==> a[i] == b[i],
    ensures
        at == a.len() ==> text_before(a, b) && !text_before(b, a),
        at < a.len() && (a[at] as int) < (b[at] as int) ==> text_before(a, b) && !text_before(b, a),
{
    lemma_first_difference(a, b, at);
    lemma_first_difference(b, a, at);
}

/// The last place of a character holds it, and none after it does; where it does not occur there
/// is no such place.
pub proof fn nothing_follows_the_last_place(s: Seq<char>, c: char)
    ensures
        -1 <= last_place(s, c) < s.len(),
        s.contains(c) <==> last_place(s, c) >= 0,
        last_place(s, c) >= 0 ==> s[last_place(s, c)] == c,
        forall|i: int| last_place(s, c) < i < s.len() ==> s[i] != c,
    decreases s.len(),
{
    if s.len() > 0 && s.last() != c {
        let rest = s.drop_last();
        nothing_follows_the_last_place(rest, c);
        assert forall|i: int| last_place(s, c) < i < s.len() implies s[i] != c by {
            if i < s.len() - 1 {
                assert(rest[i] == s[i]);
            }
        }
        if s.contains(c) {
            let i = choose|i: int| 0 <= i < s.len() && s[i] == c;
            assert(rest[i] == c);
            assert(rest.contains(c));
        }
        if rest.contains(c) {
            let i = choose|i: int| 0 <= i < rest.len() && rest[i] == c;
            assert(s[i] == c);
        }
    } else if s.len() > 0 {
        assert(s[s.len() - 1] == c);
    }
}

/// Only leading occurrences of the character are removed, and all of them.
pub proof fn only_leading_occurrences_go(s: Seq<char>, c: char)
    ensures
        without_leading(s, c).len() <= s.len(),
        without_leading(s, c) == s.skip(s.len() - without_leading(s, c).len()),
        without_leading(s, c).len() > 0 ==> without_leading(s, c)[0] != c,
        forall|i: int| 0 <= i < s.len() - without_leading(s, c).len() ==> #[trigger] s[i] == c,
    decreases s.len(),
{
    if s.len() > 0 && s[0] == c {
        let rest = s.drop_first();
        only_leading_occurrences_go(rest, c);
        let removed = rest.len() - without_leading(rest, c).len();
        assert(rest.skip(removed) =~= s.skip(removed + 1));
        assert forall|i: int| 0 <= i < removed + 1 implies #[trigger] s[i] == c by {
            if i > 0 {
                assert(rest[i - 1] == s[i]);
            }
        }
    } else {
        assert(s.skip(0) =~= s);
    }
}

/// The pieces of two texts with a separator between them are those of the first and then those of
/// the second.
pub proof fn a_separator_parts_the_pieces(a: Seq<char>, b: Seq<char>, separator: char)
    ensures
        split(a + seq![separator] + b, separator) == split(a, separator) + split(b, separator),
        !a.contains(separator) ==> split(a, separator) == seq![a],
    decreases a.len(),
{
    let s = a + seq![separator] + b;
    lemma_first_place(a, separator);
    lemma_first_place(s, separator);
    let at = first_place(a, separator);
    let found = first_place(s, separator);
    assert(s[a.len() as int] == separator);
    assert(s.contains(separator));
    if at < a.len() {
        assert(s[at] == a[at]);
        if found < at {
            assert(a[found] == s[found]);
        }
        assert(found == at);
        let rest = a.skip(at + 1);
        a_separator_parts_the_pieces(rest, b, separator);
        assert(s.skip(at + 1) =~= rest + seq![separator] + b);
        assert(s.take(at) =~= a.take(at));
        assert(split(s, separator) =~= split(a, separator) + split(b, separator));
        assert(a[at] == separator);
        assert(a.contains(separator));
    } else {
        if found < a.len() {
            assert(a[found] == s[found]);
            assert(a.contains(separator));
        }
        assert(found == a.len());
        assert(s.take(found) =~= a);
        assert(s.skip(found + 1) =~= b);
        assert(split(a, separator) =~= seq![a]);
        assert(split(s, separator) =~= split(a, separator) + split(b, separator));
    }
}

} // verus!
