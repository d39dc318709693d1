//! Text as a sequence of characters: prefixes, decimal numbers, and the joining of pieces.
use vstd::prelude::*;
use vstd::utf8::{encode_scalar, encode_utf8};

verus! {

/// The character of a decimal digit.
pub open spec fn digit(n: nat) -> char {
    (48 + n) as char
}

/// `n` in decimal, with no leading zeros.
pub open spec fn decimal(n: nat) -> Seq<char>
    decreases n,
{
    if n < 10 {
        seq![digit(n)]
    } else {
        decimal(n / 10).push(digit(n % 10))
    }
}

/// `n` in decimal, with a minus sign where it is negative.
pub open spec fn signed_decimal(n: int) -> Seq<char> {
    if n < 0 {
        seq!['-'] + decimal((-n) as nat)
    } else {
        decimal(n as nat)
    }
}

pub open spec fn is_digit(c: char) -> bool {
    '0' <= c && c <= '9'
}

/// At least one character, and nothing but digits.
pub open spec fn is_numeral(s: Seq<char>) -> bool {
    s.len() > 0 && forall|i: int| 0 <= i < s.len() ==> is_digit(#[trigger] s[i])
}

/// The number that a string of digits denotes.
pub open spec fn numeral_value(s: Seq<char>) -> nat
    decreases s.len(),
{
    if s.len() == 0 {
        0
    } else {
        10 * numeral_value(s.drop_last()) + (s.last() as nat - 48) as nat
    }
}

/// The number that `s` denotes when it is digits after an optional plus sign and the number is at
/// most `max`.
pub open spec fn unsigned_value(s: Seq<char>, max: nat) -> Option<nat> {
    let digits = if s.len() > 0 && s[0] == '+' {
        s.skip(1)
    } else {
        s
    };
    if is_numeral(digits) && numeral_value(digits) <= max {
        Some(numeral_value(digits))
    } else {
        None
    }
}

/// The number that `s` denotes when it is digits after an optional sign and the number is an
/// `i32`.
pub open spec fn i32_value(s: Seq<char>) -> Option<int> {
    if s.len() > 0 && s[0] == '-' {
        let digits = s.skip(1);
        if is_numeral(digits) && numeral_value(digits) <= 0x8000_0000 {
            Some(-(numeral_value(digits) as int))
        } else {
            None
        }
    } else {
        match unsigned_value(s, 0x7fff_ffff) {
            Some(n) => Some(n as int),
            None => None,
        }
    }
}

/// `parts` one after the other, with `separator` between neighbours.
pub open spec fn joined(parts: Seq<Seq<char>>, separator: Seq<char>) -> Seq<char>
    decreases parts.len(),
{
    if parts.len() == 0 {
        seq![]
    } else if parts.len() == 1 {
        parts[0]
    } else {
        joined(parts.drop_last(), separator) + separator + parts.last()
    }
}

/// `s` without its longest prefix that is made of copies of `prefix`.
pub open spec fn trimmed_start(s: Seq<char>, prefix: Seq<char>) -> Seq<char>
    decreases s.len(),
{
    if prefix.len() > 0 && prefix.is_prefix_of(s) {
        trimmed_start(s.skip(prefix.len() as int), prefix)
    } else {
        s
    }
}

/// The views of `parts`.
pub open spec fn views(parts: Seq<String>) -> Seq<Seq<char>> {
    parts.map_values(|p: String| p@)
}

/// The view of an optional text.
pub open spec fn view_of(s: Option<String>) -> Option<Seq<char>> {
    match s {
        Some(t) => Some(t@),
        None => None,
    }
}

/// Whether two texts are the same.
pub fn same(a: &str, b: &str) -> (r: bool)
    ensures
        r == (a@ == b@),
{
    let left = a.to_owned();
    let right = b.to_owned();
    left == right
}

/// Whether `s` begins with `prefix`.
pub fn starts_with(s: &str, prefix: &str) -> (r: bool)
    ensures
        r == prefix@.is_prefix_of(s@),
{
    let n: usize = prefix.unicode_len();
    if n > s.unicode_len() {
        return false;
    }
    let head = s.substring_char(0, n);
    assert(prefix@.is_prefix_of(s@) <==> head@ == prefix@) by {
        if head@ == prefix@ {
            assert(prefix@ =~= s@.subrange(0, n as int));
        }
        if prefix@.is_prefix_of(s@) {
            assert(head@ =~= prefix@);
        }
    }
    same(head, prefix)
}

/// `s` ends in `suffix`.
pub open spec fn has_suffix(s: Seq<char>, suffix: Seq<char>) -> bool {
    s.len() >= suffix.len() && s.skip(s.len() - suffix.len()) == suffix
}

/// Whether `s` ends in `suffix`.
pub fn ends_with(s: &str, suffix: &str) -> (r: bool)
    ensures
        r == has_suffix(s@, suffix@),
{
    let n: usize = s.unicode_len();
    let m: usize = suffix.unicode_len();
    if m > n {
        return false;
    }
    let tail = s.substring_char(n - m, n);
    assert(tail@ =~= s@.skip(n - m));
    same(tail, suffix)
}

/// What follows `prefix` in `s`, where `s` begins with it.
pub fn strip_prefix(s: &str, prefix: &str) -> (r: Option<String>)
    ensures
        view_of(r) == if prefix@.is_prefix_of(s@) {
            Some(s@.skip(prefix@.len() as int))
        } else {
            None
        },
{
    if starts_with(s, prefix) {
        let n: usize = prefix.unicode_len();
        let rest = s.substring_char(n, s.unicode_len());
        assert(rest@ =~= s@.skip(prefix@.len() as int));
        Some(rest.to_owned())
    } else {
        None
    }
}

/// `s` without its longest prefix that is made of copies of `prefix`.
pub fn trim_start_matches(s: &str, prefix: &str) -> (r: String)
    ensures
        r@ == trimmed_start(s@, prefix@),
{
    let mut rest = s.to_owned();
    let n: usize = prefix.unicode_len();
    if n == 0 {
        return rest;
    }
    while starts_with(rest.as_str(), prefix)
        invariant
            n == prefix@.len(),
            n > 0,
            trimmed_start(s@, prefix@) == trimmed_start(rest@, prefix@),
        ensures
            !prefix@.is_prefix_of(rest@),
        decreases rest@.len(),
    {
        let text = rest.as_str();
        let tail = text.substring_char(n, text.unicode_len());
        assert(tail@ =~= rest@.skip(prefix@.len() as int));
        rest = tail.to_owned();
    }
    rest
}

fn digit_text(n: u64) -> (r: &'static str)
    requires
        n < 10,
    ensures
        r@ == seq![digit(n as nat)],
{
    proof {
        reveal_strlit("0");
        reveal_strlit("1");
        reveal_strlit("2");
        reveal_strlit("3");
        reveal_strlit("4");
        reveal_strlit("5");
        reveal_strlit("6");
        reveal_strlit("7");
        reveal_strlit("8");
        reveal_strlit("9");
    }
    let text = match n {
        0 => "0",
        1 => "1",
        2 => "2",
        3 => "3",
        4 => "4",
        5 => "5",
        6 => "6",
        7 => "7",
        8 => "8",
        _ => "9",
    };
    assert(text@ =~= seq![digit(n as nat)]);
    text
}

/// `n` in decimal.
pub fn decimal_text(n: u64) -> (r: String)
    ensures
        r@ == decimal(n as nat),
    decreases n,
{
    if n < 10 {
        digit_text(n).to_owned()
    } else {
        let mut text = decimal_text(n / 10);
        text.append(digit_text(n % 10));
        assert(text@ =~= decimal(n as nat));
        text
    }
}

/// `n` in decimal, with a minus sign where it is negative.
pub fn signed_decimal_text(n: i64) -> (r: String)
    ensures
        r@ == signed_decimal(n as int),
{
    if n < 0 {
        proof {
            reveal_strlit("-");
        }
        let magnitude: u64 = (-(n as i128)) as u64;
        let mut text = "-".to_owned();
        let digits = decimal_text(magnitude);
        text.append(digits.as_str());
        assert(text@ =~= signed_decimal(n as int));
        text
    } else {
        decimal_text(n as u64)
    }
}

/// Reads the digits of `s` from `from` on.
fn numeral(s: &str, from: usize, max: u64) -> (r: Option<u64>)
    requires
        from <= s@.len(),
    ensures
        match r {
            Some(n) => is_numeral(s@.skip(from as int)) && n == numeral_value(s@.skip(from as int))
                && n <= max,
            None => !is_numeral(s@.skip(from as int)) || numeral_value(s@.skip(from as int)) > max,
        },
{
    let n: usize = s.unicode_len();
    let ghost digits = s@.skip(from as int);
    if from == n {
        return None;
    }
    let tail = s.substring_char(from, n);
    assert(tail@ =~= digits);
    let mut value: u64 = 0;
    for c in it: tail.chars()
        invariant
            it.seq() == digits,
            digits == s@.skip(from as int),
            forall|j: int| 0 <= j < it.index() ==> is_digit(#[trigger] digits[j]),
            value == numeral_value(digits.take(it.index() as int)),
            value <= max,
    {
        let ghost i = it.index() as int;
        assert(digits[i] == c);
        if c < '0' || c > '9' {
            assert(!is_digit(digits[i]));
            return None;
        }
        let d: u64 = (c as u32 - 48) as u64;
        proof {
            let next = digits.take(i + 1);
            assert(next.drop_last() =~= digits.take(i));
            assert(next.last() == digits[i]);
            assert(numeral_value(next) == 10 * value + d);
            lemma_numeral_grows(digits, i + 1, digits.len() as int);
            assert(digits.take(digits.len() as int) =~= digits);
        }
        if value > max / 10 || d > max - 10 * value {
            return None;
        }
        value = 10 * value + d;
    }
    assert(digits.take(digits.len() as int) =~= digits);
    Some(value)
}

/// Further characters never make a numeral smaller.
proof fn lemma_numeral_grows(s: Seq<char>, i: int, j: int)
    requires
        0 <= i <= j <= s.len(),
    ensures
        numeral_value(s.take(i)) <= numeral_value(s.take(j)),
    decreases j - i,
{
    if i < j {
        lemma_numeral_grows(s, i, j - 1);
        assert(s.take(j).drop_last() =~= s.take(j - 1));
    }
}

/// The number that `s` denotes when it is digits after an optional plus sign and the number is at
/// most `max`.
pub fn parse_unsigned(s: &str, max: u64) -> (r: Option<u64>)
    ensures
        match unsigned_value(s@, max as nat) {
            Some(n) => r == Some(n as u64),
            None => r is None,
        },
        r matches Some(n) ==> n <= max,
{
    if s.unicode_len() > 0 && s.get_char(0) == '+' {
        numeral(s, 1, max)
    } else {
        assert(s@.skip(0) =~= s@);
        numeral(s, 0, max)
    }
}

/// The number that `s` denotes when it is digits after an optional sign and the number is an
/// `i32`.
pub fn parse_i32(s: &str) -> (r: Option<i32>)
    ensures
        match i32_value(s@) {
            Some(n) => r == Some(n as i32) && i32::MIN <= n <= i32::MAX,
            None => r is None,
        },
{
    if s.unicode_len() > 0 && s.get_char(0) == '-' {
        match numeral(s, 1, 0x8000_0000) {
            Some(n) => Some((-(n as i64)) as i32),
            None => None,
        }
    } else {
        match parse_unsigned(s, 0x7fff_ffff) {
            Some(n) => Some(n as i32),
            None => None,
        }
    }
}

/// `parts` one after the other, with `separator` between neighbours.
pub fn join(parts: &Vec<String>, separator: &str) -> (r: String)
    ensures
        r@ == joined(views(parts@), separator@),
{
    let ghost all = views(parts@);
    if parts.len() == 0 {
        return String::new();
    }
    let mut text = parts[0].clone();
    let mut i: usize = 1;
    assert(all.take(1)[0] == parts@[0]@);
    while i < parts.len()
        invariant
            1 <= i <= parts@.len(),
            all == views(parts@),
            text@ == joined(all.take(i as int), separator@),
        decreases parts@.len() - i,
    {
        text.append(separator);
        text.append(parts[i].as_str());
        i = i + 1;
        assert(all.take(i as int).drop_last() =~= all.take(i - 1));
        assert(all.take(i as int).last() == parts@[i - 1]@);
    }
    assert(all.take(parts@.len() as int) =~= all);
    text
}

/// A text holds the character that ends texts in C.
#[derive(Clone, Copy, Debug, PartialEq, Eq, Structural)]
pub struct InteriorNul {
    /// The first place of that character, in bytes.
    pub at: usize,
}

/// `s` has no character that would end it in C.
pub open spec fn is_c_text(s: Seq<char>) -> bool {
    forall|i: int| 0 <= i < s.len() ==> #[trigger] s[i] != '\0'
}

/// How many characters of `s` C would see.
pub open spec fn c_len(s: Seq<char>) -> int
    decreases s.len(),
{
    if s.len() == 0 || s[0] == '\0' {
        0
    } else {
        1 + c_len(s.drop_first())
    }
}

/// How many bytes of `s` C would see: the place of the character that ends it.
pub open spec fn nul_place(s: Seq<char>) -> int {
    encode_utf8(s.take(c_len(s))).len() as int
}

/// Whether `r` is `s`, made ready for C, or tells where it would end too soon.
pub open spec fn made_c_text(s: Seq<char>, r: Result<String, InteriorNul>) -> bool {
    match r {
        Ok(text) => is_c_text(s) && text@ == s,
        Err(nul) => !is_c_text(s) && nul.at == nul_place(s),
    }
}

proof fn lemma_c_len(s: Seq<char>, i: int)
    requires
        0 <= i < s.len(),
        s[i] == '\0',
        forall|j: int| 0 <= j < i ==> #[trigger] s[j] != '\0',
    ensures
        c_len(s) == i,
    decreases i,
{
    if i > 0 {
        assert(s[0] != '\0');
        assert forall|j: int| 0 <= j < i - 1 implies #[trigger] s.drop_first()[j] != '\0' by {
            assert(s.drop_first()[j] == s[j + 1]);
        }
        lemma_c_len(s.drop_first(), i - 1);
    }
}

proof fn lemma_encoding_joins(a: Seq<char>, b: Seq<char>)
    ensures
        encode_utf8(a + b) == encode_utf8(a) + encode_utf8(b),
    decreases a.len(),
{
    if a.len() == 0 {
        assert(a + b =~= b);
        assert(encode_utf8(a) + encode_utf8(b) =~= encode_utf8(b));
    } else {
        lemma_encoding_joins(a.drop_first(), b);
        assert((a + b).drop_first() =~= a.drop_first() + b);
        assert(encode_utf8(a + b) =~= encode_utf8(a) + encode_utf8(b));
    }
}

/// One character more takes its own bytes more, and no more than the whole text has.
proof fn lemma_encoding_grows(s: Seq<char>, i: int)
    requires
        0 <= i < s.len(),
    ensures
        encode_utf8(s.take(i + 1)).len() == encode_utf8(s.take(i)).len() + encode_scalar(
            s[i] as u32,
        ).len(),
        encode_utf8(s.take(i + 1)).len() <= encode_utf8(s).len(),
{
    let one = seq![s[i]];
    assert(one.drop_first() =~= seq![]);
    assert(encode_utf8(one.drop_first()) =~= seq![]);
    assert(encode_utf8(one) =~= encode_scalar(s[i] as u32));
    assert(s.take(i + 1) =~= s.take(i) + one);
    lemma_encoding_joins(s.take(i), one);
    assert(s =~= s.take(i + 1) + s.skip(i + 1));
    lemma_encoding_joins(s.take(i + 1), s.skip(i + 1));
}

/// How many bytes a character takes.
fn encoded_width(c: char) -> (r: usize)
    ensures
        r == encode_scalar(c as u32).len(),
{
    let scalar: u32 = c as u32;
    if scalar <= 0x7f {
        1
    } else if scalar <= 0x7ff {
        2
    } else if scalar <= 0xffff {
        3
    } else {
        4
    }
}

/// `s`, where it can be handed to C.
pub fn c_text(s: String) -> (r: Result<String, InteriorNul>)
    ensures
        made_c_text(s@, r),
{
    let text = s.as_str();
    let size: usize = text.as_bytes().len();
    let mut at: usize = 0;
    assert(s@.take(0) =~= seq![]);
    for c in it: text.chars()
        invariant
            it.seq() == text@,
            text@ == s@,
            size == encode_utf8(s@).len(),
            at == encode_utf8(s@.take(it.index() as int)).len(),
            forall|j: int| 0 <= j < it.index() ==> #[trigger] s@[j] != '\0',
    {
        let ghost i = it.index() as int;
        assert(c == s@[i]);
        if c == '\0' {
            proof {
                lemma_c_len(s@, i);
            }
            return Err(InteriorNul { at });
        }
        proof {
            lemma_encoding_grows(s@, i);
        }
        at = at + encoded_width(c);
    }
    Ok(s)
}

/// `parts` one after the other, each with `separator` behind it.
pub open spec fn each_ended(parts: Seq<Seq<char>>, separator: Seq<char>) -> Seq<char>
    decreases parts.len(),
{
    if parts.len() == 0 {
        seq![]
    } else {
        parts[0] + separator + each_ended(parts.drop_first(), separator)
    }
}

/// What is joined begins with the first part and ends with the last one, and between two neighbours
/// there is one separator and nothing else.
pub proof fn law_joined_parts(parts: Seq<Seq<char>>, last: Seq<char>, separator: Seq<char>)
    ensures
        joined(parts.push(last), separator) == each_ended(parts, separator) + last,
        joined(seq![], separator) == Seq::<char>::empty(),
    decreases parts.len(),
{
    if parts.len() == 0 {
        assert(parts.push(last) =~= seq![last]);
        assert(each_ended(parts, separator) + last =~= last);
    } else {
        let before = parts.drop_last();
        law_joined_parts(before, parts.last(), separator);
        assert(before.push(parts.last()) =~= parts);
        assert(parts.push(last).drop_last() =~= parts);
        lemma_each_ended_push(before, parts.last(), separator);
        assert(each_ended(parts, separator) == each_ended(before, separator) + parts.last()
            + separator);
        assert(joined(parts.push(last), separator) =~= each_ended(parts, separator) + last);
    }
}

pub proof fn lemma_each_ended_push(parts: Seq<Seq<char>>, last: Seq<char>, separator: Seq<char>)
    ensures
        each_ended(parts.push(last), separator) == each_ended(parts, separator) + last + separator,
    decreases parts.len(),
{
    if parts.len() == 0 {
        assert(parts.push(last).drop_first() =~= seq![]);
        assert(each_ended(parts.push(last).drop_first(), separator) =~= seq![]);
        assert(each_ended(parts.push(last), separator) =~= each_ended(parts, separator) + last
            + separator);
    } else {
        lemma_each_ended_push(parts.drop_first(), last, separator);
        assert(parts.push(last).drop_first() =~= parts.drop_first().push(last));
        assert(each_ended(parts.push(last), separator) =~= each_ended(parts, separator) + last
            + separator);
    }
}

pub proof fn lemma_each_ended_joins(a: Seq<Seq<char>>, b: Seq<Seq<char>>, separator: Seq<char>)
    ensures
        each_ended(a + b, separator) == each_ended(a, separator) + each_ended(b, separator),
    decreases a.len(),
{
    if a.len() == 0 {
        assert(a + b =~= b);
        assert(each_ended(a, separator) + each_ended(b, separator) =~= each_ended(b, separator));
    } else {
        lemma_each_ended_joins(a.drop_first(), b, separator);
        assert((a + b).drop_first() =~= a.drop_first() + b);
        assert(each_ended(a + b, separator) =~= each_ended(a, separator) + each_ended(
            b,
            separator,
        ));
    }
}

/// Decimal digits denote the number they were written for.
pub proof fn law_decimal_denotes(n: nat)
    ensures
        is_numeral(decimal(n)),
        numeral_value(decimal(n)) == n,
    decreases n,
{
    reveal_with_fuel(numeral_value, 2);
    if n < 10 {
        assert(decimal(n).drop_last() =~= seq![]);
        assert(decimal(n).last() == digit(n));
    } else {
        law_decimal_denotes(n / 10);
        assert(decimal(n).drop_last() =~= decimal(n / 10));
        assert(decimal(n).last() == digit(n % 10));
        assert forall|i: int| 0 <= i < decimal(n).len() implies is_digit(
            #[trigger] decimal(n)[i],
        ) by {
            if i < decimal(n).len() - 1 {
                assert(decimal(n)[i] == decimal(n / 10)[i]);
            }
        }
    }
}

/// The ten digits, and no other characters, are digits, each for its own number.
pub proof fn law_ten_digits(c: char, n: nat)
    ensures
        is_digit(c) <==> 48 <= c as int <= 57,
        n < 10 ==> is_digit(digit(n)) && digit(n) as int == 48 + n,
        is_digit(c) ==> digit((c as int - 48) as nat) == c,
{
}

/// No number but zero begins with a zero.
pub proof fn law_decimal_has_no_leading_zeros(n: nat)
    ensures
        decimal(n).len() > 0,
        n > 0 ==> decimal(n)[0] != '0',
        n == 0 ==> decimal(n) == seq!['0'],
    decreases n,
{
    if n >= 10 {
        law_decimal_has_no_leading_zeros(n / 10);
    } else {
        assert(n == 0 ==> decimal(n) =~= seq!['0']);
    }
}

/// A text is read as a number if and only if it is digits, at least one, behind a plus sign or none,
/// and the number is not too large. Reading one digit more is ten times the number and the digit.
pub proof fn law_what_is_read_as_a_number(s: Seq<char>, c: char, max: nat)
    ensures
        unsigned_value(s, max) is None && s.len() > 0 && s[0] != '+' && numeral_value(s) <= max
            ==> exists|i: int| 0 <= i < s.len() && !is_digit(#[trigger] s[i]),
        unsigned_value(seq!['+'] + s, max) == if is_numeral(s) && numeral_value(s) <= max {
            Some(numeral_value(s))
        } else {
            None
        },
        unsigned_value(seq![], max) is None,
        s.len() > 0 && s[0] != '+' ==> (unsigned_value(s, max) matches Some(n) ==> n
            == numeral_value(s)),
        numeral_value(seq![]) == 0,
        unsigned_value(s, max) matches Some(n) ==> n <= max && (forall|i: int|
            0 < i < s.len() ==> is_digit(#[trigger] s[i])) && (s[0] == '+' || is_digit(s[0])),
        is_digit(c) ==> numeral_value(s.push(c)) == 10 * numeral_value(s) + (c as int - '0' as int),
{
    assert((seq!['+'] + s).skip(1) =~= s);
    assert(s.push(c).drop_last() =~= s);
    if unsigned_value(s, max) is Some {
        assert forall|i: int| 0 < i < s.len() implies is_digit(#[trigger] s[i]) by {
            if s[0] == '+' {
                assert(s.skip(1)[i - 1] == s[i]);
            }
        }
    }
}

/// A number with its sign is read as the number that the sign and its digits tell.
pub proof fn law_what_is_read_as_a_signed_number(s: Seq<char>)
    ensures
        i32_value(seq!['-'] + s) == if is_numeral(s) && numeral_value(s) <= 0x8000_0000 {
            Some(-(numeral_value(s) as int))
        } else {
            None
        },
        s.len() == 0 || s[0] != '-' ==> (i32_value(s) matches Some(n) ==> unsigned_value(
            s,
            0x7fff_ffff,
        ) == Some(n as nat) && n >= 0),
        s.len() == 0 || s[0] != '-' ==> (i32_value(s) is None <==> unsigned_value(
            s,
            0x7fff_ffff,
        ) is None),
{
    assert((seq!['-'] + s).skip(1) =~= s);
}

/// The place of the character that ends a text in C is where the bytes of what comes before it end.
pub proof fn law_nul_is_found(s: Seq<char>, i: int)
    requires
        0 <= i < s.len(),
        s[i] == '\0',
        forall|j: int| 0 <= j < i ==> #[trigger] s[j] != '\0',
    ensures
        !is_c_text(s),
        is_c_text(s.take(i)),
        nul_place(s) == encode_utf8(s.take(i)).len(),
{
    lemma_c_len(s, i);
}

/// A text is handed to C as it is, or refused with the place of the first character that would end
/// it; the latter if and only if there is such a character.
pub proof fn law_what_c_is_handed(s: Seq<char>, r: Result<String, InteriorNul>, i: int)
    requires
        made_c_text(s, r),
    ensures
        r matches Ok(text) ==> text@ == s,
        r is Ok <==> forall|j: int| 0 <= j < s.len() ==> #[trigger] s[j] != '\0',
        r matches Err(nul) ==> (0 <= i < s.len() && s[i] == '\0' && (forall|j: int|
            0 <= j < i ==> #[trigger] s[j] != '\0') ==> nul.at == encode_utf8(s.take(i)).len()),
{
    if 0 <= i < s.len() && s[i] == '\0' && (forall|j: int|
        0 <= j < i ==> #[trigger] s[j] != '\0') {
        lemma_c_len(s, i);
    }
}

/// A prefix is taken off as often as it is there, and nothing else is.
pub proof fn law_prefixes_are_taken_off(s: Seq<char>, prefix: Seq<char>)
    requires
        prefix.len() > 0,
    ensures
        !prefix.is_prefix_of(trimmed_start(s, prefix)),
        !prefix.is_prefix_of(s) ==> trimmed_start(s, prefix) == s,
        trimmed_start(prefix + s, prefix) == trimmed_start(s, prefix),
    decreases s.len(),
{
    if prefix.is_prefix_of(s) {
        law_prefixes_are_taken_off(s.skip(prefix.len() as int), prefix);
    }
    assert((prefix + s).subrange(0, prefix.len() as int) =~= prefix);
    assert((prefix + s).skip(prefix.len() as int) =~= s);
}

/// A text ends in another one if and only if it is something with that text behind it.
pub proof fn law_suffixes(s: Seq<char>, suffix: Seq<char>, head: Seq<char>)
    ensures
        has_suffix(head + suffix, suffix),
        has_suffix(s, suffix) ==> s == s.take(s.len() - suffix.len()) + suffix,
{
    assert((head + suffix).skip(head.len() as int) =~= suffix);
    if has_suffix(s, suffix) {
        assert(s =~= s.take(s.len() - suffix.len()) + s.skip(s.len() - suffix.len()));
    }
}

/// A number that is written down and read back is the same number.
pub proof fn law_decimal_round_trip(n: nat, max: nat)
    requires
        n <= max,
    ensures
        unsigned_value(decimal(n), max) == Some(n),
{
    law_decimal_denotes(n);
    assert(is_digit(decimal(n)[0]));
}

} // verus!
